use tui_brulee::geometry::cells;
use tui_brulee::geometry::SCALE;
use tui_brulee::measure_function;
use tui_brulee::AvailableSpace;
use tui_brulee::ImageContext;
use tui_brulee::Length;
use tui_brulee::NodeContext;
use tui_brulee::Size;
use tui_brulee::TextContext;

#[test]
fn max_content_width_is_word_length_sum_and_wrap_gives_two_lines() {
    // Words "ab", "abc", "a" have lengths 2, 3, 1: max-content width is 6.
    // Wrapping at 6: "ab abc" fills the line (2+1+3), "a" starts line two.
    let text = TextContext::new(String::from("ab abc a"));
    let r = text.measure(
        Size { width: None, height: None },
        Size { width: AvailableSpace::MaxContent, height: AvailableSpace::MaxContent },
    );
    assert_eq!(r, Size { width: cells(6), height: cells(2) });
}

#[test]
fn min_content_width_is_longest_word() {
    let text = TextContext::new(String::from("ab abc a"));
    let r = text.measure(
        Size { width: None, height: None },
        Size { width: AvailableSpace::MinContent, height: AvailableSpace::MinContent },
    );
    assert_eq!(r.width, cells(3));
    // Wrapping at 3: "ab" | "abc" | "a".
    assert_eq!(r.height, cells(3));
}

#[test]
fn definite_width_clamps_to_longest_word_from_below() {
    let text = TextContext::new(String::from("ab abc a"));
    let r = text.measure(
        Size { width: None, height: None },
        Size {
            width: AvailableSpace::Definite(cells(2)),
            height: AvailableSpace::Definite(cells(100)),
        },
    );
    assert_eq!(r.width, cells(3));
    assert_eq!(r.height, cells(3));
}

#[test]
fn definite_width_clamps_to_one_line_sum_from_above() {
    let text = TextContext::new(String::from("ab abc a"));
    let r = text.measure(
        Size { width: None, height: None },
        Size {
            width: AvailableSpace::Definite(cells(40)),
            height: AvailableSpace::Definite(cells(40)),
        },
    );
    assert_eq!(r.width, cells(6));
    assert_eq!(r.height, cells(2));
}

#[test]
fn definite_width_inside_the_interval_is_kept() {
    let text = TextContext::new(String::from("ab abc a"));
    let r = text.measure(
        Size { width: None, height: None },
        Size {
            width: AvailableSpace::Definite(cells(4)),
            height: AvailableSpace::Definite(cells(4)),
        },
    );
    // Wrapping at 4: "ab" (2+1+3 > 4) | "abc" (3+1+1 > 4) | "a".
    assert_eq!(r.width, cells(4));
    assert_eq!(r.height, cells(3));
}

#[test]
fn fractional_width_is_kept_but_wraps_at_its_floor() {
    let text = TextContext::new(String::from("ab abc a"));
    let five_and_a_half = Length { raw: 5 * SCALE + SCALE / 2 };
    let r = text.measure(
        Size { width: None, height: None },
        Size {
            width: AvailableSpace::Definite(five_and_a_half),
            height: AvailableSpace::MaxContent,
        },
    );
    // The width keeps its fraction; the wrap runs at floor(5.5) = 5:
    // "ab" (2+1+3 = 6 > 5) | "abc a" (3+1+1 = 5).
    assert_eq!(r.width, five_and_a_half);
    assert_eq!(r.height, cells(2));
}

#[test]
fn known_width_bypasses_the_clamp_and_known_height_bypasses_the_wrap() {
    let text = TextContext::new(String::from("ab abc a"));
    let r = text.measure(
        Size { width: Some(cells(40)), height: None },
        Size { width: AvailableSpace::MinContent, height: AvailableSpace::MinContent },
    );
    // 40 is far past the one-line sum but is known, so it is used as is.
    assert_eq!(r, Size { width: cells(40), height: cells(1) });

    let r = text.measure(
        Size { width: None, height: Some(cells(9)) },
        Size { width: AvailableSpace::MinContent, height: AvailableSpace::MinContent },
    );
    assert_eq!(r, Size { width: cells(3), height: cells(9) });
}

#[test]
fn a_line_never_breaks_inside_a_word() {
    let text = TextContext::new(String::from("abcdef"));
    let r = text.measure(
        Size { width: Some(cells(2)), height: None },
        Size { width: AvailableSpace::MaxContent, height: AvailableSpace::MaxContent },
    );
    // The single word is wider than the line, but still takes one line.
    assert_eq!(r.height, cells(1));
}

#[test]
fn wrap_height_never_increases_as_known_width_grows() {
    let text = TextContext::new(String::from(
        "Lorem ipsum dolor sit amet, consectetur adipiscing elit",
    ));
    let mut last = usize::MAX;
    for w in 1u16..60 {
        let r = text.measure(
            Size { width: Some(cells(w)), height: None },
            Size { width: AvailableSpace::MaxContent, height: AvailableSpace::MaxContent },
        );
        let lines = (r.height.raw / SCALE) as usize;
        assert!(lines <= last);
        last = lines;
    }
}

#[test]
fn empty_text_measures_to_zero_under_every_mode() {
    for content in ["", " \t \n ", "\u{b}", "\u{c}\u{85}\u{a0}\u{2003}\u{3000}"] {
        for avail in [
            AvailableSpace::MinContent,
            AvailableSpace::MaxContent,
            AvailableSpace::Definite(cells(7)),
        ] {
            let text = TextContext::new(String::from(content));
            let r = text.measure(
                Size { width: None, height: None },
                Size { width: avail, height: avail },
            );
            assert_eq!(r, Size { width: Length { raw: 0 }, height: Length { raw: 0 } });
        }
    }
}

#[test]
fn words_split_on_tabs_and_newlines_too() {
    let text = TextContext::new(String::from("a\t\tbb\ncc  d"));
    let r = text.measure(
        Size { width: None, height: None },
        Size { width: AvailableSpace::MaxContent, height: AvailableSpace::MaxContent },
    );
    // Word lengths 1, 2, 2, 1 sum to 6; one line at width 6 needs 9 cells,
    // so the wrap at 6 gives "a bb" (1+1+2, then +1+2 = 7 > 6) | "cc d".
    assert_eq!(r.width, cells(6));
    assert_eq!(r.height, cells(2));
}

#[test]
fn unicode_whitespace_separates_words_like_ascii_whitespace() {
    // A no-break space and an em space split words just as a plain space does.
    let text = TextContext::new(String::from("a\u{a0}b\u{2003}cc"));
    let r = text.measure(
        Size { width: None, height: None },
        Size { width: AvailableSpace::MinContent, height: AvailableSpace::MaxContent },
    );
    // Word lengths 1, 1, 2: the longest word is 2; wrapping at 2 puts each
    // word on its own line.
    assert_eq!(r.width, cells(2));
    assert_eq!(r.height, cells(3));
}

#[test]
fn image_with_both_dimensions_known_returns_them_unchanged() {
    let img = ImageContext::new(cells(200), cells(150)).unwrap();
    let r = img.measure(Size { width: Some(cells(7)), height: Some(cells(900)) });
    assert_eq!(r, Size { width: cells(7), height: cells(900) });
}

#[test]
fn image_with_known_width_scales_height_by_the_intrinsic_ratio() {
    let img = ImageContext::new(cells(200), cells(150)).unwrap();
    let r = img.measure(Size { width: Some(cells(100)), height: None });
    assert_eq!(r, Size { width: cells(100), height: cells(75) });
}

#[test]
fn image_with_known_height_scales_width_by_the_intrinsic_ratio() {
    let img = ImageContext::new(cells(200), cells(150)).unwrap();
    let r = img.measure(Size { width: None, height: Some(cells(75)) });
    assert_eq!(r, Size { width: cells(100), height: cells(75) });
}

#[test]
fn image_with_nothing_known_returns_its_intrinsic_size() {
    let img = ImageContext::new(cells(200), cells(150)).unwrap();
    let r = img.measure(Size { width: None, height: None });
    assert_eq!(r, Size { width: cells(200), height: cells(150) });
}

#[test]
fn image_scaling_truncates_the_fixed_point_quotient() {
    // 100 * 150 / 199 cells = 75.37...: kept to the fixed-point grid.
    let img = ImageContext::new(cells(199), cells(150)).unwrap();
    let r = img.measure(Size { width: Some(cells(100)), height: None });
    assert_eq!(r.width, cells(100));
    assert_eq!(r.height.raw, (100u64 * SCALE * (150 * SCALE)) / (199 * SCALE));
}

#[test]
fn image_content_with_a_zero_intrinsic_dimension_is_rejected() {
    assert!(ImageContext::new(cells(0), cells(150)).is_none());
    assert!(ImageContext::new(cells(200), cells(0)).is_none());
    assert!(ImageContext::new(cells(0), cells(0)).is_none());
    assert!(ImageContext::new(cells(200), cells(150)).is_some());
}

#[test]
fn dispatcher_short_circuits_when_both_dimensions_are_known() {
    let text = NodeContext::Text(TextContext::new(String::from("ab abc a")));
    let r = measure_function(
        Size { width: Some(cells(9)), height: Some(cells(4)) },
        Size { width: AvailableSpace::MinContent, height: AvailableSpace::MinContent },
        Some(&text),
    );
    // The content would resolve to other values; the known size wins.
    assert_eq!(r, Size { width: cells(9), height: cells(4) });
}

#[test]
fn dispatcher_measures_no_content_as_zero() {
    let r = measure_function(
        Size { width: None, height: None },
        Size { width: AvailableSpace::MaxContent, height: AvailableSpace::MaxContent },
        None,
    );
    assert_eq!(r, Size { width: Length { raw: 0 }, height: Length { raw: 0 } });
}

#[test]
fn dispatcher_routes_to_the_matching_measurer() {
    let text = NodeContext::Text(TextContext::new(String::from("ab abc a")));
    let r = measure_function(
        Size { width: None, height: None },
        Size { width: AvailableSpace::MaxContent, height: AvailableSpace::MaxContent },
        Some(&text),
    );
    assert_eq!(r, Size { width: cells(6), height: cells(2) });

    let image = NodeContext::Image(ImageContext::new(cells(200), cells(150)).unwrap());
    let r = measure_function(
        Size { width: Some(cells(100)), height: None },
        Size { width: AvailableSpace::MaxContent, height: AvailableSpace::MaxContent },
        Some(&image),
    );
    assert_eq!(r, Size { width: cells(100), height: cells(75) });
}
