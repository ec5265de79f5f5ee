use tui_brulee::geometry::SCALE;
use tui_brulee::to_available_space;
use tui_brulee::to_rect;
use tui_brulee::AvailableSpace;
use tui_brulee::Coord;
use tui_brulee::LayoutBox;
use tui_brulee::Length;
use tui_brulee::Point;
use tui_brulee::Rect;
use tui_brulee::Size;

#[test]
fn terminal_rect_becomes_definite_available_space() {
    let rect = Rect { x: 0, y: 0, width: 82, height: 12 };
    let avail = to_available_space(rect);
    assert_eq!(avail.width, AvailableSpace::Definite(Length { raw: 82 * SCALE }));
    assert_eq!(avail.height, AvailableSpace::Definite(Length { raw: 12 * SCALE }));
}

#[test]
fn echoed_box_converts_back_to_the_same_rect() {
    let layout = LayoutBox {
        location: Point { x: Coord { raw: 0 }, y: Coord { raw: 0 } },
        size: Size {
            width: Coord { raw: 82 * SCALE as i64 },
            height: Coord { raw: 12 * SCALE as i64 },
        },
    };
    assert_eq!(to_rect(&layout), Rect { x: 0, y: 0, width: 82, height: 12 });
}

#[test]
fn whole_cell_boxes_round_trip_exactly() {
    for (w, h) in [(0u16, 0u16), (1, 1), (80, 24), (65535, 65535)] {
        let layout = LayoutBox {
            location: Point { x: Coord { raw: 0 }, y: Coord { raw: 0 } },
            size: Size {
                width: Coord { raw: w as i64 * SCALE as i64 },
                height: Coord { raw: h as i64 * SCALE as i64 },
            },
        };
        assert_eq!(to_rect(&layout), Rect { x: 0, y: 0, width: w, height: h });
    }
}

#[test]
fn to_rect_truncates_toward_zero_not_nearest() {
    // 2 + 65535/65536 cells is still cell 2.
    let almost_three = Coord { raw: 2 * SCALE as i64 + (SCALE as i64 - 1) };
    let layout = LayoutBox {
        location: Point { x: almost_three, y: Coord { raw: SCALE as i64 / 2 } },
        size: Size {
            width: Coord { raw: 6 * SCALE as i64 + 1 },
            height: Coord { raw: 1 },
        },
    };
    assert_eq!(to_rect(&layout), Rect { x: 2, y: 0, width: 6, height: 0 });
}

#[test]
fn to_rect_clamps_negative_coordinates_to_zero() {
    let layout = LayoutBox {
        location: Point { x: Coord { raw: -5 * SCALE as i64 }, y: Coord { raw: -1 } },
        size: Size {
            width: Coord { raw: -(SCALE as i64) },
            height: Coord { raw: 3 * SCALE as i64 },
        },
    };
    assert_eq!(to_rect(&layout), Rect { x: 0, y: 0, width: 0, height: 3 });
}

#[test]
fn to_rect_saturates_past_the_terminal_range() {
    let layout = LayoutBox {
        location: Point { x: Coord { raw: i64::MAX }, y: Coord { raw: 0 } },
        size: Size {
            width: Coord { raw: 65536 * SCALE as i64 },
            height: Coord { raw: 65535 * SCALE as i64 },
        },
    };
    assert_eq!(to_rect(&layout), Rect { x: 65535, y: 0, width: 65535, height: 65535 });
}

#[test]
fn zero_size_rect_is_valid_input() {
    let avail = to_available_space(Rect { x: 3, y: 4, width: 0, height: 0 });
    assert_eq!(avail.width, AvailableSpace::Definite(Length { raw: 0 }));
    assert_eq!(avail.height, AvailableSpace::Definite(Length { raw: 0 }));
}
