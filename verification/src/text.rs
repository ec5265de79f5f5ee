//! Intrinsic size of a word-wrapped text block.
//!
//! The text is tokenized into words (maximal runs of non-space characters).
//! The width is the known width if the caller has one, and otherwise follows
//! the constraint mode: the longest word for min-content, the sum of all word
//! lengths for max-content (a deliberate one-line upper bound that ignores
//! inter-word spacing), and a definite width clamped into that interval. The
//! height is the known height if the caller has one, and otherwise the line
//! count of a greedy word wrap at the resolved width truncated to whole
//! cells: a line never breaks inside a word, and each further word on a line
//! costs its own length plus one separating space.

use vstd::prelude::*;

use crate::geometry::AvailableSpace;
use crate::geometry::Length;
use crate::geometry::SCALE;
use crate::geometry::Size;
use crate::geometry::length_of_cells;
use vstd::string::StrSliceExecFns;

verus! {

/// Characters that separate words: exactly those with the Unicode
/// `White_Space` property, the set `char::is_whitespace` accepts.
pub open spec fn is_space(c: char) -> bool {
    let u = c as u32;
    (0x9 <= u && u <= 0xd) || u == 0x20 || u == 0x85 || u == 0xa0 || u == 0x1680 || (0x2000 <= u
        && u <= 0x200a) || u == 0x2028 || u == 0x2029 || u == 0x202f || u == 0x205f || u == 0x3000
}

/// Word lengths of `s`, as the pair of the lengths of the words finished
/// before the end of `s` and the length of the word still open at the end
/// (`0` when `s` ends in a space or is empty).
pub open spec fn scan_words(s: Seq<char>) -> (Seq<int>, int)
    decreases s.len(),
{
    if s.len() == 0 {
        (Seq::empty(), 0)
    } else {
        let prev = scan_words(s.drop_last());
        if is_space(s.last()) {
            if prev.1 > 0 {
                (prev.0.push(prev.1), 0)
            } else {
                (prev.0, 0)
            }
        } else {
            (prev.0, prev.1 + 1)
        }
    }
}

/// The lengths, in characters and in order, of the space-separated words of
/// `s`.
pub open spec fn word_lengths(s: Seq<char>) -> Seq<int> {
    let sc = scan_words(s);
    if sc.1 > 0 {
        sc.0.push(sc.1)
    } else {
        sc.0
    }
}

/// Sum of a sequence of lengths.
pub open spec fn sum_of(l: Seq<int>) -> int
    decreases l.len(),
{
    if l.len() == 0 {
        0
    } else {
        sum_of(l.drop_last()) + l.last()
    }
}

/// Maximum of a sequence of lengths; `0` for the empty sequence.
pub open spec fn max_of(l: Seq<int>) -> int
    decreases l.len(),
{
    if l.len() == 0 {
        0
    } else {
        let m = max_of(l.drop_last());
        if l.last() > m {
            l.last()
        } else {
            m
        }
    }
}

/// A sequence of `usize` lengths as mathematical integers.
pub open spec fn int_lens(v: Seq<usize>) -> Seq<int> {
    v.map_values(|x: usize| x as int)
}

/// State of the greedy word wrap after laying out the words `lens` at the
/// whole-cell line limit `limit`: the pair of the line count so far and the
/// length of the line under construction. The first word always starts the
/// first line, even when it is longer than the limit; every further word
/// costs one separating space, and moves to a fresh line when it would push
/// the current line past the limit.
pub open spec fn wrap_state(lens: Seq<int>, limit: int) -> (int, int)
    decreases lens.len(),
{
    if lens.len() <= 1 {
        (1, if lens.len() == 0 { 0 } else { lens[0] })
    } else {
        let prev = wrap_state(lens.drop_last(), limit);
        let w = lens.last();
        if prev.1 + 1 + w > limit {
            (prev.0 + 1, w)
        } else {
            (prev.0, prev.1 + 1 + w)
        }
    }
}

/// The number of lines the greedy wrap produces.
pub open spec fn wrap_count(lens: Seq<int>, limit: int) -> int {
    wrap_state(lens, limit).0
}

/// The width a text block resolves to, before any wrapping: the known width
/// when present, else the width the constraint mode asks for.
pub open spec fn resolved_width(
    lens: Seq<int>,
    known_width: Option<Length>,
    available_width: AvailableSpace,
) -> Length {
    match known_width {
        Some(w) => w,
        None => match available_width {
            AvailableSpace::MinContent => length_of_cells(max_of(lens)),
            AvailableSpace::MaxContent => length_of_cells(sum_of(lens)),
            AvailableSpace::Definite(l) => {
                let narrowest = length_of_cells(max_of(lens));
                let widest = length_of_cells(sum_of(lens));
                let capped = if l.raw > widest.raw {
                    widest
                } else {
                    l
                };
                if capped.raw < narrowest.raw {
                    narrowest
                } else {
                    capped
                }
            },
        },
    }
}

/// The size a text block measures to: `{0, 0}` when it has no words, and
/// otherwise the resolved width paired with the known height or the greedy
/// wrap's line count at the resolved width truncated to whole cells.
pub open spec fn measured_text(
    t: TextContext,
    known_dimensions: Size<Option<Length>>,
    available_space: Size<AvailableSpace>,
) -> Size<Length> {
    let lens = word_lengths(t.text_content@);
    if lens.len() == 0 {
        Size { width: Length { raw: 0 }, height: Length { raw: 0 } }
    } else {
        let width = resolved_width(lens, known_dimensions.width, available_space.width);
        let height = match known_dimensions.height {
            Some(h) => h,
            None => length_of_cells(wrap_count(lens, width.raw as int / SCALE as int)),
        };
        Size { width, height }
    }
}

/// Every finished word is non-empty, the open run is non-negative, and the
/// words plus the open run never hold more characters than were scanned.
proof fn lemma_scan_bounds(s: Seq<char>)
    ensures
        scan_words(s).1 >= 0,
        forall|i: int| 0 <= i < scan_words(s).0.len() ==> scan_words(s).0[i] >= 1,
        sum_of(scan_words(s).0) + scan_words(s).1 <= s.len(),
    decreases s.len(),
{
    if s.len() > 0 {
        lemma_scan_bounds(s.drop_last());
        let prev = scan_words(s.drop_last());
        if is_space(s.last()) && prev.1 > 0 {
            let pushed = prev.0.push(prev.1);
            assert(pushed.drop_last() =~= prev.0);
            assert(sum_of(pushed) == sum_of(prev.0) + prev.1);
            assert forall|i: int| 0 <= i < pushed.len() implies pushed[i] >= 1 by {
                if i < prev.0.len() {
                    assert(pushed[i] == prev.0[i]);
                } else {
                    assert(pushed[i] == prev.1);
                }
            }
        }
    }
}

/// Every word of a text is non-empty, and the words together never hold more
/// characters than the text.
pub proof fn lemma_word_lengths_bounds(s: Seq<char>)
    ensures
        forall|i: int| 0 <= i < word_lengths(s).len() ==> word_lengths(s)[i] >= 1,
        sum_of(word_lengths(s)) <= s.len(),
{
    lemma_scan_bounds(s);
    let sc = scan_words(s);
    if sc.1 > 0 {
        let pushed = sc.0.push(sc.1);
        assert(pushed.drop_last() =~= sc.0);
        assert(sum_of(pushed) == sum_of(sc.0) + sc.1);
        assert forall|i: int| 0 <= i < pushed.len() implies pushed[i] >= 1 by {
            if i < sc.0.len() {
                assert(pushed[i] == sc.0[i]);
            } else {
                assert(pushed[i] == sc.1);
            }
        }
    }
}

/// A text with no characters has no words.
pub proof fn lemma_empty_text_has_no_words()
    ensures
        word_lengths(Seq::<char>::empty()).len() == 0,
{
}

/// The sum of non-negative lengths is non-negative.
proof fn lemma_sum_nonneg(l: Seq<int>)
    requires
        forall|i: int| 0 <= i < l.len() ==> l[i] >= 0,
    ensures
        sum_of(l) >= 0,
    decreases l.len(),
{
    if l.len() > 0 {
        lemma_sum_nonneg(l.drop_last());
    }
}

/// Taking one more length adds exactly that length to the running sum.
proof fn lemma_sum_take_succ(l: Seq<int>, j: int)
    requires
        0 <= j < l.len(),
    ensures
        sum_of(l.take(j + 1)) == sum_of(l.take(j)) + l[j],
{
    assert(l.take(j + 1).drop_last() =~= l.take(j));
    assert(l.take(j + 1).last() == l[j]);
}

/// Taking one more length updates the running maximum in the obvious way.
proof fn lemma_max_take_succ(l: Seq<int>, j: int)
    requires
        0 <= j < l.len(),
    ensures
        max_of(l.take(j + 1)) == if l[j] > max_of(l.take(j)) {
            l[j]
        } else {
            max_of(l.take(j))
        },
{
    assert(l.take(j + 1).drop_last() =~= l.take(j));
    assert(l.take(j + 1).last() == l[j]);
}

/// A prefix of non-negative lengths never sums past the whole.
proof fn lemma_sum_prefix_le(l: Seq<int>, j: int)
    requires
        0 <= j <= l.len(),
        forall|i: int| 0 <= i < l.len() ==> l[i] >= 0,
    ensures
        sum_of(l.take(j)) <= sum_of(l),
    decreases l.len() - j,
{
    if j == l.len() {
        assert(l.take(j) =~= l);
    } else {
        lemma_sum_take_succ(l, j);
        lemma_sum_prefix_le(l, j + 1);
    }
}

/// Over non-negative lengths the maximum never exceeds the sum.
pub proof fn lemma_max_le_sum(l: Seq<int>)
    requires
        forall|i: int| 0 <= i < l.len() ==> l[i] >= 0,
    ensures
        0 <= max_of(l),
        max_of(l) <= sum_of(l),
    decreases l.len(),
{
    if l.len() > 0 {
        lemma_max_le_sum(l.drop_last());
        lemma_sum_nonneg(l.drop_last());
    }
}

/// The greedy wrap's progress is monotone in the limit: at a wider limit it
/// is never behind — on an earlier line, or on the same line with no more of
/// it filled.
proof fn lemma_wrap_state_monotone(lens: Seq<int>, narrow: int, wide: int)
    requires
        lens.len() >= 1,
        forall|i: int| 0 <= i < lens.len() ==> lens[i] >= 0,
        narrow <= wide,
    ensures
        wrap_state(lens, wide).0 < wrap_state(lens, narrow).0 || (wrap_state(lens, wide).0
            == wrap_state(lens, narrow).0 && wrap_state(lens, wide).1 <= wrap_state(
            lens,
            narrow,
        ).1),
        wrap_state(lens, narrow).1 >= 0,
        wrap_state(lens, wide).1 >= 0,
    decreases lens.len(),
{
    if lens.len() > 1 {
        assert forall|i: int| 0 <= i < lens.drop_last().len() implies lens.drop_last()[i] >= 0 by {
            assert(lens.drop_last()[i] == lens[i]);
        }
        lemma_wrap_state_monotone(lens.drop_last(), narrow, wide);
        assert(lens.last() >= 0);
    }
}

/// A greedy word wrap never needs more lines at a wider limit than at a
/// narrower one, for any fixed list of word lengths.
pub proof fn lemma_wrap_count_monotone(lens: Seq<int>, narrow: int, wide: int)
    requires
        lens.len() >= 1,
        forall|i: int| 0 <= i < lens.len() ==> lens[i] >= 0,
        narrow <= wide,
    ensures
        wrap_count(lens, wide) <= wrap_count(lens, narrow),
{
    lemma_wrap_state_monotone(lens, narrow, wide);
}

/// For a fixed text, widening the wrap limit never increases the line count.
pub proof fn lemma_text_wrap_monotone(s: Seq<char>, narrow: int, wide: int)
    requires
        word_lengths(s).len() >= 1,
        narrow <= wide,
    ensures
        wrap_count(word_lengths(s), wide) <= wrap_count(word_lengths(s), narrow),
{
    lemma_word_lengths_bounds(s);
    lemma_wrap_count_monotone(word_lengths(s), narrow, wide);
}

/// The greedy wrap always produces at least one line.
proof fn lemma_wrap_count_positive(lens: Seq<int>, limit: int)
    requires
        lens.len() >= 1,
    ensures
        wrap_count(lens, limit) >= 1,
    decreases lens.len(),
{
    if lens.len() > 1 {
        lemma_wrap_count_positive(lens.drop_last(), limit);
    }
}

/// A wider resolved width, truncated to whole cells, never yields a taller
/// wrapped height.
proof fn lemma_height_monotone_raw(lens: Seq<int>, narrow_raw: int, wide_raw: int)
    requires
        lens.len() >= 1,
        forall|i: int| 0 <= i < lens.len() ==> lens[i] >= 0,
        0 <= narrow_raw <= wide_raw,
    ensures
        length_of_cells(wrap_count(lens, wide_raw / (SCALE as int))).raw <= length_of_cells(
            wrap_count(lens, narrow_raw / (SCALE as int)),
        ).raw,
{
    vstd::arithmetic::div_mod::lemma_div_is_ordered(narrow_raw, wide_raw, SCALE as int);
    lemma_wrap_count_monotone(lens, narrow_raw / (SCALE as int), wide_raw / (SCALE as int));
    lemma_wrap_count_positive(lens, wide_raw / (SCALE as int));
    lemma_length_of_cells_monotone(
        wrap_count(lens, wide_raw / (SCALE as int)),
        wrap_count(lens, narrow_raw / (SCALE as int)),
    );
}

/// For fixed content with no known height, a wider known width never
/// measures to a taller text.
pub proof fn lemma_measured_height_monotone_known_width(
    t: TextContext,
    narrow: Length,
    wide: Length,
    available_space: Size<AvailableSpace>,
)
    requires
        narrow.raw <= wide.raw,
    ensures
        measured_text(t, Size { width: Some(wide), height: None }, available_space).height.raw
            <= measured_text(
            t,
            Size { width: Some(narrow), height: None },
            available_space,
        ).height.raw,
{
    let lens = word_lengths(t.text_content@);
    if lens.len() >= 1 {
        lemma_word_lengths_bounds(t.text_content@);
        lemma_height_monotone_raw(lens, narrow.raw as int, wide.raw as int);
    }
}

/// The same monotonicity through a definite available width: offering the
/// text more space never increases the measured height.
pub proof fn lemma_measured_height_monotone_definite(
    t: TextContext,
    narrow: Length,
    wide: Length,
    available_height: AvailableSpace,
)
    requires
        narrow.raw <= wide.raw,
    ensures
        measured_text(
            t,
            Size { width: None, height: None },
            Size { width: AvailableSpace::Definite(wide), height: available_height },
        ).height.raw <= measured_text(
            t,
            Size { width: None, height: None },
            Size { width: AvailableSpace::Definite(narrow), height: available_height },
        ).height.raw,
{
    let lens = word_lengths(t.text_content@);
    if lens.len() >= 1 {
        lemma_word_lengths_bounds(t.text_content@);
        lemma_max_le_sum(lens);
        lemma_length_of_cells_monotone(max_of(lens), sum_of(lens));
        let resolved_narrow = resolved_width(lens, None, AvailableSpace::Definite(narrow));
        let resolved_wide = resolved_width(lens, None, AvailableSpace::Definite(wide));
        assert(resolved_narrow.raw <= resolved_wide.raw);
        lemma_height_monotone_raw(lens, resolved_narrow.raw as int, resolved_wide.raw as int);
    }
}

/// Converting a larger whole-cell count never gives a shorter length.
proof fn lemma_length_of_cells_monotone(a: int, b: int)
    requires
        0 <= a <= b,
    ensures
        length_of_cells(a).raw <= length_of_cells(b).raw,
{
    assert(a * SCALE <= b * SCALE) by (nonlinear_arith)
        requires 0 <= a <= b && SCALE >= 0;
}

/// How each constraint mode resolves a width: the known width wins; else
/// min-content is the longest word, max-content the sum of all word lengths,
/// and a definite width is clamped into that interval — never narrower than
/// the longest word, never wider than the one-line sum.
pub proof fn lemma_resolved_width_modes(lens: Seq<int>, l: Length, w: Length)
    requires
        forall|i: int| 0 <= i < lens.len() ==> lens[i] >= 0,
    ensures
        forall|avail: AvailableSpace|
            resolved_width(lens, Some(w), avail) == w,
        resolved_width(lens, None, AvailableSpace::MinContent) == length_of_cells(max_of(lens)),
        resolved_width(lens, None, AvailableSpace::MaxContent) == length_of_cells(sum_of(lens)),
        length_of_cells(max_of(lens)).raw <= resolved_width(
            lens,
            None,
            AvailableSpace::Definite(l),
        ).raw <= length_of_cells(sum_of(lens)).raw,
        l.raw < length_of_cells(max_of(lens)).raw ==> resolved_width(
            lens,
            None,
            AvailableSpace::Definite(l),
        ) == length_of_cells(max_of(lens)),
        l.raw > length_of_cells(sum_of(lens)).raw ==> resolved_width(
            lens,
            None,
            AvailableSpace::Definite(l),
        ) == length_of_cells(sum_of(lens)),
        length_of_cells(max_of(lens)).raw <= l.raw <= length_of_cells(sum_of(lens)).raw
            ==> resolved_width(lens, None, AvailableSpace::Definite(l)) == l,
{
    lemma_max_le_sum(lens);
    lemma_length_of_cells_monotone(max_of(lens), sum_of(lens));
}

/// A text with no words measures to `{0, 0}` under every constraint mode and
/// whatever dimensions are already known.
pub proof fn lemma_no_words_measures_zero(
    t: TextContext,
    known_dimensions: Size<Option<Length>>,
    available_space: Size<AvailableSpace>,
)
    requires
        word_lengths(t.text_content@).len() == 0,
    ensures
        measured_text(t, known_dimensions, available_space) == (Size {
            width: Length { raw: 0 },
            height: Length { raw: 0 },
        }),
{
}

/// Whether `c` separates words.
fn is_space_char(c: char) -> (r: bool)
    ensures
        r == is_space(c),
{
    let u: u32 = c as u32;
    (0x9 <= u && u <= 0xd) || u == 0x20 || u == 0x85 || u == 0xa0 || u == 0x1680 || (0x2000 <= u
        && u <= 0x200a) || u == 0x2028 || u == 0x2029 || u == 0x202f || u == 0x205f || u == 0x3000
}

/// Tokenize `text` into its space-separated words and return each word's
/// length in characters, in order.
pub fn word_lengths_of(text: &str) -> (r: Vec<usize>)
    ensures
        int_lens(r@) == word_lengths(text@),
        sum_of(word_lengths(text@)) <= usize::MAX as int,
{
    let n: usize = text.unicode_len();
    let mut lens: Vec<usize> = Vec::new();
    let mut cur: usize = 0;
    let mut i: usize = 0;
    proof {
        assert(text@.take(0) =~= Seq::<char>::empty());
        assert(int_lens(lens@) =~= Seq::<int>::empty());
    }
    while i < n
        invariant
            n as int == text@.len(),
            i <= n,
            (int_lens(lens@), cur as int) == scan_words(text@.take(i as int)),
            cur <= i,
        decreases n - i,
    {
        let c = text.get_char(i);
        proof {
            assert(text@.take(i as int + 1).drop_last() =~= text@.take(i as int));
            assert(text@.take(i as int + 1).last() == text@[i as int]);
        }
        if is_space_char(c) {
            if cur > 0 {
                let ghost prev = int_lens(lens@);
                lens.push(cur);
                proof {
                    assert(int_lens(lens@) =~= prev.push(cur as int));
                }
                cur = 0;
            }
        } else {
            cur = cur + 1;
        }
        i = i + 1;
    }
    proof {
        assert(text@.take(n as int) =~= text@);
    }
    if cur > 0 {
        let ghost prev = int_lens(lens@);
        lens.push(cur);
        proof {
            assert(int_lens(lens@) =~= prev.push(cur as int));
        }
    }
    proof {
        lemma_word_lengths_bounds(text@);
    }
    lens
}

/// The length of the longest word and the sum of all word lengths, the
/// narrowest and widest widths a wrap can use.
fn narrowest_and_widest(lens: &Vec<usize>) -> (r: (usize, usize))
    requires
        sum_of(int_lens(lens@)) <= usize::MAX as int,
    ensures
        r.0 as int == max_of(int_lens(lens@)),
        r.1 as int == sum_of(int_lens(lens@)),
{
    let ghost l = int_lens(lens@);
    let mut longest: usize = 0;
    let mut total: usize = 0;
    let mut j: usize = 0;
    proof {
        assert(l.take(0) =~= Seq::<int>::empty());
        assert forall|i: int| 0 <= i < l.len() implies l[i] >= 0 by {
            assert(l[i] == lens@[i] as int);
        }
    }
    while j < lens.len()
        invariant
            j <= lens@.len(),
            l == int_lens(lens@),
            l.len() == lens@.len(),
            sum_of(l) <= usize::MAX as int,
            forall|i: int| 0 <= i < l.len() ==> l[i] >= 0,
            longest as int == max_of(l.take(j as int)),
            total as int == sum_of(l.take(j as int)),
        decreases lens@.len() - j,
    {
        let w = lens[j];
        proof {
            assert(l[j as int] == lens@[j as int] as int);
            lemma_sum_take_succ(l, j as int);
            lemma_max_take_succ(l, j as int);
            lemma_sum_prefix_le(l, j as int + 1);
        }
        if w > longest {
            longest = w;
        }
        total = total + w;
        j = j + 1;
    }
    proof {
        assert(l.take(lens@.len() as int) =~= l);
    }
    (longest, total)
}

/// The number of lines a greedy wrap of the words `lens` needs at the
/// whole-cell line limit `limit`.
fn wrap_line_count(lens: &Vec<usize>, limit: u64) -> (r: usize)
    requires
        lens@.len() >= 1,
        sum_of(int_lens(lens@)) <= usize::MAX as int,
    ensures
        r as int == wrap_count(int_lens(lens@), limit as int),
{
    let ghost l = int_lens(lens@);
    proof {
        lemma_sum_nonneg(l);
    }
    let mut lines: usize = 1;
    let mut cur: u128 = lens[0] as u128;
    let mut j: usize = 1;
    proof {
        assert(l.take(1) =~= seq![l[0]]);
        lemma_sum_take_succ(l, 0);
        assert(l.take(0) =~= Seq::<int>::empty());
    }
    while j < lens.len()
        invariant
            1 <= j <= lens@.len(),
            l == int_lens(lens@),
            l.len() == lens@.len(),
            sum_of(l) <= usize::MAX as int,
            forall|i: int| 0 <= i < l.len() ==> l[i] >= 0,
            (lines as int, cur as int) == wrap_state(l.take(j as int), limit as int),
            lines <= j,
            cur as int <= sum_of(l.take(j as int)) + j,
        decreases lens@.len() - j,
    {
        let w = lens[j];
        proof {
            assert(l.take(j as int + 1).drop_last() =~= l.take(j as int));
            assert(l.take(j as int + 1).last() == l[j as int]);
            lemma_sum_take_succ(l, j as int);
            lemma_sum_prefix_le(l, j as int + 1);
            lemma_sum_nonneg(l.take(j as int));
        }
        if cur + 1 + (w as u128) > limit as u128 {
            lines = lines + 1;
            cur = w as u128;
        } else {
            cur = cur + 1 + (w as u128);
        }
        j = j + 1;
    }
    proof {
        assert(l.take(lens@.len() as int) =~= l);
    }
    lines
}

/// A leaf's text content: the measurer reads it and nothing mutates it.
#[derive(Debug, Clone, PartialEq, Eq)]
pub struct TextContext {
    /// The text to be wrapped, words separated by spaces.
    pub text_content: String,
}

impl TextContext {
    /// Attach the given text to a leaf.
    pub fn new(text_content: String) -> (r: TextContext)
        ensures
            r.text_content == text_content,
    {
        TextContext { text_content }
    }

    /// Measure the intrinsic size of this text block under the given known
    /// dimensions and constraint modes.
    pub fn measure(
        &self,
        known_dimensions: Size<Option<Length>>,
        available_space: Size<AvailableSpace>,
    ) -> (r: Size<Length>)
        ensures
            r == measured_text(*self, known_dimensions, available_space),
    {
        let lens = word_lengths_of(self.text_content.as_str());
        if lens.len() == 0 {
            return Size { width: Length { raw: 0 }, height: Length { raw: 0 } };
        }
        proof {
            lemma_word_lengths_bounds(self.text_content@);
        }
        let width: Length = match known_dimensions.width {
            Some(w) => w,
            None => match available_space.width {
                AvailableSpace::MinContent => {
                    let bounds = narrowest_and_widest(&lens);
                    crate::geometry::cells_saturating(bounds.0)
                },
                AvailableSpace::MaxContent => {
                    let bounds = narrowest_and_widest(&lens);
                    crate::geometry::cells_saturating(bounds.1)
                },
                AvailableSpace::Definite(l) => {
                    let bounds = narrowest_and_widest(&lens);
                    let narrowest = crate::geometry::cells_saturating(bounds.0);
                    let widest = crate::geometry::cells_saturating(bounds.1);
                    let capped = if l.raw > widest.raw {
                        widest
                    } else {
                        l
                    };
                    if capped.raw < narrowest.raw {
                        narrowest
                    } else {
                        capped
                    }
                },
            },
        };
        let height: Length = match known_dimensions.height {
            Some(h) => h,
            None => {
                let limit: u64 = width.raw / SCALE;
                let lines = wrap_line_count(&lens, limit);
                crate::geometry::cells_saturating(lines)
            },
        };
        Size { width, height }
    }
}

} // verus!
