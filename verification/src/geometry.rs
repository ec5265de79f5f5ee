//! Conversions between the terminal's integer cell coordinates and the
//! layout engine's continuous lengths.
//!
//! A continuous length is represented in fixed point: [`SCALE`] subunits per
//! terminal cell. Terminal rectangles are at most `u16::MAX` cells wide, so a
//! cell count always converts to a length exactly; the reverse direction
//! truncates toward zero and saturates at the largest representable cell
//! coordinate, and clamps negative engine output to zero.

use vstd::prelude::*;

verus! {

/// Fixed-point subunits per terminal cell.
pub const SCALE: u64 = 65536;

/// A non-negative continuous length, measured in terminal cells, held as a
/// fixed-point count of `1/SCALE` cell subunits.
#[derive(Clone, Copy, Debug, PartialEq, Eq)]
pub struct Length {
    /// The length in `1/SCALE` cell subunits.
    pub raw: u64,
}

/// A continuous coordinate or extent as the layout engine reports it, in
/// `1/SCALE` cell subunits. Unlike [`Length`] it can be negative: a buggy or
/// extreme style can push a computed box to a negative position or size, and
/// the conversion to cells must clamp such values rather than wrap.
#[derive(Clone, Copy, Debug, PartialEq, Eq)]
pub struct Coord {
    /// The signed value in `1/SCALE` cell subunits.
    pub raw: i64,
}

/// A width/height pair; `T` is a length, a constraint mode, or an optional
/// length, depending on use.
#[derive(Clone, Copy, Debug, PartialEq, Eq)]
pub struct Size<T> {
    /// Extent along the horizontal axis.
    pub width: T,
    /// Extent along the vertical axis.
    pub height: T,
}

/// One dimension's constraint mode for a measurement request.
#[derive(Clone, Copy, Debug, PartialEq, Eq)]
pub enum AvailableSpace {
    /// A hard upper bound on the dimension is known.
    Definite(Length),
    /// The caller wants the smallest size that avoids overflow.
    MinContent,
    /// The caller wants the size the content takes with no wrapping.
    MaxContent,
}

/// A terminal rectangle: position and size in whole character cells.
#[derive(Clone, Copy, Debug, PartialEq, Eq)]
pub struct Rect {
    /// Column of the left edge.
    pub x: u16,
    /// Row of the top edge.
    pub y: u16,
    /// Width in cells; zero is valid.
    pub width: u16,
    /// Height in cells; zero is valid.
    pub height: u16,
}

/// A continuous position, relative to the parent's origin.
#[derive(Clone, Copy, Debug, PartialEq, Eq)]
pub struct Point {
    /// Horizontal offset.
    pub x: Coord,
    /// Vertical offset.
    pub y: Coord,
}

/// The layout engine's computed box for one node: continuous position and
/// size relative to the node's parent origin.
#[derive(Clone, Copy, Debug, PartialEq, Eq)]
pub struct LayoutBox {
    /// Top-left corner of the box.
    pub location: Point,
    /// Extent of the box.
    pub size: Size<Coord>,
}

/// The length that stands for `n` whole cells: `n * SCALE` subunits,
/// saturating at the largest representable length.
pub open spec fn length_of_cells(n: int) -> Length {
    if n * SCALE > u64::MAX {
        Length { raw: u64::MAX }
    } else {
        Length { raw: (n * SCALE) as u64 }
    }
}

/// The cell coordinate a continuous value maps to: truncated toward zero,
/// negative values clamped to `0`, values past the terminal range saturated
/// at `u16::MAX`.
pub open spec fn cell_of(c: Coord) -> int {
    if c.raw < 0 {
        0
    } else if c.raw / (SCALE as i64) > u16::MAX {
        u16::MAX as int
    } else {
        c.raw / (SCALE as i64)
    }
}

/// The cell rectangle a computed box maps to, field by field.
pub open spec fn rect_of(b: LayoutBox) -> Rect {
    Rect {
        x: cell_of(b.location.x) as u16,
        y: cell_of(b.location.y) as u16,
        width: cell_of(b.size.width) as u16,
        height: cell_of(b.size.height) as u16,
    }
}

/// The available space a terminal rectangle offers: both dimensions are
/// always definite, since the terminal always reports a concrete region.
pub open spec fn available_space_of(r: Rect) -> Size<AvailableSpace> {
    Size {
        width: AvailableSpace::Definite(length_of_cells(r.width as int)),
        height: AvailableSpace::Definite(length_of_cells(r.height as int)),
    }
}

/// An exact length of `n` whole cells.
pub fn cells(n: u16) -> (r: Length)
    ensures
        r == length_of_cells(n as int),
        r.raw == n as int * SCALE,
{
    Length { raw: (n as u64) * SCALE }
}

/// The length of `n` whole cells, saturating at the largest representable
/// length when the fixed-point value would not fit.
pub fn cells_saturating(n: usize) -> (r: Length)
    ensures
        r == length_of_cells(n as int),
{
    let wide: u128 = (n as u128) * (SCALE as u128);
    if wide > (u64::MAX as u128) {
        Length { raw: u64::MAX }
    } else {
        Length { raw: wide as u64 }
    }
}

/// Truncate one engine coordinate to a cell coordinate: toward zero, clamped
/// to `0` from below and to `u16::MAX` from above.
pub fn coord_to_cell(c: Coord) -> (r: u16)
    ensures
        r as int == cell_of(c),
{
    if c.raw < 0 {
        0
    } else {
        let q: u64 = (c.raw as u64) / SCALE;
        if q > 65535 {
            u16::MAX
        } else {
            q as u16
        }
    }
}

/// Convert a computed box to the terminal rectangle it covers. Each field is
/// truncated toward zero; negative engine output degrades to an invisible
/// zero-size edge, and out-of-range output saturates at the terminal bound.
pub fn to_rect(layout: &LayoutBox) -> (r: Rect)
    ensures
        r == rect_of(*layout),
{
    Rect {
        x: coord_to_cell(layout.location.x),
        y: coord_to_cell(layout.location.y),
        width: coord_to_cell(layout.size.width),
        height: coord_to_cell(layout.size.height),
    }
}

/// Convert the terminal's drawing rectangle to the engine's available space:
/// each dimension independently becomes a definite bound.
pub fn to_available_space(rect: Rect) -> (r: Size<AvailableSpace>)
    ensures
        r == available_space_of(rect),
{
    Size {
        width: AvailableSpace::Definite(cells(rect.width)),
        height: AvailableSpace::Definite(cells(rect.height)),
    }
}

/// A whole-cell box converts back to exactly its cell rectangle: converting a
/// rectangle of width `w` and height `h` to available space yields the
/// definite lengths for `w` and `h` cells, and a box that echoes those
/// lengths as its size at the origin converts to the rectangle
/// `{0, 0, w, h}` exactly.
pub proof fn lemma_cell_roundtrip(w: u16, h: u16)
    ensures
        available_space_of(Rect { x: 0, y: 0, width: w, height: h }) == (Size {
            width: AvailableSpace::Definite(length_of_cells(w as int)),
            height: AvailableSpace::Definite(length_of_cells(h as int)),
        }),
        rect_of(
            LayoutBox {
                location: Point { x: Coord { raw: 0 }, y: Coord { raw: 0 } },
                size: Size {
                    width: Coord { raw: (w as int * SCALE) as i64 },
                    height: Coord { raw: (h as int * SCALE) as i64 },
                },
            },
        ) == (Rect { x: 0, y: 0, width: w, height: h }),
{
    assert((w as int * SCALE as int) / (SCALE as int) == w as int) by (nonlinear_arith);
    assert((h as int * SCALE as int) / (SCALE as int) == h as int) by (nonlinear_arith);
}

} // verus!
