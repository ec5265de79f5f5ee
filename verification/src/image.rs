//! Aspect-ratio-preserving size for a fixed-aspect content block.
//!
//! When both dimensions are known they win unchanged; with exactly one known
//! dimension the other is scaled by the intrinsic aspect ratio; with neither
//! known the intrinsic size is returned. A zero intrinsic dimension would
//! make the scaling undefined, so it is rejected when the content is built,
//! not at measurement time.

use vstd::prelude::*;

use crate::geometry::Length;
use crate::geometry::Size;

verus! {

/// A leaf's fixed-aspect content: its intrinsic width and height.
#[derive(Debug, Clone, Copy, PartialEq, Eq)]
pub struct ImageContext {
    /// Intrinsic width; never zero.
    pub width: Length,
    /// Intrinsic height; never zero.
    pub height: Length,
}

/// Well-formed image content has two positive intrinsic dimensions.
pub open spec fn image_wf(img: ImageContext) -> bool {
    img.width.raw > 0 && img.height.raw > 0
}

/// `value * numer / denom` on fixed-point raw values, truncated toward zero
/// and saturating at the largest representable length.
pub open spec fn scaled(value: int, numer: int, denom: int) -> int {
    let q = (value * numer) / denom;
    if q > u64::MAX {
        u64::MAX as int
    } else {
        q
    }
}

/// The size a fixed-aspect block measures to: known dimensions win; a single
/// known dimension fixes the other through the intrinsic ratio; otherwise
/// the intrinsic size itself.
pub open spec fn measured_image(
    img: ImageContext,
    known_dimensions: Size<Option<Length>>,
) -> Size<Length> {
    match (known_dimensions.width, known_dimensions.height) {
        (Some(width), Some(height)) => Size { width, height },
        (Some(width), None) => Size {
            width,
            height: Length {
                raw: scaled(width.raw as int, img.height.raw as int, img.width.raw as int) as u64,
            },
        },
        (None, Some(height)) => Size {
            width: Length {
                raw: scaled(height.raw as int, img.width.raw as int, img.height.raw as int) as u64,
            },
            height,
        },
        (None, None) => Size { width: img.width, height: img.height },
    }
}

/// Scale `value` by `numer / denom` in fixed point, truncating toward zero
/// and saturating at the largest representable length.
fn scale_length(value: Length, numer: Length, denom: Length) -> (r: Length)
    requires
        denom.raw > 0,
    ensures
        r.raw as int == scaled(value.raw as int, numer.raw as int, denom.raw as int),
{
    proof {
        assert((value.raw as u128) * (numer.raw as u128) <= u128::MAX) by (nonlinear_arith)
            requires value.raw <= u64::MAX && numer.raw <= u64::MAX;
    }
    let wide: u128 = (value.raw as u128) * (numer.raw as u128);
    let q: u128 = wide / (denom.raw as u128);
    if q > (u64::MAX as u128) {
        Length { raw: u64::MAX }
    } else {
        Length { raw: q as u64 }
    }
}

impl ImageContext {
    /// Attach fixed-aspect content with the given intrinsic size; content
    /// with a zero intrinsic dimension is a configuration error and is
    /// rejected here rather than at measurement time.
    pub fn new(width: Length, height: Length) -> (r: Option<ImageContext>)
        ensures
            width.raw > 0 && height.raw > 0 ==> r == Some(ImageContext { width, height }),
            !(width.raw > 0 && height.raw > 0) ==> r is None,
    {
        if width.raw > 0 && height.raw > 0 {
            Some(ImageContext { width, height })
        } else {
            None
        }
    }

    /// Measure this block under the given known dimensions: explicit sizes
    /// win, a single known dimension preserves the intrinsic aspect ratio,
    /// and with nothing known the intrinsic size is returned.
    pub fn measure(&self, known_dimensions: Size<Option<Length>>) -> (r: Size<Length>)
        requires
            image_wf(*self),
        ensures
            r == measured_image(*self, known_dimensions),
    {
        match (known_dimensions.width, known_dimensions.height) {
            (Some(width), Some(height)) => Size { width, height },
            (Some(width), None) => Size {
                width,
                height: scale_length(width, self.height, self.width),
            },
            (None, Some(height)) => Size {
                width: scale_length(height, self.width, self.height),
                height,
            },
            (None, None) => Size { width: self.width, height: self.height },
        }
    }
}

/// Explicit sizes are never second-guessed: with both dimensions known the
/// measurement returns them unchanged, whatever the intrinsic aspect ratio.
pub proof fn lemma_image_known_both(img: ImageContext, width: Length, height: Length)
    ensures
        measured_image(img, Size { width: Some(width), height: Some(height) }) == (Size {
            width,
            height,
        }),
{
}

/// With neither dimension known the intrinsic size is returned unchanged.
pub proof fn lemma_image_intrinsic(img: ImageContext)
    ensures
        measured_image(img, Size { width: None, height: None }) == (Size {
            width: img.width,
            height: img.height,
        }),
{
}

/// With only the width known, the measured box preserves the intrinsic
/// aspect ratio up to fixed-point truncation: the measured height is the
/// largest one whose cross product stays below the intrinsic cross product.
/// Holds whenever the scaled height does not saturate.
pub proof fn lemma_image_aspect_from_width(img: ImageContext, width: Length)
    requires
        image_wf(img),
        width.raw * img.height.raw <= u64::MAX * img.width.raw,
    ensures
        ({
            let h = measured_image(img, Size { width: Some(width), height: None }).height;
            &&& h.raw * img.width.raw <= width.raw * img.height.raw
            &&& width.raw * img.height.raw < (h.raw + 1) * img.width.raw
        }),
{
    let x = width.raw as int * img.height.raw as int;
    let d = img.width.raw as int;
    let q = x / d;
    vstd::arithmetic::div_mod::lemma_fundamental_div_mod(x, d);
    vstd::arithmetic::div_mod::lemma_mod_bound(x, d);
    assert(q * d <= x && x < (q + 1) * d && q <= u64::MAX) by (nonlinear_arith)
        requires
            x == d * q + x % d,
            0 <= x % d < d,
            x <= u64::MAX * d,
            d > 0,
    ;
}

/// With only the height known, the measured box preserves the intrinsic
/// aspect ratio up to fixed-point truncation, symmetrically.
pub proof fn lemma_image_aspect_from_height(img: ImageContext, height: Length)
    requires
        image_wf(img),
        height.raw * img.width.raw <= u64::MAX * img.height.raw,
    ensures
        ({
            let w = measured_image(img, Size { width: None, height: Some(height) }).width;
            &&& w.raw * img.height.raw <= height.raw * img.width.raw
            &&& height.raw * img.width.raw < (w.raw + 1) * img.height.raw
        }),
{
    let x = height.raw as int * img.width.raw as int;
    let d = img.height.raw as int;
    let q = x / d;
    vstd::arithmetic::div_mod::lemma_fundamental_div_mod(x, d);
    vstd::arithmetic::div_mod::lemma_mod_bound(x, d);
    assert(q * d <= x && x < (q + 1) * d && q <= u64::MAX) by (nonlinear_arith)
        requires
            x == d * q + x % d,
            0 <= x % d < d,
            x <= u64::MAX * d,
            d > 0,
    ;
}

} // verus!
