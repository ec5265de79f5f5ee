//! Routing of the layout engine's measurement callback.
//!
//! The engine calls once per unsized leaf, possibly several times per pass
//! with different constraint combinations. When both dimensions are already
//! known the call short-circuits and returns them without consulting the
//! content, so explicit sizes are never second-guessed; otherwise the leaf's
//! content tag picks the text or image measurer, and a leaf with no content
//! measures to `{0, 0}`.

use vstd::prelude::*;

use crate::geometry::AvailableSpace;
use crate::geometry::Length;
use crate::geometry::Size;
use crate::image::ImageContext;
use crate::image::image_wf;
use crate::image::measured_image;
use crate::text::TextContext;
use crate::text::measured_text;

verus! {

/// The measurable content of a leaf node, fixed for the node's lifetime.
#[derive(Debug, Clone, PartialEq, Eq)]
pub enum NodeContext {
    /// A word-wrapped text block.
    Text(TextContext),
    /// A fixed-aspect content block.
    Image(ImageContext),
}

/// Well-formed leaf content: image content must carry positive intrinsic
/// dimensions, which its constructor guarantees.
pub open spec fn node_wf(node_context: Option<&NodeContext>) -> bool {
    match node_context {
        Some(NodeContext::Image(img)) => image_wf(*img),
        _ => true,
    }
}

/// The size a leaf measures to: known dimensions win outright when both are
/// present; otherwise the content's measurer decides, and no content means
/// `{0, 0}`.
pub open spec fn measured_node(
    known_dimensions: Size<Option<Length>>,
    available_space: Size<AvailableSpace>,
    node_context: Option<&NodeContext>,
) -> Size<Length> {
    match (known_dimensions.width, known_dimensions.height) {
        (Some(width), Some(height)) => Size { width, height },
        _ => match node_context {
            None => Size { width: Length { raw: 0 }, height: Length { raw: 0 } },
            Some(NodeContext::Text(t)) => measured_text(
                *t,
                known_dimensions,
                available_space,
            ),
            Some(NodeContext::Image(img)) => measured_image(*img, known_dimensions),
        },
    }
}

/// The measurement callback the layout engine drives: short-circuit on fully
/// known dimensions, else dispatch on the leaf's content tag.
pub fn measure_function(
    known_dimensions: Size<Option<Length>>,
    available_space: Size<AvailableSpace>,
    node_context: Option<&NodeContext>,
) -> (r: Size<Length>)
    requires
        node_wf(node_context),
    ensures
        r == measured_node(known_dimensions, available_space, node_context),
{
    if let (Some(width), Some(height)) = (known_dimensions.width, known_dimensions.height) {
        return Size { width, height };
    }
    match node_context {
        None => Size { width: Length { raw: 0 }, height: Length { raw: 0 } },
        Some(NodeContext::Text(t)) => t.measure(known_dimensions, available_space),
        Some(NodeContext::Image(img)) => img.measure(known_dimensions),
    }
}

} // verus!
