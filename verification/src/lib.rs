//! Bridge between a continuous flexible-layout engine and a discrete
//! character-cell terminal surface.
//!
//! The crate has two halves:
//!
//! * a geometry adapter that turns the terminal's drawing rectangle into the
//!   engine's notion of available space, and turns the engine's computed
//!   boxes back into integer cell rectangles;
//! * a measurement subsystem that estimates the intrinsic size of leaf
//!   content (word-wrapped text and aspect-ratio-preserving images) when the
//!   engine asks for it.
//!
//! Engine-side lengths are continuous; here they are carried as fixed-point
//! values with [`geometry::SCALE`] subunits per terminal cell, so that every
//! conversion and every measurement rule is stated and checked exactly.

pub mod geometry;
pub mod image;
pub mod measure;
pub mod text;

pub use geometry::AvailableSpace;
pub use geometry::Coord;
pub use geometry::LayoutBox;
pub use geometry::Length;
pub use geometry::Point;
pub use geometry::Rect;
pub use geometry::Size;
pub use geometry::to_available_space;
pub use geometry::to_rect;
pub use image::ImageContext;
pub use measure::NodeContext;
pub use measure::measure_function;
pub use text::TextContext;
