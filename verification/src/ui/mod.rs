//! Hardware UI model for the two 480×272 displays: the browse state
//! machine and the drawing it asks of a pixel sink.
pub mod font;
pub mod render;
pub mod browse;


pub use browse::{BrowseState, FacetLevel};
pub use render::{DrawOp, PixelSink};
