//! Text-decoration rectangles for a terminal renderer.
//!
//! Cells carrying decoration flags are merged into line segments, each segment is
//! compiled into pixel rectangles from the font metrics, and the rectangles of a
//! frame are batched by kind into vertex lists drawn back to front.

pub mod cell;
pub mod geometry;
pub mod kind;
pub mod lines;
pub mod metrics;
pub mod renderer;
pub mod shader;
