//! A 2D chart layout engine.
//!
//! Given a dataset (title, category labels, numeric values, chart kind) and a
//! viewport, the engine computes an ordered plan of drawing primitives
//! (rectangles, polylines, circles, filled polygons, text labels) scaled to
//! the viewport.  All coordinates and values are fixed-point integers in
//! thousandths (milli-pixels and milli-units), so every layout rule is an
//! exact integer computation with a proved contract.

pub mod dataset;
pub mod geom;
pub mod launch;
pub mod laws;
pub mod layout;
pub mod numeral;
pub mod parse;
pub mod scale;
