//! Drawing primitives that rasterize shapes onto a [`Canvas`]: spans,
//! Bresenham lines, rectangles, polygons and triangle fills.
//!
//! [`Canvas`]: crate::canvas::Canvas

pub mod line_utils;
pub mod lines;
pub mod rect;
pub mod shape;
pub mod shape_utils;
