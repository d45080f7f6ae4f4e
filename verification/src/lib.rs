//! A software rasterizer: a fixed-size buffer of packed 32-bit ARGB pixels
//! together with clipped drawing primitives (spans, Bresenham lines,
//! rectangles, scanline polygon and triangle fills, and UV-textured triangle
//! fills).  Every drawing operation carries a contract that states exactly
//! which pixels it writes.

pub mod canvas;
pub mod drawing;
pub mod raster_math;
pub mod types;
