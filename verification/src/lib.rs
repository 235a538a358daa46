//! Conversion of a raster image into a monospace ASCII-art rendering:
//! a text grid of glyphs approximating per-pixel luminance, plus a raster
//! in which each glyph is drawn in its source pixel's color.

pub mod errors;
pub mod dims;
pub mod frame;
pub mod adjust;
pub mod ascii;
pub mod runs;
pub mod cache;
pub mod raster;
pub mod render;
pub mod preview;
pub mod pipeline;
