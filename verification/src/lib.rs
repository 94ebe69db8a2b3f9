//! Render raster images as grids of Unicode glyphs with 24-bit ANSI color.
//!
//! The pipeline partitions a resized bitmap into fixed-size pixel cells,
//! chooses which sub-cells of each cell are on, computes a foreground and a
//! background color for the cell's glyph, and propagates quantization error
//! to later cells so that the output's average brightness tracks the image.
//! All color math runs on exact fixed-point integers (65536 = 1.0 in linear
//! light), so every step carries a proved contract.

pub mod ansi;
pub mod cell;
pub mod color;
pub mod diffusion;
pub mod fixed;
pub mod frame;
pub mod glyph;
pub mod oklab;
