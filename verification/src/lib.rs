//! QR code rendering library: geometry planning, colors, gradients, and
//! emitters for raster (PNG), vector (SVG), terminal, and base64 data URIs.

pub mod batch;
pub mod cli;
pub mod codecs;
pub mod compositor;
pub mod decoder;
pub mod error;
pub mod grid;
pub mod generators;
pub mod raster;
pub mod renderer;
pub mod terminal;
pub mod textfmt;
pub mod utils;
pub mod vector;

