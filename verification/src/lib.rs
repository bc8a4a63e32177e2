//! A hex-dump viewer core: row layout, span segmentation, hit-testing and
//! cursor/selection navigation over a byte buffer.
//!
//! Lengths and coordinates are whole numbers of hundredths of a pixel.

pub mod chunks;
pub mod digest;
pub mod geometry;
pub mod hit;
pub mod layout;
pub mod render;
pub mod scene;
pub mod span;
pub mod state;
pub mod style;
pub mod text;
pub mod util;
pub mod view;
