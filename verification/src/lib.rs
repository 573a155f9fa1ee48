//! Verified core of a Wayland screenshot utility: pixel buffers, pixel-format
//! conversion, cropping, padding and shadow effects, multi-buffer stitching,
//! the selection overlay renderer, region/geometry parsing, window matching
//! and the decisions of the capture pipeline.

pub mod app;
pub mod backends;
pub mod buffers;
pub mod cli;
pub mod config;
pub mod encoders;
pub mod error;
pub mod utils;
