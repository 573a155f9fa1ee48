use vstd::prelude::*;
use std::path::PathBuf;

verus! {

/// `std::path::PathBuf`, declared so that the command line can hold the
/// output path; its contents are opaque here.
#[verifier::external_type_specification]
#[verifier::external_body]
pub struct ExPathBuf(PathBuf);

/// wlsnip — A high-performance Wayland screenshot utility
#[derive(Debug)]
pub struct Cli {
    pub command: Option<Command>,
    /// Save screenshot to this file path
    pub output_file: Option<PathBuf>,
    /// Output image format
    pub format: ImageFormat,
    /// Copy screenshot to clipboard natively
    pub clipboard: Option<bool>,
    /// Disable copying to clipboard
    pub no_clipboard: bool,
    /// Write image to stdout instead of file
    pub stdout: bool,
    /// Force a specific capture backend
    pub backend: Option<BackendChoice>,
    /// JPEG quality (1-100)
    pub jpeg_quality: Option<u8>,
    /// Exclude cursor from capture
    pub no_cursor: bool,
    /// Open screenshot in satty for annotation
    pub annotate: bool,
    /// Delay in seconds before capturing
    pub delay: u64,
    /// Send a desktop notification upon successful capture
    pub notify: bool,
    /// Color for the region selector (slurp)
    pub selection_color: Option<String>,
    /// Add a drop shadow to the captured image
    pub shadow: bool,
    /// Add padding around the captured image (in pixels)
    pub padding: Option<u32>,
    /// Upload to image host and copy URL to clipboard
    pub upload: bool,
    /// Pin the captured image as a floating window
    pub pin: bool,
    /// List of app_ids to ignore when capturing active window
    pub ignore_apps: Option<Vec<String>>,
    /// Use slurp instead of the built-in Wayland native region selector
    pub slurp: bool,
    /// Run speed benchmark; with a number, an automated one of N iterations
    pub bench_auto: Option<Option<u32>>,
}

/// What to capture.
#[derive(Debug, Clone)]
pub enum Command {
    /// Capture a selected region
    Region,
    /// Capture the entire screen
    Full,
    /// Capture a specific output by name
    Output { name: String },
    /// Capture a specific window by matching title or app_id
    Window { query: Option<String> },
}

/// Output image format.
#[derive(Debug, Clone, Copy, PartialEq, Eq, Structural)]
pub enum ImageFormat {
    Png,
    Jpeg,
    Webp,
}

/// Capture backend forced on the command line.
#[derive(Debug, Clone, Copy, PartialEq, Eq, Structural)]
pub enum BackendChoice {
    /// ext-image-copy-capture-v1
    Ext,
    /// wlr-screencopy-unstable-v1
    Wlr,
    /// XDG Desktop Portal
    Portal,
}

} // verus!
