//! The decisions of the capture pipeline: which settings apply, which
//! backends to try and in what order, what to capture, and where the encoded
//! image goes.

use vstd::prelude::*;
use crate::cli::{BackendChoice, Cli, Command, ImageFormat};
use crate::config::Config;
use crate::error::WlsnipError;
use crate::backends::window_capture::window_backend_name;
use crate::utils::geometry::Region;
use crate::utils::text;
use crate::utils::text::{clone_opt_text, clone_opt_texts, text_eq, u64_to_decimal};

verus! {

/// The settings in force: the command line wins over the configuration file,
/// which wins over the built-in defaults.
#[derive(Debug)]
pub struct Settings {
    pub padding: u32,
    pub shadow: bool,
    pub selection_color: Option<String>,
    pub ignore_apps: Option<Vec<String>>,
    pub clipboard: bool,
    pub no_cursor: bool,
    pub jpeg_quality: u8,
}

pub open spec fn upload_refused_message() -> Seq<char> {
    "Upload is not enabled in ~/.config/wlsnip/config.toml (set allow_upload = true)"@
}

/// Merge the command line with the configuration file. Uploading is refused
/// unless the configuration allows it. Padding defaults to 0, JPEG quality to
/// 90; the clipboard is used unless `--no-clipboard` is given or it is
/// switched off (by the command line first, else by the configuration).
pub fn resolve_settings(cli: &Cli, config: &Config) -> (res: Result<Settings, WlsnipError>)
    ensures
        (cli.upload && !config.allow_upload) ==> (res matches Err(e) && exists|m: String|
            e == WlsnipError::Capture(m) && m@ == upload_refused_message()),
        !(cli.upload && !config.allow_upload) ==> (res matches Ok(s) && {
            &&& s.padding == (if cli.padding is Some { cli.padding->0 } else if config.padding is Some { config.padding->0 } else { 0 })
            &&& s.shadow == (cli.shadow || config.shadow == Some(true))
            &&& text::opt_text(s.selection_color) == (if cli.selection_color is Some { text::opt_text(cli.selection_color) } else { text::opt_text(config.selection_color) })
            &&& text::opt_texts(s.ignore_apps) == (if cli.ignore_apps is Some { text::opt_texts(cli.ignore_apps) } else { text::opt_texts(config.ignore_apps) })
            &&& s.clipboard == (!cli.no_clipboard && (if cli.clipboard is Some { cli.clipboard->0 } else if config.clipboard is Some { config.clipboard->0 } else { true }))
            &&& s.no_cursor == (cli.no_cursor || config.no_cursor == Some(true))
            &&& s.jpeg_quality == (if cli.jpeg_quality is Some { cli.jpeg_quality->0 } else if config.jpeg_quality is Some { config.jpeg_quality->0 } else { 90 })
        }),
{
    if cli.upload && !config.allow_upload {
        return Err(WlsnipError::Capture(String::from_str(
            "Upload is not enabled in ~/.config/wlsnip/config.toml (set allow_upload = true)",
        )));
    }
    let padding = match cli.padding {
        Some(p) => p,
        None => match config.padding {
            Some(p) => p,
            None => 0,
        },
    };
    let shadow = cli.shadow || match config.shadow {
        Some(b) => b,
        None => false,
    };
    let selection_color = if cli.selection_color.is_some() {
        clone_opt_text(&cli.selection_color)
    } else {
        clone_opt_text(&config.selection_color)
    };
    let ignore_apps = if cli.ignore_apps.is_some() {
        clone_opt_texts(&cli.ignore_apps)
    } else {
        clone_opt_texts(&config.ignore_apps)
    };
    let clipboard = !cli.no_clipboard && match cli.clipboard {
        Some(b) => b,
        None => match config.clipboard {
            Some(b) => b,
            None => true,
        },
    };
    let no_cursor = cli.no_cursor || match config.no_cursor {
        Some(b) => b,
        None => false,
    };
    let jpeg_quality = match cli.jpeg_quality {
        Some(q) => q,
        None => match config.jpeg_quality {
            Some(q) => q,
            None => 90,
        },
    };
    Ok(Settings { padding, shadow, selection_color, ignore_apps, clipboard, no_cursor, jpeg_quality })
}

// ── Backend selection ──────────────────────────────────────────────────────

/// The capture backends, by protocol.
#[derive(Debug, Clone, Copy, PartialEq, Eq, Structural)]
pub enum BackendKind {
    /// ext-image-copy-capture of a single toplevel window
    Window,
    /// wlr-screencopy-unstable-v1
    Wlr,
    /// ext-image-copy-capture-v1
    Ext,
    /// XDG Desktop Portal
    Portal,
}

/// The order in which backends are probed; the first one available is used,
/// and when none is, no backend is available. A window command tries the
/// window backend first; a forced backend is the only other candidate;
/// otherwise wlr-screencopy, then ext-image-copy-capture, then the portal.
pub open spec fn probe_order(command: Option<Command>, choice: Option<BackendChoice>) -> Seq<BackendKind> {
    let first = if command matches Some(Command::Window { .. }) { seq![BackendKind::Window] } else { Seq::empty() };
    let rest = match choice {
        Some(BackendChoice::Wlr) => seq![BackendKind::Wlr],
        Some(BackendChoice::Ext) => seq![BackendKind::Ext],
        Some(BackendChoice::Portal) => seq![BackendKind::Portal],
        None => seq![BackendKind::Wlr, BackendKind::Ext, BackendKind::Portal],
    };
    first + rest
}

/// The name each backend reports.
pub open spec fn backend_kind_name(kind: BackendKind) -> Seq<char> {
    match kind {
        BackendKind::Window => window_backend_name(),
        BackendKind::Wlr => "wlr-screencopy-unstable-v1"@,
        BackendKind::Ext => "ext-image-copy-capture-v1"@,
        BackendKind::Portal => portal_backend_name(),
    }
}

/// The human-readable name of a backend.
pub fn backend_name(kind: BackendKind) -> (n: &'static str)
    ensures
        n@ == backend_kind_name(kind),
{
    match kind {
        BackendKind::Window => "ext-window-capture",
        BackendKind::Wlr => "wlr-screencopy-unstable-v1",
        BackendKind::Ext => "ext-image-copy-capture-v1",
        BackendKind::Portal => "xdg-desktop-portal",
    }
}

/// Forcing a backend probes that backend and no other (after the native
/// window backend for a window command): `--backend wlr` probes
/// wlr-screencopy, `--backend ext` ext-image-copy-capture, `--backend portal`
/// the portal. Without a forced backend they are tried in that order.
pub proof fn forced_backend_is_the_one_probed(command: Option<Command>, choice: Option<BackendChoice>)
    ensures
        ({
            let order = probe_order(command, choice);
            let skip: int = if command matches Some(Command::Window { .. }) { 1 } else { 0 };
            &&& skip == 1 ==> order[0] == BackendKind::Window
            &&& match choice {
                Some(BackendChoice::Wlr) => order.len() == skip + 1 && order[skip] == BackendKind::Wlr
                    && backend_kind_name(order[skip]) == "wlr-screencopy-unstable-v1"@,
                Some(BackendChoice::Ext) => order.len() == skip + 1 && order[skip] == BackendKind::Ext
                    && backend_kind_name(order[skip]) == "ext-image-copy-capture-v1"@,
                Some(BackendChoice::Portal) => order.len() == skip + 1 && order[skip] == BackendKind::Portal
                    && backend_kind_name(order[skip]) == "xdg-desktop-portal"@,
                None => order.len() == skip + 3 && order[skip] == BackendKind::Wlr
                    && order[skip + 1] == BackendKind::Ext && order[skip + 2] == BackendKind::Portal,
            }
        }),
{
}

/// The backends to probe, in order, for the given command line.
pub fn backend_probe_order(cli: &Cli) -> (order: Vec<BackendKind>)
    ensures
        order@ == probe_order(cli.command, cli.backend),
{
    let mut order: Vec<BackendKind> = Vec::new();
    match &cli.command {
        Some(Command::Window { .. }) => order.push(BackendKind::Window),
        _ => {},
    }
    match cli.backend {
        Some(BackendChoice::Wlr) => order.push(BackendKind::Wlr),
        Some(BackendChoice::Ext) => order.push(BackendKind::Ext),
        Some(BackendChoice::Portal) => order.push(BackendKind::Portal),
        None => {
            order.push(BackendKind::Wlr);
            order.push(BackendKind::Ext);
            order.push(BackendKind::Portal);
        },
    }
    assert(order@ =~= probe_order(cli.command, cli.backend));
    order
}

/// Probe the backends in order and use the first one that is available:
/// `probe` gives the backend of a kind when it is available. Probing stops
/// at the first backend found; when none is, no backend is available.
pub fn select_backend<B, F: Fn(BackendKind) -> Option<B>>(cli: &Cli, probe: F) -> (res: Result<B, WlsnipError>)
    requires
        forall|k: BackendKind| probe.requires((k,)),
    ensures
        ({
            let order = probe_order(cli.command, cli.backend);
            match res {
                Ok(b) => exists|i: int| {
                    &&& 0 <= i < order.len()
                    &&& probe.ensures((order[i],), Some(b))
                    &&& forall|j: int| 0 <= j < i ==> probe.ensures((#[trigger] order[j],), None::<B>)
                },
                Err(e) => e is NoBackendAvailable && forall|j: int| 0 <= j < order.len()
                    ==> probe.ensures((#[trigger] order[j],), None::<B>),
            }
        }),
{
    let order = backend_probe_order(cli);
    let ghost spec_order = probe_order(cli.command, cli.backend);
    let mut i: usize = 0;
    while i < order.len()
        invariant
            i <= order@.len(),
            order@ == spec_order,
            spec_order == probe_order(cli.command, cli.backend),
            forall|k: BackendKind| probe.requires((k,)),
            forall|j: int| 0 <= j < i ==> probe.ensures((#[trigger] spec_order[j],), None::<B>),
        decreases order.len() - i,
    {
        match probe(order[i]) {
            Some(b) => {
                assert(probe.ensures((spec_order[i as int],), Some(b)));
                return Ok(b);
            },
            None => {},
        }
        i += 1;
    }
    Err(WlsnipError::NoBackendAvailable)
}

// ── Capture parameters ─────────────────────────────────────────────────────

/// What to ask the backend for.
#[derive(Debug)]
pub enum CaptureParams {
    /// Capture this output (or the default one) and this region (or all of it).
    Ready { output_name: Option<String>, region: Option<Region> },
    /// Find the window's region through the compositor's IPC first.
    ResolveWindow { query: Option<String> },
}

/// The command and the backend decide what to capture: a full capture and a
/// region selection take the whole default output (the region is chosen on
/// the frozen frame afterwards), an output command names the output, and a
/// window command leaves the query to the native window backend or, with
/// another backend, asks for the window's region from IPC.
pub fn resolve_capture_params(command: &Command, backend_name: &str) -> (p: CaptureParams)
    ensures
        match *command {
            Command::Full | Command::Region => p matches CaptureParams::Ready { output_name: None, region: None },
            Command::Output { name } => p matches CaptureParams::Ready { output_name: Some(n), region: None } && n@ == name@,
            Command::Window { query } => if backend_name@ == window_backend_name() {
                p matches CaptureParams::Ready { output_name: None, region: None }
            } else {
                p matches CaptureParams::ResolveWindow { query: q } && text::opt_text(q) == text::opt_text(query)
            },
        },
{
    match command {
        Command::Full => CaptureParams::Ready { output_name: None, region: None },
        Command::Output { name } => CaptureParams::Ready { output_name: Some(name.clone()), region: None },
        Command::Window { query } => {
            if text_eq(backend_name, "ext-window-capture") {
                CaptureParams::Ready { output_name: None, region: None }
            } else {
                CaptureParams::ResolveWindow { query: clone_opt_text(query) }
            }
        },
        Command::Region => CaptureParams::Ready { output_name: None, region: None },
    }
}

/// `wlsnip output all` captures every workspace and stitches them.
pub fn captures_all_workspaces(command: &Command) -> (all: bool)
    ensures
        all == (command matches Command::Output { name } && name@ == "all"@),
{
    match command {
        Command::Output { name } => text_eq(name.as_str(), "all"),
        _ => false,
    }
}

/// Name of the portal backend, which lets the user pick the region itself.
pub open spec fn portal_backend_name() -> Seq<char> {
    "xdg-desktop-portal"@
}

/// A region capture shows the frozen frame for selection, except through the
/// portal, whose own dialog already selected the region.
pub fn uses_freeze_overlay(command: &Command, backend_name: &str) -> (freeze: bool)
    ensures
        freeze == (command matches Command::Region && backend_name@ != portal_backend_name()),
{
    match command {
        Command::Region => !text_eq(backend_name, "xdg-desktop-portal"),
        _ => false,
    }
}

// ── Output destinations ────────────────────────────────────────────────────

/// Where the encoded image goes.
#[derive(Debug, Clone, Copy, PartialEq, Eq, Structural)]
pub struct OutputPlan {
    /// Write to the `--output-file` path.
    pub write_file: bool,
    /// Write to standard output.
    pub write_stdout: bool,
    /// Upload to the image host (and copy its link).
    pub upload: bool,
    /// Copy the image to the clipboard.
    pub copy_to_clipboard: bool,
    /// Open the image in the annotation tool.
    pub annotate: bool,
    /// Save to the default timestamped file.
    pub write_default_file: bool,
    /// Show a desktop notification.
    pub notify: bool,
}

/// The destinations of the encoded image: the given file, standard output,
/// an upload or else the clipboard, the annotation tool, and, when neither a
/// file, standard output nor an upload is asked for, the default file.
pub fn plan_outputs(cli: &Cli, settings: &Settings) -> (plan: OutputPlan)
    ensures
        plan.write_file == cli.output_file is Some,
        plan.write_stdout == cli.stdout,
        plan.upload == cli.upload,
        plan.copy_to_clipboard == (!cli.upload && settings.clipboard),
        plan.annotate == cli.annotate,
        plan.write_default_file == (cli.output_file is None && !cli.stdout && !cli.upload),
        plan.notify == cli.notify,
{
    OutputPlan {
        write_file: cli.output_file.is_some(),
        write_stdout: cli.stdout,
        upload: cli.upload,
        copy_to_clipboard: !cli.upload && settings.clipboard,
        annotate: cli.annotate,
        write_default_file: cli.output_file.is_none() && !cli.stdout && !cli.upload,
        notify: cli.notify,
    }
}

/// `--bench-auto [N]` runs the capture pipeline N times (10 by default)
/// instead of taking a screenshot.
pub fn benchmark_iterations(cli: &Cli) -> (count: Option<u32>)
    ensures
        count == match cli.bench_auto {
            Some(Some(n)) => Some(n),
            Some(None) => Some(10u32),
            None => None::<u32>,
        },
{
    match cli.bench_auto {
        Some(Some(n)) => Some(n),
        Some(None) => Some(10),
        None => None,
    }
}

/// The link of an uploaded image, taken from the image host's answer: an
/// answer without one means the upload failed.
pub fn upload_link(link: Option<String>) -> (res: Result<String, WlsnipError>)
    ensures
        match link {
            Some(l) => res == Ok::<String, WlsnipError>(l),
            None => res matches Err(e) && exists|m: String| e == WlsnipError::Capture(m)
                && m@ == "Upload failed: No link in response"@,
        },
{
    match link {
        Some(l) => Ok(l),
        None => Err(WlsnipError::Capture(String::from_str("Upload failed: No link in response"))),
    }
}

/// MIME type announced on the clipboard for each format.
pub fn mime_type(format: ImageFormat) -> (m: &'static str)
    ensures
        m@ == match format {
            ImageFormat::Png => "image/png"@,
            ImageFormat::Jpeg => "image/jpeg"@,
            ImageFormat::Webp => "image/webp"@,
        },
{
    match format {
        ImageFormat::Png => "image/png",
        ImageFormat::Jpeg => "image/jpeg",
        ImageFormat::Webp => "image/webp",
    }
}

/// File extension for each format.
pub open spec fn extension_of(format: ImageFormat) -> Seq<char> {
    match format {
        ImageFormat::Png => "png"@,
        ImageFormat::Jpeg => "jpg"@,
        ImageFormat::Webp => "webp"@,
    }
}

pub fn file_extension(format: ImageFormat) -> (e: &'static str)
    ensures
        e@ == extension_of(format),
{
    match format {
        ImageFormat::Png => "png",
        ImageFormat::Jpeg => "jpg",
        ImageFormat::Webp => "webp",
    }
}

/// Name of the default output file: "wlsnip-<unix seconds>.<extension>".
pub fn default_file_name(now: u64, format: ImageFormat) -> (name: String)
    ensures
        name@ == "wlsnip-"@ + text::decimal(now as nat) + "."@ + extension_of(format),
{
    let mut name = String::from_str("wlsnip-");
    name.append(u64_to_decimal(now).as_str());
    name.append(".");
    name.append(file_extension(format));
    name
}

} // verus!
