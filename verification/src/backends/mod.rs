pub mod wlr_screencopy;
pub mod xdg_portal;
pub mod window_capture;

use vstd::prelude::*;
use crate::buffers::{CaptureBuffer, PixelFormat};
use crate::error::WlsnipError;
use crate::utils::geometry::Region;
use crate::utils::text::text_eq;

verus! {

/// Trait implemented by each capture backend.
pub trait CaptureBackend {
    /// Human-readable name of this backend.
    fn name(&self) -> &'static str;

    /// Capture a full output, optionally cropped to a region.
    fn capture_output(
        &mut self,
        output_name: Option<&str>,
        region: Option<&Region>,
        include_cursor: bool,
    ) -> Result<CaptureBuffer, WlsnipError>;

    /// Capture all outputs and stitch them together (multi-output/workspace).
    /// By default this captures the first output only: the result is one
    /// that `capture_output` gives, from the backend as it was, for no output
    /// name, no region and the same cursor choice, and the backend ends as
    /// that call leaves it.
    fn capture_all_outputs(&mut self, include_cursor: bool) -> (res: Result<CaptureBuffer, WlsnipError>)
        default_ensures
            exists|r: &mut Self| &*r == &*old(self) && &*final(r) == &*final(self)
                && call_ensures(Self::capture_output, (r, None::<&str>, None::<&Region>, include_cursor), res),
    {
        let capture = Self::capture_output;
        capture(self, None, None, include_cursor)
    }
}

/// `wl_shm` format code of ARGB8888.
pub const SHM_ARGB8888: u32 = 0;
/// `wl_shm` format code of XRGB8888.
pub const SHM_XRGB8888: u32 = 1;
/// `wl_shm` format code of ABGR8888 (DRM fourcc "AB24").
pub const SHM_ABGR8888: u32 = 0x34324241;
/// `wl_shm` format code of XBGR8888 (DRM fourcc "XB24").
pub const SHM_XBGR8888: u32 = 0x34324258;

/// The pixel format that a `wl_shm` format code announced by the compositor
/// stands for; any other format is read as XRGB8888.
pub open spec fn pixel_format_of_shm(code: u32) -> PixelFormat {
    if code == SHM_ARGB8888 {
        PixelFormat::Argb8888
    } else if code == SHM_ABGR8888 {
        PixelFormat::Abgr8888
    } else if code == SHM_XBGR8888 {
        PixelFormat::Xbgr8888
    } else {
        PixelFormat::Xrgb8888
    }
}

/// The `wl_shm` format code of a pixel format.
pub open spec fn shm_of_pixel_format(format: PixelFormat) -> u32 {
    match format {
        PixelFormat::Argb8888 => SHM_ARGB8888,
        PixelFormat::Xrgb8888 => SHM_XRGB8888,
        PixelFormat::Abgr8888 => SHM_ABGR8888,
        PixelFormat::Xbgr8888 => SHM_XBGR8888,
    }
}

/// Map the `wl_shm` format a compositor asked for to our `PixelFormat`.
pub fn shm_format_to_pixel_format(code: u32) -> (format: PixelFormat)
    ensures
        format == pixel_format_of_shm(code),
{
    if code == SHM_ARGB8888 {
        PixelFormat::Argb8888
    } else if code == SHM_ABGR8888 {
        PixelFormat::Abgr8888
    } else if code == SHM_XBGR8888 {
        PixelFormat::Xbgr8888
    } else {
        PixelFormat::Xrgb8888
    }
}

/// The `wl_shm` format to announce for a buffer of the given pixel format.
pub fn pixel_format_to_shm_format(format: PixelFormat) -> (code: u32)
    ensures
        code == shm_of_pixel_format(format),
{
    match format {
        PixelFormat::Argb8888 => SHM_ARGB8888,
        PixelFormat::Xrgb8888 => SHM_XRGB8888,
        PixelFormat::Abgr8888 => SHM_ABGR8888,
        PixelFormat::Xbgr8888 => SHM_XBGR8888,
    }
}

/// The format codes are those of the `wl_shm` protocol: 0 is ARGB8888, 1 is
/// XRGB8888, and ABGR8888 and XBGR8888 are the DRM fourcc codes "AB24" and
/// "XB24" (little-endian).
pub proof fn shm_codes_are_the_wayland_ones()
    ensures
        pixel_format_of_shm(0) == PixelFormat::Argb8888,
        pixel_format_of_shm(1) == PixelFormat::Xrgb8888,
        pixel_format_of_shm(0x34324241) == PixelFormat::Abgr8888,
        pixel_format_of_shm(0x34324258) == PixelFormat::Xbgr8888,
        shm_of_pixel_format(PixelFormat::Argb8888) == 0,
        shm_of_pixel_format(PixelFormat::Xrgb8888) == 1,
        shm_of_pixel_format(PixelFormat::Abgr8888) == 0x34324241,
        shm_of_pixel_format(PixelFormat::Xbgr8888) == 0x34324258,
{
}

/// Announcing a buffer's format to the compositor and reading it back gives
/// the same pixel format.
pub proof fn shm_format_round_trip(format: PixelFormat)
    ensures
        pixel_format_of_shm(shm_of_pixel_format(format)) == format,
{
}


// ── Output lookup ──────────────────────────────────────────────────────────

/// Pick the output to capture: the first output named `wanted`, or the first
/// output when no name is given. A missing name is `OutputNotFound(name)`; no
/// output at all is `Capture("no outputs found")`.
pub fn find_output(names: &Vec<String>, wanted: Option<&str>) -> (res: Result<usize, WlsnipError>)
    ensures
        match wanted {
            Some(w) => match res {
                Ok(i) => i < names@.len() && names@[i as int]@ == w@ && forall|j: int| 0 <= j < i ==> names@[j]@ != w@,
                Err(e) => (forall|j: int| 0 <= j < names@.len() ==> names@[j]@ != w@) && exists|m: String|
                    e == WlsnipError::OutputNotFound(m) && m@ == w@,
            },
            None => match res {
                Ok(i) => i == 0 && names@.len() > 0,
                Err(e) => names@.len() == 0 && exists|m: String| e == WlsnipError::Capture(m) && m@ == "no outputs found"@,
            },
        },
{
    match wanted {
        Some(w) => {
            let mut i: usize = 0;
            while i < names.len()
                invariant
                    i <= names@.len(),
                    wanted == Some(w),
                    forall|j: int| 0 <= j < i ==> names@[j]@ != w@,
                decreases names.len() - i,
            {
                if text_eq(names[i].as_str(), w) {
                    return Ok(i);
                }
                i += 1;
            }
            Err(WlsnipError::OutputNotFound(String::from_str(w)))
        },
        None => {
            if names.len() > 0 {
                Ok(0)
            } else {
                Err(WlsnipError::Capture(String::from_str("no outputs found")))
            }
        },
    }
}

// ── Capture session negotiation ────────────────────────────────────────────

/// An event of an ext-image-copy-capture session.
#[derive(Debug, Clone, Copy, PartialEq, Eq, Structural)]
pub enum SessionEvent {
    /// The buffer size the compositor requires.
    BufferSize { width: u32, height: u32 },
    /// One of the shared-memory formats the compositor supports.
    ShmFormat { code: u32 },
    /// All constraints have been sent.
    Done,
    /// The session ended.
    Stopped,
}

/// Constraints advertised by the compositor for a capture session.
#[derive(Debug, Clone, Copy, PartialEq, Eq, Structural)]
pub struct SessionConstraints {
    pub width: Option<u32>,
    pub height: Option<u32>,
    /// The first advertised format wins.
    pub shm_format: Option<u32>,
    pub done: bool,
    pub stopped: bool,
}

impl SessionConstraints {
    pub fn new() -> (c: Self)
        ensures
            c == (SessionConstraints { width: None, height: None, shm_format: None, done: false, stopped: false }),
    {
        SessionConstraints { width: None, height: None, shm_format: None, done: false, stopped: false }
    }

    /// Record a session event: the latest buffer size, the first format.
    pub fn apply(&mut self, event: SessionEvent)
        ensures
            match event {
                SessionEvent::BufferSize { width, height } => *final(self) == SessionConstraints { width: Some(width), height: Some(height), ..*old(self) },
                SessionEvent::ShmFormat { code } => *final(self) == (if old(self).shm_format is None {
                    SessionConstraints { shm_format: Some(code), ..*old(self) }
                } else {
                    *old(self)
                }),
                SessionEvent::Done => *final(self) == SessionConstraints { done: true, ..*old(self) },
                SessionEvent::Stopped => *final(self) == SessionConstraints { stopped: true, ..*old(self) },
            },
    {
        match event {
            SessionEvent::BufferSize { width, height } => {
                self.width = Some(width);
                self.height = Some(height);
            },
            SessionEvent::ShmFormat { code } => {
                if self.shm_format.is_none() {
                    self.shm_format = Some(code);
                }
            },
            SessionEvent::Done => {
                self.done = true;
            },
            SessionEvent::Stopped => {
                self.stopped = true;
            },
        }
    }
}

/// What to do after a roundtrip of the session negotiation.
#[derive(Debug, Clone, Copy, PartialEq, Eq, Structural)]
pub enum SessionStep {
    /// Keep waiting for the constraints.
    Wait,
    /// The session stopped: the capture fails.
    Stopped,
    /// The constraints are complete: allocate a `width` x `height` buffer in this format.
    Allocate { width: u32, height: u32, shm_format: u32 },
    /// The constraints are final but lack the buffer size.
    MissingSize,
    /// The constraints are final but name no shared-memory format.
    MissingFormat,
}

/// Decide the next step of the negotiation: a stopped session fails, an
/// unfinished one waits, a finished one needs a size and a format.
pub fn session_step(c: &SessionConstraints) -> (step: SessionStep)
    ensures
        step == (if c.stopped {
            SessionStep::Stopped
        } else if !c.done {
            SessionStep::Wait
        } else if c.width is None || c.height is None {
            SessionStep::MissingSize
        } else if c.shm_format is None {
            SessionStep::MissingFormat
        } else {
            SessionStep::Allocate { width: c.width->0, height: c.height->0, shm_format: c.shm_format->0 }
        }),
{
    if c.stopped {
        return SessionStep::Stopped;
    }
    if !c.done {
        return SessionStep::Wait;
    }
    match (c.width, c.height) {
        (Some(w), Some(h)) => match c.shm_format {
            Some(f) => SessionStep::Allocate { width: w, height: h, shm_format: f },
            None => SessionStep::MissingFormat,
        },
        _ => SessionStep::MissingSize,
    }
}

// ── Frame copy ─────────────────────────────────────────────────────────────

/// An event of a screencopy or image-copy frame.
#[derive(Debug, Clone, Copy, PartialEq, Eq, Structural)]
pub enum FrameEvent {
    /// The buffer the compositor wants (wlr-screencopy).
    Buffer { shm_format: u32, width: u32, height: u32, stride: u32 },
    /// The pixels have been copied.
    Ready,
    /// The copy failed.
    Failed,
}

/// State of a frame copy.
#[derive(Debug, Clone, Copy, PartialEq, Eq, Structural)]
pub struct FrameState {
    pub shm_format: Option<u32>,
    pub width: Option<u32>,
    pub height: Option<u32>,
    pub stride: Option<u32>,
    pub ready: bool,
    pub failed: bool,
}

impl FrameState {
    pub fn new() -> (s: Self)
        ensures
            s == (FrameState { shm_format: None, width: None, height: None, stride: None, ready: false, failed: false }),
    {
        FrameState { shm_format: None, width: None, height: None, stride: None, ready: false, failed: false }
    }

    /// Record a frame event.
    pub fn apply(&mut self, event: FrameEvent)
        ensures
            match event {
                FrameEvent::Buffer { shm_format, width, height, stride } => *final(self) == FrameState {
                    shm_format: Some(shm_format), width: Some(width), height: Some(height), stride: Some(stride), ..*old(self)
                },
                FrameEvent::Ready => *final(self) == FrameState { ready: true, ..*old(self) },
                FrameEvent::Failed => *final(self) == FrameState { failed: true, ..*old(self) },
            },
    {
        match event {
            FrameEvent::Buffer { shm_format, width, height, stride } => {
                self.shm_format = Some(shm_format);
                self.width = Some(width);
                self.height = Some(height);
                self.stride = Some(stride);
            },
            FrameEvent::Ready => {
                self.ready = true;
            },
            FrameEvent::Failed => {
                self.failed = true;
            },
        }
    }
}

/// The buffer a wlr-screencopy frame asks for, once its constraints arrived:
/// `Err(None)` when the compositor rejected the capture, `Err(Some(field))`
/// when it did not send the buffer's format (0), width (1), height (2) or
/// stride (3), else the format, width, height and stride.
pub fn frame_buffer_request(s: &FrameState) -> (res: Result<(u32, u32, u32, u32), Option<u8>>)
    ensures
        s.failed ==> res == Err::<(u32, u32, u32, u32), Option<u8>>(None),
        !s.failed && s.shm_format is None ==> res == Err::<(u32, u32, u32, u32), Option<u8>>(Some(0u8)),
        !s.failed && s.shm_format is Some && s.width is None ==> res == Err::<(u32, u32, u32, u32), Option<u8>>(Some(1u8)),
        !s.failed && s.shm_format is Some && s.width is Some && s.height is None ==> res == Err::<(u32, u32, u32, u32), Option<u8>>(Some(2u8)),
        !s.failed && s.shm_format is Some && s.width is Some && s.height is Some && s.stride is None ==> res == Err::<(u32, u32, u32, u32), Option<u8>>(Some(3u8)),
        !s.failed && s.shm_format is Some && s.width is Some && s.height is Some && s.stride is Some ==>
            res == Ok::<(u32, u32, u32, u32), Option<u8>>((s.shm_format->0, s.width->0, s.height->0, s.stride->0)),
{
    if s.failed {
        return Err(None);
    }
    match s.shm_format {
        None => Err(Some(0)),
        Some(f) => match s.width {
            None => Err(Some(1)),
            Some(w) => match s.height {
                None => Err(Some(2)),
                Some(h) => match s.stride {
                    None => Err(Some(3)),
                    Some(st) => Ok((f, w, h, st)),
                },
            },
        },
    }
}

/// What to do after a roundtrip while waiting for the copy.
#[derive(Debug, Clone, Copy, PartialEq, Eq, Structural)]
pub enum CopyStep {
    Wait,
    Ready,
    Failed,
}

/// Readiness wins over failure when both were reported in one roundtrip.
pub fn copy_step(s: &FrameState) -> (step: CopyStep)
    ensures
        step == (if s.ready { CopyStep::Ready } else if s.failed { CopyStep::Failed } else { CopyStep::Wait }),
{
    if s.ready {
        CopyStep::Ready
    } else if s.failed {
        CopyStep::Failed
    } else {
        CopyStep::Wait
    }
}

} // verus!
