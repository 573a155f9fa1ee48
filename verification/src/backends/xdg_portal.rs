//! The XDG Desktop Portal backend: the Screenshot interface over D-Bus,
//! which works on GNOME, KDE and any compositor that implements
//! org.freedesktop.portal.Screenshot. The portal saves the image to a file
//! and answers with its URI.

use vstd::prelude::*;
use crate::buffers::{BufferView, CaptureBuffer, PixelFormat};
use crate::utils::text;
use crate::utils::text::{chars_in_range, chars_of, starts_with, string_from_chars};

verus! {

/// Backend using the XDG Desktop Portal Screenshot interface.
pub struct XdgPortalBackend {}

impl XdgPortalBackend {
    /// The portal is the last resort: it is available whenever a D-Bus
    /// session bus is (its address is set in the environment).
    pub fn probe(session_bus_present: bool) -> (b: Option<Self>)
        ensures
            b is Some == session_bus_present,
    {
        if session_bus_present {
            Some(XdgPortalBackend {})
        } else {
            None
        }
    }

    /// Human-readable name of this backend.
    pub fn name(&self) -> (n: &'static str)
        ensures
            n@ == "xdg-desktop-portal"@,
    {
        "xdg-desktop-portal"
    }
}

/// The file path a portal screenshot URI points to: the text after
/// "file://" for a file URI, the URI itself otherwise.
pub open spec fn portal_path(uri: Seq<char>) -> Seq<char> {
    if text::has_prefix(uri, "file://"@) { uri.skip(7) } else { uri }
}

/// Turn the URI the portal returns into the path of the saved image.
pub fn portal_uri_to_path(uri: &str) -> (path: String)
    ensures
        path@ == portal_path(uri@),
{
    let u = chars_of(uri);
    let prefix = chars_of("file://");
    proof {
        reveal_strlit("file://");
    }
    if starts_with(&u, &prefix) {
        let rest = chars_in_range(&u, 7, u.len());
        assert(rest@ =~= uri@.skip(7));
        string_from_chars(&rest)
    } else {
        String::from_str(uri)
    }
}

/// The capture buffer of the image the portal saved, once decoded to packed
/// RGBA rows: 4 bytes a pixel, no row padding. Its bytes are in R, G, B, A
/// order, which is the ABGR8888 format read as little-endian words.
pub fn portal_buffer(width: u32, height: u32, data: Vec<u8>) -> (buf: CaptureBuffer)
    requires
        width * 4 <= u32::MAX,
    ensures
        buf@ == (BufferView {
            width,
            height,
            stride: (width * 4) as u32,
            format: PixelFormat::Abgr8888,
            data: data@,
        }),
{
    CaptureBuffer { width, height, stride: width * 4, format: PixelFormat::Abgr8888, data }
}

} // verus!
