use vstd::prelude::*;

verus! {

/// Unified error type for all wlsnip operations.
#[derive(Debug)]
pub enum WlsnipError {
    WaylandConnect(String),
    NoBackendAvailable,
    Protocol(String),
    BufferAlloc(String),
    Capture(String),
    Encode(String),
    Portal(String),
    RegionSelection(String),
    OutputNotFound(String),
    /// An I/O error, by its description.
    Io(String),
    InvalidArg(String),
}

/// The text an error is shown as: a phrase for its kind, then its detail.
pub open spec fn error_text(e: WlsnipError) -> Seq<char> {
    match e {
        WlsnipError::WaylandConnect(s) => "failed to connect to Wayland display: "@ + s@,
        WlsnipError::NoBackendAvailable => "no supported capture backend available"@,
        WlsnipError::Protocol(s) => "wayland protocol error: "@ + s@,
        WlsnipError::BufferAlloc(s) => "buffer allocation failed: "@ + s@,
        WlsnipError::Capture(s) => "capture failed: "@ + s@,
        WlsnipError::Encode(s) => "encoding failed: "@ + s@,
        WlsnipError::Portal(s) => "XDG portal error: "@ + s@,
        WlsnipError::RegionSelection(s) => "region selection failed: "@ + s@,
        WlsnipError::OutputNotFound(s) => "output not found: "@ + s@,
        WlsnipError::Io(s) => "I/O error: "@ + s@,
        WlsnipError::InvalidArg(s) => "invalid argument: "@ + s@,
    }
}

impl WlsnipError {
    /// The error as text, as it is shown to the user.
    pub fn message(&self) -> (m: String)
        ensures
            m@ == error_text(*self),
    {
        let (prefix, detail) = match self {
            WlsnipError::WaylandConnect(s) => ("failed to connect to Wayland display: ", s.as_str()),
            WlsnipError::NoBackendAvailable => ("no supported capture backend available", ""),
            WlsnipError::Protocol(s) => ("wayland protocol error: ", s.as_str()),
            WlsnipError::BufferAlloc(s) => ("buffer allocation failed: ", s.as_str()),
            WlsnipError::Capture(s) => ("capture failed: ", s.as_str()),
            WlsnipError::Encode(s) => ("encoding failed: ", s.as_str()),
            WlsnipError::Portal(s) => ("XDG portal error: ", s.as_str()),
            WlsnipError::RegionSelection(s) => ("region selection failed: ", s.as_str()),
            WlsnipError::OutputNotFound(s) => ("output not found: ", s.as_str()),
            WlsnipError::Io(s) => ("I/O error: ", s.as_str()),
            WlsnipError::InvalidArg(s) => ("invalid argument: ", s.as_str()),
        };
        let mut m = String::from_str(prefix);
        m.append(detail);
        proof {
            reveal_strlit("");
        }
        assert(m@ =~= error_text(*self));
        m
    }
}

} // verus!
