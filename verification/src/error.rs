//! The error kinds this layer reports.

use vstd::prelude::*;

verus! {

/// Everything that can go wrong in the codec layer.
#[derive(Clone, Copy, Debug, PartialEq, Eq, Structural)]
pub enum CodecError {
    /// The requested (hardware flag, codec format) combination is not
    /// supported, or no backend exists for it.
    UnsupportedCodec,
    /// A codec backend failed to initialise.
    BackendConstructionFailed,
    /// An encode or decode call into a backend failed.
    BackendCallFailed,
    /// The decoder received a frame variant it has no active backend for.
    UnsupportedFrameVariant,
    /// A capability-cache entry was absent or did not parse; callers treat
    /// this as a cache miss and re-probe.
    CapabilityCacheUnavailable,
}

impl CodecError {
    /// A short description of the error kind.
    pub fn describe(&self) -> &'static str {
        match self {
            CodecError::UnsupportedCodec => "unsupported encoder type",
            CodecError::BackendConstructionFailed => "failed to create codec backend",
            CodecError::BackendCallFailed => "codec backend call failed",
            CodecError::UnsupportedFrameVariant => "unsupported video frame type",
            CodecError::CapabilityCacheUnavailable => "capability cache unavailable",
        }
    }
}

} // verus!
