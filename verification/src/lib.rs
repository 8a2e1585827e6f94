//! Video codec abstraction and negotiation for a real-time remote-screen
//! stream: planar buffer planning and pixel conversion, the codec-agnostic
//! encoder and decoder that drive a software or hardware backend, the
//! capability probe with its persistent cache, and the multi-peer
//! negotiation that picks the hardware encoder every connected peer can
//! decode.

pub mod capture;
pub mod codec_info;
pub mod config;
pub mod convert;
pub mod decoder;
pub mod encoder;
pub mod error;
pub mod message;
pub mod negotiate;
pub mod yuv;

use vstd::prelude::*;

verus! {

/// Capability score that the built-in software VP9 codec is always given.
pub const SCORE_VPX: i32 = 90;

/// Byte alignment required of every plane stride handed to a codec backend.
pub const STRIDE_ALIGN: usize = 64;

} // verus!
