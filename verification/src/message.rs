//! The wire-level value types that the codec layer produces and consumes:
//! encoded-frame batches, the tagged video-frame union of the outbound
//! protocol message, and the per-peer decode-capability report.

use vstd::prelude::*;

verus! {

/// One encoded frame: its bitstream bytes and its presentation timestamp.
pub struct EncodedVideoFrame {
    pub data: Vec<u8>,
    pub pts: i64,
}

/// An ordered batch of encoded frames, as carried by one protocol message.
pub struct EncodedVideoFrames {
    pub frames: Vec<EncodedVideoFrame>,
}

/// The tagged payload of an outbound or inbound video message: one batch of
/// encoded frames, tagged with the codec that produced it.
pub enum VideoFrameUnion {
    Vp9s(EncodedVideoFrames),
    H264s(EncodedVideoFrames),
    H265s(EncodedVideoFrames),
}

/// One video frame message payload.
pub struct VideoFrame {
    pub union: VideoFrameUnion,
}

/// The outbound protocol message an encoder produces for each captured frame.
pub struct Message {
    pub video_frame: VideoFrame,
}

/// A peer's self-reported decode capability: one score per codec family.
/// The software score is a positive constant for every live peer; a hardware
/// score is zero when that codec is unsupported or disabled on the peer.
#[derive(Clone, Copy, Debug, PartialEq, Eq, Structural)]
pub struct VideoCodecState {
    pub score_vpx: i32,
    pub score_h264: i32,
    pub score_h265: i32,
}

impl Default for VideoCodecState {
    /// The state of a peer that never reported: hardware decode disabled.
    fn default() -> (r: Self)
        ensures
            r == (VideoCodecState { score_vpx: 0, score_h264: 0, score_h265: 0 }),
    {
        VideoCodecState { score_vpx: 0, score_h264: 0, score_h265: 0 }
    }
}

impl VideoFrameUnion {
    /// The batch carried by this payload, whichever codec tagged it.
    pub open spec fn spec_frames(&self) -> Seq<EncodedVideoFrame> {
        match self {
            VideoFrameUnion::Vp9s(b) => b.frames@,
            VideoFrameUnion::H264s(b) => b.frames@,
            VideoFrameUnion::H265s(b) => b.frames@,
        }
    }
}

} // verus!
