//! The codec-agnostic encoder: one selected backend (software VP9 or a
//! hardware H264/H265 engine), the planar scratch buffer captured frames
//! are converted into, and the wrapping of encoded frames into one
//! outbound protocol message tagged with the configured format.

use vstd::prelude::*;
use crate::config::CapabilityProbe;
use crate::convert::{i420_plan_ok, RawFrame};
use crate::error::CodecError;
use crate::message::{EncodedVideoFrame, EncodedVideoFrames, Message, VideoFrame, VideoFrameUnion};
use crate::yuv::{plan_matches, YuvFormat, YuvMeta, MAX_DIMENSION};

verus! {

/// The compression formats a session can ask for. VP9 is the software
/// default; H264 and H265 require a hardware backend; VP8 is never a valid
/// terminal format for this path.
#[derive(Clone, Copy, Debug, PartialEq, Eq, Structural)]
pub enum CodecFormat {
    VP8,
    VP9,
    H264,
    H265,
}

impl Default for CodecFormat {
    fn default() -> (r: Self)
        ensures
            r == CodecFormat::VP9,
    {
        CodecFormat::VP9
    }
}

/// Encode session parameters, immutable once an encoder is built.
pub struct EncoderCfg {
    pub codec_name: String,
    pub codec_format: CodecFormat,
    pub use_hwcodec: bool,
    /// The width (in pixels).
    pub width: usize,
    /// The height (in pixels).
    pub height: usize,
    /// The timebase numerator and denominator (in seconds).
    pub timebase: [i32; 2],
    /// The target bitrate (in kilobits per second).
    pub bitrate: u32,
    pub num_threads: u32,
}

/// An encode engine. The crate drives any such engine; the platform layer
/// supplies the software and hardware implementations.
pub trait EncoderApi: Sized {
    /// Builds the engine for the session parameters.
    fn new(cfg: &EncoderCfg) -> Result<Self, CodecError>;

    /// Encodes one planar frame; returns the encoded frames it released.
    fn encode(&mut self, yuv: &[u8], yuv_cfg: &YuvMeta, pts: i64) -> Result<
        Vec<EncodedVideoFrame>,
        CodecError,
    >;

    /// Renegotiates the target bitrate.
    fn set_bitrate(&mut self, bitrate: u32) -> Result<(), CodecError>;
}

/// Exactly one backend drives a session: the software engine or the
/// hardware engine.
pub enum CodecInstance<S, H> {
    Software(S),
    Hardware(H),
}

/// The format tag of a message's payload.
pub open spec fn spec_message_format(m: Message) -> CodecFormat {
    match m.video_frame.union {
        VideoFrameUnion::Vp9s(_) => CodecFormat::VP9,
        VideoFrameUnion::H264s(_) => CodecFormat::H264,
        VideoFrameUnion::H265s(_) => CodecFormat::H265,
    }
}

/// Wraps a batch of encoded frames into one outbound message whose tagged
/// variant is exactly `format`; VP8 has no message variant and is
/// rejected.
pub fn wrap_frames(format: CodecFormat, frames: Vec<EncodedVideoFrame>) -> (r: Result<
    Message,
    CodecError,
>)
    ensures
        format is VP8 ==> r == Err::<Message, CodecError>(CodecError::UnsupportedCodec),
        !(format is VP8) ==> (r matches Ok(m) && spec_message_format(m) == format
            && m.video_frame.union.spec_frames() == frames@),
{
    let batch = EncodedVideoFrames { frames };
    match format {
        CodecFormat::VP9 => Ok(
            Message { video_frame: VideoFrame { union: VideoFrameUnion::Vp9s(batch) } },
        ),
        CodecFormat::H264 => Ok(
            Message { video_frame: VideoFrame { union: VideoFrameUnion::H264s(batch) } },
        ),
        CodecFormat::H265 => Ok(
            Message { video_frame: VideoFrame { union: VideoFrameUnion::H265s(batch) } },
        ),
        CodecFormat::VP8 => Err(CodecError::UnsupportedCodec),
    }
}

/// The encoder: the session parameters, the planar scratch buffer, its
/// layout plan, and the one selected backend.
pub struct Encoder<S: EncoderApi, H: EncoderApi> {
    pub encoder_cfg: EncoderCfg,
    pub yuv_buf: Vec<u8>,
    pub yuv_meta: YuvMeta,
    pub codec: CodecInstance<S, H>,
}

/// The requested (hardware flag, format) combination selects a backend:
/// software for plain VP9, hardware for H264/H265.
pub open spec fn combo_supported(cfg: EncoderCfg) -> bool {
    ||| (!cfg.use_hwcodec && cfg.codec_format is VP9)
    ||| (cfg.use_hwcodec && (cfg.codec_format is H264 || cfg.codec_format is H265))
}

impl<S: EncoderApi, H: EncoderApi> Encoder<S, H> {
    /// The plan matches the session dimensions and the default layout.
    pub open spec fn wf(&self) -> bool {
        &&& self.encoder_cfg.width <= MAX_DIMENSION
        &&& self.encoder_cfg.height <= MAX_DIMENSION
        &&& plan_matches(
            self.yuv_meta,
            YuvFormat::I420,
            self.encoder_cfg.width as int,
            self.encoder_cfg.height as int,
            crate::STRIDE_ALIGN as int,
        )
    }

    /// Builds the encoder for `config`: the software engine for plain VP9,
    /// a hardware engine for H264/H265 under the hardware flag. Any other
    /// combination is unsupported. A failed hardware build forces a
    /// capability re-probe (so the next negotiation sees fresh scores) and
    /// then fails the same way; construction is not retried.
    pub fn new(config: EncoderCfg, probe: &mut CapabilityProbe) -> (r: Result<
        Encoder<S, H>,
        CodecError,
    >)
        requires
            config.width <= MAX_DIMENSION,
            config.height <= MAX_DIMENSION,
            old(probe).wf(),
        ensures
            final(probe).wf(),
            !combo_supported(config) ==> r == Err::<Encoder<S, H>, CodecError>(
                CodecError::UnsupportedCodec,
            ) && *final(probe) == *old(probe),
            r matches Ok(e) ==> {
                &&& e.wf()
                &&& e.encoder_cfg == config
                &&& (e.codec is Software <==> !config.use_hwcodec)
                &&& *final(probe) == *old(probe)
            },
            // A failed software build reports the construction failure and
            // leaves the probe untouched.
            combo_supported(config) && !config.use_hwcodec && r is Err ==> r == Err::<
                Encoder<S, H>,
                CodecError,
            >(CodecError::BackendConstructionFailed) && *final(probe) == *old(probe),
            combo_supported(config) && config.use_hwcodec && r is Err ==> r == Err::<
                Encoder<S, H>,
                CodecError,
            >(CodecError::UnsupportedCodec) && crate::config::store_entry(
                final(probe).store,
                crate::config::CfgKey::Encoder,
            ) == Some(
                crate::codec_info::ser_infos(
                    crate::config::spec_scored(old(probe).probed_encoders@),
                ),
            ),
    {
        let yuv_meta = YuvMeta::new(YuvFormat::I420, config.width, config.height);
        if !config.use_hwcodec && matches!(config.codec_format, CodecFormat::VP9) {
            match S::new(&config) {
                Ok(codec) => Ok(
                    Encoder {
                        encoder_cfg: config,
                        yuv_buf: Vec::new(),
                        yuv_meta,
                        codec: CodecInstance::Software(codec),
                    },
                ),
                Err(_) => Err(CodecError::BackendConstructionFailed),
            }
        } else if config.use_hwcodec && (matches!(config.codec_format, CodecFormat::H264)
            || matches!(config.codec_format, CodecFormat::H265)) {
            match H::new(&config) {
                Ok(codec) => Ok(
                    Encoder {
                        encoder_cfg: config,
                        yuv_buf: Vec::new(),
                        yuv_meta,
                        codec: CodecInstance::Hardware(codec),
                    },
                ),
                Err(_) => {
                    probe.best_encoders(true, true);
                    Err(CodecError::UnsupportedCodec)
                },
            }
        } else {
            Err(CodecError::UnsupportedCodec)
        }
    }

    /// Encodes one captured frame and wraps the encoded batch into one
    /// outbound message whose tagged variant is exactly the configured
    /// format. An already-planar frame goes straight to the backend;
    /// interleaved frames are converted into the scratch buffer first.
    pub fn encode_to_message(&mut self, frame: RawFrame, pts: i64) -> (r: Result<
        Message,
        CodecError,
    >)
        requires
            old(self).wf(),
            frame.spec_interleaved() matches Some((bytes, _)) ==> bytes.len() >= 4 * old(
                self,
            ).encoder_cfg.width * old(self).encoder_cfg.height,
        ensures
            final(self).wf(),
            final(self).encoder_cfg == old(self).encoder_cfg,
            final(self).yuv_meta == old(self).yuv_meta,
            r matches Ok(m) ==> spec_message_format(m) == old(self).encoder_cfg.codec_format,
            old(self).encoder_cfg.codec_format is VP8 ==> r is Err,
    {
        let frames = match frame {
            RawFrame::YUV(yuv) => {
                let res = match &mut self.codec {
                    CodecInstance::Software(s) => s.encode(yuv, &self.yuv_meta, pts),
                    CodecInstance::Hardware(h) => h.encode(yuv, &self.yuv_meta, pts),
                };
                match res {
                    Ok(f) => f,
                    Err(e) => {
                        return Err(e);
                    },
                }
            },
            _ => {
                match frame.convert_into_yuv(
                    self.encoder_cfg.width,
                    self.encoder_cfg.height,
                    &mut self.yuv_buf,
                    &self.yuv_meta,
                ) {
                    Ok(_) => {},
                    Err(e) => {
                        return Err(e);
                    },
                }
                let res = match &mut self.codec {
                    CodecInstance::Software(s) => s.encode(
                        self.yuv_buf.as_slice(),
                        &self.yuv_meta,
                        pts,
                    ),
                    CodecInstance::Hardware(h) => h.encode(
                        self.yuv_buf.as_slice(),
                        &self.yuv_meta,
                        pts,
                    ),
                };
                match res {
                    Ok(f) => f,
                    Err(e) => {
                        return Err(e);
                    },
                }
            },
        };
        wrap_frames(self.encoder_cfg.codec_format, frames)
    }

    /// Renegotiates the backend's target bitrate, best effort: a backend
    /// that refuses is left as it is and the failure is not propagated.
    pub fn set_bitrate(&mut self, bitrate: u32)
        ensures
            final(self).encoder_cfg == old(self).encoder_cfg,
            final(self).yuv_meta == old(self).yuv_meta,
            final(self).yuv_buf == old(self).yuv_buf,
    {
        let _ = match &mut self.codec {
            CodecInstance::Software(s) => s.set_bitrate(bitrate),
            CodecInstance::Hardware(h) => h.set_bitrate(bitrate),
        };
    }
}

} // verus!
