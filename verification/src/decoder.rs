//! The codec-agnostic decoder: one software VP9 backend that is always
//! present, an optional pair of hardware backends built from the probed
//! best descriptors, and the batch handling that turns one inbound frame
//! message into at most one rendered image.

use vstd::prelude::*;
use crate::codec_info::{info_like, ser_infos, CodecInfo};
use crate::config::{spec_cached, spec_scored, store_entry, CapabilityProbe, CfgKey};
use crate::convert::{bgra_of, i420_to_bgra};
use crate::error::CodecError;
use crate::message::{EncodedVideoFrames, VideoFrameUnion};
use crate::negotiate::{spec_software_only_state, NegotiationState};
use crate::yuv::{spec_chroma_cols, spec_chroma_rows, MAX_DIMENSION};
use crate::message::VideoCodecState;

verus! {

/// One decoded frame in tight planar I420 layout: a luma plane of
/// `width * height` bytes followed by the two half-resolution chroma
/// planes.
pub struct Image {
    pub width: usize,
    pub height: usize,
    pub data: Vec<u8>,
}

impl Image {
    /// The dimensions are in range and the buffer holds all three planes.
    pub open spec fn wf(&self) -> bool {
        &&& self.width <= MAX_DIMENSION
        &&& self.height <= MAX_DIMENSION
        &&& self.data@.len() == self.width * self.height + 2 * (spec_chroma_cols(
            self.width as int,
        ) * spec_chroma_rows(self.height as int))
    }

    /// A null image: what a decoder holds before anything was decoded.
    pub open spec fn spec_is_null(&self) -> bool {
        self.width == 0 || self.height == 0
    }

    pub fn new() -> (r: Image)
        ensures
            r.wf(),
            r.spec_is_null(),
    {
        Image { width: 0, height: 0, data: Vec::new() }
    }

    pub fn is_null(&self) -> (r: bool)
        ensures
            r == self.spec_is_null(),
    {
        self.width == 0 || self.height == 0
    }

    /// Whether the buffer really holds all three planes of the claimed
    /// dimensions.
    pub fn check_wf(&self) -> (r: bool)
        ensures
            r == self.wf(),
    {
        if self.width > MAX_DIMENSION || self.height > MAX_DIMENSION {
            return false;
        }
        let cw = (self.width + 1) / 2;
        let ch = (self.height + 1) / 2;
        proof {
            assert(self.width * self.height <= 0x2000 * 0x2000 && cw * ch <= 0x2000 * 0x2000)
                by (nonlinear_arith)
                requires
                    self.width <= 0x2000 && self.height <= 0x2000 && cw == (self.width + 1) / 2
                        && ch == (self.height + 1) / 2,
            ;
        }
        self.data.len() == self.width * self.height + 2 * (cw * ch)
    }

    /// Renders this image as interleaved BGRA into `rgb`.
    pub fn to_bgra(&self, rgb: &mut Vec<u8>)
        requires
            self.wf(),
        ensures
            bgra_of(final(rgb)@, self.data@, self.width as int, self.height as int),
    {
        i420_to_bgra(self.width, self.height, &self.data, rgb)
    }
}

/// The software decoder's build parameters.
pub struct VpxDecoderConfig {
    pub num_threads: u32,
}

/// The decoder's build parameters: the software decoder's configuration;
/// hardware decoders configure themselves from the probed descriptors.
pub struct DecoderCfg {
    pub vpx: VpxDecoderConfig,
}

/// A decode engine. The crate drives any such engine; the platform layer
/// supplies the software and hardware implementations.
pub trait DecoderApi: Sized {
    /// Builds the software decoder.
    fn new_vpx(cfg: &VpxDecoderConfig) -> Result<Self, CodecError>;

    /// Builds a hardware decoder for the probed descriptor.
    fn new_hw(info: &CodecInfo) -> Result<Self, CodecError>;

    /// Feeds one encoded frame; returns the images it released.
    fn decode(&mut self, data: &Vec<u8>) -> Result<Vec<Image>, CodecError>;

    /// Drains the engine's internal frame queue.
    fn flush(&mut self) -> Result<Vec<Image>, CodecError>;
}

/// One hardware decoder together with the descriptor it was built from.
pub struct HwDecoder<D: DecoderApi> {
    pub decoder: D,
    pub info: CodecInfo,
}

/// The optional pair of hardware decoders.
pub struct HwDecoders<D: DecoderApi> {
    pub h264: Option<HwDecoder<D>>,
    pub h265: Option<HwDecoder<D>>,
}

/// The decoder bundle a non-forced probe answers with.
pub open spec fn spec_probe_best_decoders(p: CapabilityProbe) -> crate::codec_info::CodecInfos {
    match spec_cached(store_entry(p.store, CfgKey::Decoder)) {
        Some(cv) => cv,
        None => spec_scored(p.probed_decoders@),
    }
}

impl<D: DecoderApi> HwDecoder<D> {
    /// Builds a hardware decoder from one probed descriptor.
    pub fn new(info: CodecInfo) -> (r: Result<HwDecoder<D>, CodecError>)
        ensures
            r matches Ok(d) ==> d.info == info,
            r is Err ==> r == Err::<HwDecoder<D>, CodecError>(CodecError::BackendConstructionFailed),
    {
        match D::new_hw(&info) {
            Ok(decoder) => Ok(HwDecoder { decoder, info }),
            Err(_) => Err(CodecError::BackendConstructionFailed),
        }
    }

    /// Probes the best hardware decoder descriptors, writing the cache
    /// when it was missing or unusable, and builds a decoder for each; a
    /// failed build forces a re-scored cache rewrite so the next probe
    /// starts fresh.
    pub fn new_decoders(probe: &mut CapabilityProbe) -> (r: HwDecoders<D>)
        requires
            old(probe).wf(),
        ensures
            final(probe).wf(),
            final(probe).probed_encoders == old(probe).probed_encoders,
            final(probe).probed_decoders == old(probe).probed_decoders,
            final(probe).store.enable_hwcodec == old(probe).store.enable_hwcodec,
            store_entry(final(probe).store, CfgKey::Encoder) == store_entry(
                old(probe).store,
                CfgKey::Encoder,
            ),
            r.h264 matches Some(d) ==> (spec_probe_best_decoders(*old(probe)).h264 matches Some(c)
                && info_like(c, d.info)),
            r.h265 matches Some(d) ==> (spec_probe_best_decoders(*old(probe)).h265 matches Some(c)
                && info_like(c, d.info)),
            spec_probe_best_decoders(*old(probe)).h264 is None ==> r.h264 is None,
            spec_probe_best_decoders(*old(probe)).h265 is None ==> r.h265 is None,
            // The decoder cache is written with the freshly scored probe
            // result when it was missing or unusable.
            spec_cached(store_entry(old(probe).store, CfgKey::Decoder)) is None ==> store_entry(
                final(probe).store,
                CfgKey::Decoder,
            ) == Some(ser_infos(spec_scored(old(probe).probed_decoders@))),
            // A carried descriptor whose decoder failed to build forces a
            // re-scored cache rewrite, whatever the cache held before.
            ((spec_probe_best_decoders(*old(probe)).h264 is Some && r.h264 is None) || (
            spec_probe_best_decoders(*old(probe)).h265 is Some && r.h265 is None)) ==> store_entry(
                final(probe).store,
                CfgKey::Decoder,
            ) == Some(ser_infos(spec_scored(old(probe).probed_decoders@))),
            // With a usable cache and every carried descriptor built, the
            // probe is left exactly as it was.
            (spec_cached(store_entry(old(probe).store, CfgKey::Decoder)) is Some && (
            spec_probe_best_decoders(*old(probe)).h264 is Some ==> r.h264 is Some) && (
            spec_probe_best_decoders(*old(probe)).h265 is Some ==> r.h265 is Some))
                ==> *final(probe) == *old(probe),
            // Whatever happened, the decoder cache afterwards is either
            // untouched or the scored serialization of the probed entries.
            store_entry(final(probe).store, CfgKey::Decoder) == store_entry(
                old(probe).store,
                CfgKey::Decoder,
            ) || store_entry(final(probe).store, CfgKey::Decoder) == Some(
                ser_infos(spec_scored(old(probe).probed_decoders@)),
            ),
    {
        let (best, _) = probe.best_decoders(false, true);
        let mut h264: Option<HwDecoder<D>> = None;
        let mut h265: Option<HwDecoder<D>> = None;
        let mut fail = false;
        match best.h264 {
            Some(info) => {
                match HwDecoder::new(info) {
                    Ok(d) => {
                        h264 = Some(d);
                    },
                    Err(_) => {
                        fail = true;
                    },
                }
            },
            None => {},
        }
        match best.h265 {
            Some(info) => {
                match HwDecoder::new(info) {
                    Ok(d) => {
                        h265 = Some(d);
                    },
                    Err(_) => {
                        fail = true;
                    },
                }
            },
            None => {},
        }
        if fail {
            probe.best_decoders(true, true);
        }
        HwDecoders { h264, h265 }
    }
}

/// One hardware-decoded frame, already in planar form.
pub struct HwDecoderImage {
    pub frame: Image,
}

impl HwDecoderImage {
    /// Renders the frame as interleaved BGRA. A frame whose buffer does
    /// not match its claimed dimensions is a failed backend call.
    pub fn bgra(&self, bgra: &mut Vec<u8>) -> (r: Result<(), CodecError>)
        ensures
            r is Ok <==> self.frame.wf(),
            r is Ok ==> bgra_of(
                final(bgra)@,
                self.frame.data@,
                self.frame.width as int,
                self.frame.height as int,
            ),
            r is Err ==> r == Err::<(), CodecError>(CodecError::BackendCallFailed) && *final(bgra)
                == *old(bgra),
    {
        if self.frame.check_wf() {
            self.frame.to_bgra(bgra);
            Ok(())
        } else {
            Err(CodecError::BackendCallFailed)
        }
    }
}

/// The image that survives a batch under the last-wins policy: the batch's
/// last image, which replaces every image decoded before it.
pub open spec fn spec_last_image(images: Seq<Image>) -> Option<Image> {
    if images.len() == 0 {
        None
    } else {
        Some(images.last())
    }
}

/// Renders the survivor of a decoded batch. The batch's last image wins:
/// earlier images are discarded, exactly one rendering is written. An
/// empty batch, or one ending in a null image, writes nothing and reports
/// that no new frame is available; a malformed surviving image is a failed
/// backend call.
pub fn finish_batch(images: &Vec<Image>, rgb: &mut Vec<u8>) -> (r: Result<bool, CodecError>)
    ensures
        images@.len() == 0 ==> r == Ok::<bool, CodecError>(false) && *final(rgb) == *old(rgb),
        images@.len() > 0 && images@.last().spec_is_null() ==> r == Ok::<bool, CodecError>(false)
            && *final(rgb) == *old(rgb),
        images@.len() > 0 && !images@.last().spec_is_null() && images@.last().wf() ==> r == Ok::<
            bool,
            CodecError,
        >(true) && bgra_of(
            final(rgb)@,
            images@.last().data@,
            images@.last().width as int,
            images@.last().height as int,
        ),
        images@.len() > 0 && !images@.last().spec_is_null() && !images@.last().wf() ==> r == Err::<
            bool,
            CodecError,
        >(CodecError::BackendCallFailed) && *final(rgb) == *old(rgb),
{
    if images.len() == 0 {
        return Ok(false);
    }
    let last = &images[images.len() - 1];
    if last.is_null() {
        return Ok(false);
    }
    if !last.check_wf() {
        return Err(CodecError::BackendCallFailed);
    }
    last.to_bgra(rgb);
    Ok(true)
}

/// The codec-agnostic decoder: the always-present software backend and
/// the optional hardware pair.
pub struct Decoder<D: DecoderApi> {
    pub vpx: D,
    pub hw: HwDecoders<D>,
}

impl<D: DecoderApi> Decoder<D> {
    /// Builds the software decoder and whatever hardware decoders the
    /// probed descriptors allow (probing the decoder cache and writing it
    /// on a miss), and records this process's own decode scores: the
    /// software constant, plus each live hardware decoder's probed score
    /// (zero where absent).
    pub fn new(config: DecoderCfg, probe: &mut CapabilityProbe, neg: &mut NegotiationState) -> (r:
        Result<Decoder<D>, CodecError>)
        requires
            old(probe).wf(),
        ensures
            final(probe).wf(),
            final(probe).probed_encoders == old(probe).probed_encoders,
            final(probe).probed_decoders == old(probe).probed_decoders,
            final(probe).store.enable_hwcodec == old(probe).store.enable_hwcodec,
            r is Err ==> *final(neg) == *old(neg) && *final(probe) == *old(probe),
            r matches Ok(d) ==> {
                &&& final(neg).my_decoder_state.score_vpx == crate::SCORE_VPX
                &&& final(neg).my_decoder_state.score_h264 == (match d.hw.h264 {
                    Some(x) => x.info.score,
                    None => 0,
                })
                &&& final(neg).my_decoder_state.score_h265 == (match d.hw.h265 {
                    Some(x) => x.info.score,
                    None => 0,
                })
                &&& final(neg).peers == old(neg).peers
                &&& final(neg).current_encoder_name == old(neg).current_encoder_name
                &&& (d.hw.h264 matches Some(x) ==> (spec_probe_best_decoders(
                    *old(probe),
                ).h264 matches Some(c) && info_like(c, x.info)))
                &&& (d.hw.h265 matches Some(x) ==> (spec_probe_best_decoders(
                    *old(probe),
                ).h265 matches Some(c) && info_like(c, x.info)))
                &&& store_entry(final(probe).store, CfgKey::Encoder) == store_entry(
                    old(probe).store,
                    CfgKey::Encoder,
                )
                &&& (spec_cached(store_entry(old(probe).store, CfgKey::Decoder)) is None
                    ==> store_entry(final(probe).store, CfgKey::Decoder) == Some(
                    ser_infos(spec_scored(old(probe).probed_decoders@)),
                ))
                &&& ((spec_probe_best_decoders(*old(probe)).h264 is Some && d.hw.h264 is None) || (
                spec_probe_best_decoders(*old(probe)).h265 is Some && d.hw.h265 is None)
                    ==> store_entry(final(probe).store, CfgKey::Decoder) == Some(
                    ser_infos(spec_scored(old(probe).probed_decoders@)),
                ))
                &&& (store_entry(final(probe).store, CfgKey::Decoder) == store_entry(
                    old(probe).store,
                    CfgKey::Decoder,
                ) || store_entry(final(probe).store, CfgKey::Decoder) == Some(
                    ser_infos(spec_scored(old(probe).probed_decoders@)),
                ))
            },
    {
        let vpx = match D::new_vpx(&config.vpx) {
            Ok(v) => v,
            Err(_) => {
                return Err(CodecError::BackendConstructionFailed);
            },
        };
        let hw = HwDecoder::new_decoders(probe);
        let score_h264: i32 = match &hw.h264 {
            Some(x) => x.info.score,
            None => 0,
        };
        let score_h265: i32 = match &hw.h265 {
            Some(x) => x.info.score,
            None => 0,
        };
        neg.set_own_decode_state(
            VideoCodecState { score_vpx: crate::SCORE_VPX, score_h264, score_h265 },
        );
        Ok(Decoder { vpx, hw })
    }

    /// Tears the decoder down and resets the process-wide own decode state
    /// to software only: once no decoder is live, hardware decode
    /// capability is no longer advertised. Destroying any decoder resets
    /// the shared record, even while another decoder is still live.
    pub fn destroy(self, neg: &mut NegotiationState)
        ensures
            final(neg).my_decoder_state == spec_software_only_state(),
            final(neg).peers == old(neg).peers,
            final(neg).current_encoder_name == old(neg).current_encoder_name,
    {
        neg.reset_own_decode_state();
    }

    /// Decodes one inbound message payload into at most one rendered BGRA
    /// image. Hardware variants fail when the matching hardware decoder
    /// was never built. Returns false, leaving `rgb` untouched, when the
    /// batch yields no new displayable frame.
    pub fn handle_video_frame(&mut self, frame: &VideoFrameUnion, rgb: &mut Vec<u8>) -> (r: Result<
        bool,
        CodecError,
    >)
        ensures
            frame is H264s && old(self).hw.h264 is None ==> r == Err::<bool, CodecError>(
                CodecError::UnsupportedFrameVariant,
            ),
            frame is H265s && old(self).hw.h265 is None ==> r == Err::<bool, CodecError>(
                CodecError::UnsupportedFrameVariant,
            ),
            r is Err ==> *final(rgb) == *old(rgb),
            r == Ok::<bool, CodecError>(false) ==> *final(rgb) == *old(rgb),
            r == Ok::<bool, CodecError>(true) ==> (exists|img: Image|
                img.wf() && !img.spec_is_null() && bgra_of(
                    final(rgb)@,
                    img.data@,
                    img.width as int,
                    img.height as int,
                )),
    {
        match frame {
            VideoFrameUnion::Vp9s(vp9s) => Self::handle_vp9s_video_frame(&mut self.vpx, vp9s, rgb),
            VideoFrameUnion::H264s(h264s) => {
                match &mut self.hw.h264 {
                    Some(d) => Self::handle_hw_video_frame(d, h264s, rgb),
                    None => Err(CodecError::UnsupportedFrameVariant),
                }
            },
            VideoFrameUnion::H265s(h265s) => {
                match &mut self.hw.h265 {
                    Some(d) => Self::handle_hw_video_frame(d, h265s, rgb),
                    None => Err(CodecError::UnsupportedFrameVariant),
                }
            },
        }
    }

    /// Software path: decodes every frame of the batch in order, then
    /// drains the backend's queue, and renders only the image that
    /// survives the last-wins policy. A batch and flush that release
    /// nothing report false and leave `rgb` untouched.
    pub fn handle_vp9s_video_frame(decoder: &mut D, vp9s: &EncodedVideoFrames, rgb: &mut Vec<
        u8,
    >) -> (r: Result<bool, CodecError>)
        ensures
            r == Ok::<bool, CodecError>(false) ==> *final(rgb) == *old(rgb),
            r is Err ==> *final(rgb) == *old(rgb),
            r == Ok::<bool, CodecError>(true) ==> (exists|img: Image|
                img.wf() && !img.spec_is_null() && bgra_of(
                    final(rgb)@,
                    img.data@,
                    img.width as int,
                    img.height as int,
                )),
    {
        let mut images: Vec<Image> = Vec::new();
        let n = vp9s.frames.len();
        for i in 0..n
            invariant
                n == vp9s.frames@.len(),
        {
            let mut released = match decoder.decode(&vp9s.frames[i].data) {
                Ok(v) => v,
                Err(e) => {
                    return Err(e);
                },
            };
            images.append(&mut released);
        }
        let mut flushed = match decoder.flush() {
            Ok(v) => v,
            Err(e) => {
                return Err(e);
            },
        };
        images.append(&mut flushed);
        finish_batch(&images, rgb)
    }

    /// Hardware path: decodes every frame of the batch in order under the
    /// same last-wins policy. Unlike the software path, no flush is
    /// issued: frames still buffered inside the hardware backend stay
    /// there.
    pub fn handle_hw_video_frame(hw: &mut HwDecoder<D>, frames: &EncodedVideoFrames, rgb: &mut Vec<
        u8,
    >) -> (r: Result<bool, CodecError>)
        ensures
            r == Ok::<bool, CodecError>(false) ==> *final(rgb) == *old(rgb),
            r is Err ==> *final(rgb) == *old(rgb),
            r == Ok::<bool, CodecError>(true) ==> (exists|img: Image|
                img.wf() && !img.spec_is_null() && bgra_of(
                    final(rgb)@,
                    img.data@,
                    img.width as int,
                    img.height as int,
                )),
    {
        let mut images: Vec<Image> = Vec::new();
        let n = frames.frames.len();
        for i in 0..n
            invariant
                n == frames.frames@.len(),
        {
            let mut released = match hw.decoder.decode(&frames.frames[i].data) {
                Ok(v) => v,
                Err(e) => {
                    return Err(e);
                },
            };
            images.append(&mut released);
        }
        finish_batch(&images, rgb)
    }
}

/// The last-wins policy, stated over any decoded batch: what a batch
/// renders is exactly the conversion of its last image, never an
/// accumulation of earlier ones, and a batch with no image renders
/// nothing.
pub proof fn lemma_last_wins(images: Seq<Image>, prefix: Seq<Image>, img: Image)
    requires
        images == prefix.push(img),
    ensures
        spec_last_image(images) == Some(img),
        spec_last_image(prefix.push(img)) == spec_last_image(seq![img]),
{
    assert(images.last() == img);
    assert(seq![img].last() == img);
}

} // verus!
