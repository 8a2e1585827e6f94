use scrap::capture::{CaptureError, Capturer, Display, DisplayInfo, Rect};
use scrap::codec_info::{CodecInfo, DataFormat, HwDeviceKind};
use scrap::config::{CapabilityProbe, ConfigStore};
use scrap::convert::{i420_to_bgra, RawFrame};
use scrap::decoder::{finish_batch, Decoder, DecoderApi, DecoderCfg, HwDecoder, Image, VpxDecoderConfig};
use scrap::encoder::{CodecFormat, Encoder, EncoderApi, EncoderCfg};
use scrap::error::CodecError;
use scrap::message::{EncodedVideoFrame, EncodedVideoFrames, VideoFrameUnion};
use scrap::negotiate::NegotiationState;
use scrap::yuv::YuvMeta;

struct EchoEnc;

impl EncoderApi for EchoEnc {
    fn new(_cfg: &EncoderCfg) -> Result<Self, CodecError> {
        Ok(EchoEnc)
    }

    fn encode(
        &mut self,
        yuv: &[u8],
        _yuv_cfg: &YuvMeta,
        pts: i64,
    ) -> Result<Vec<EncodedVideoFrame>, CodecError> {
        Ok(vec![EncodedVideoFrame { data: yuv.to_vec(), pts }])
    }

    fn set_bitrate(&mut self, _bitrate: u32) -> Result<(), CodecError> {
        Ok(())
    }
}

struct FailingEnc;

impl EncoderApi for FailingEnc {
    fn new(_cfg: &EncoderCfg) -> Result<Self, CodecError> {
        Err(CodecError::BackendConstructionFailed)
    }

    fn encode(
        &mut self,
        _yuv: &[u8],
        _yuv_cfg: &YuvMeta,
        _pts: i64,
    ) -> Result<Vec<EncodedVideoFrame>, CodecError> {
        Err(CodecError::BackendCallFailed)
    }

    fn set_bitrate(&mut self, _bitrate: u32) -> Result<(), CodecError> {
        Err(CodecError::BackendCallFailed)
    }
}

fn cfg(format: CodecFormat, use_hwcodec: bool) -> EncoderCfg {
    EncoderCfg {
        codec_name: String::new(),
        codec_format: format,
        use_hwcodec,
        width: 2,
        height: 2,
        timebase: [1, 30],
        bitrate: 1000,
        num_threads: 1,
    }
}

fn empty_probe() -> CapabilityProbe {
    CapabilityProbe::new(ConfigStore::empty(), vec![], vec![])
}

#[test]
fn message_variant_matches_configured_format() {
    let mut probe = empty_probe();
    let raw = [10u8; 16];
    let mut enc: Encoder<EchoEnc, EchoEnc> =
        Encoder::new(cfg(CodecFormat::VP9, false), &mut probe).unwrap();
    let msg = enc.encode_to_message(RawFrame::BGRA(&raw), 5).unwrap();
    assert!(matches!(msg.video_frame.union, VideoFrameUnion::Vp9s(_)));

    let mut enc265: Encoder<EchoEnc, EchoEnc> =
        Encoder::new(cfg(CodecFormat::H265, true), &mut probe).unwrap();
    let msg265 = enc265.encode_to_message(RawFrame::RGBA(&raw), 6).unwrap();
    match msg265.video_frame.union {
        VideoFrameUnion::H265s(b) => {
            assert_eq!(b.frames.len(), 1);
            assert_eq!(b.frames[0].pts, 6);
        }
        _ => panic!("wrong variant"),
    }

    let mut enc264: Encoder<EchoEnc, EchoEnc> =
        Encoder::new(cfg(CodecFormat::H264, true), &mut probe).unwrap();
    let msg264 = enc264.encode_to_message(RawFrame::RGBA(&raw), 7).unwrap();
    assert!(matches!(msg264.video_frame.union, VideoFrameUnion::H264s(_)));
}

#[test]
fn unsupported_combinations_are_rejected() {
    let mut probe = empty_probe();
    assert!(matches!(
        Encoder::<EchoEnc, EchoEnc>::new(cfg(CodecFormat::VP8, false), &mut probe),
        Err(CodecError::UnsupportedCodec)
    ));
    assert!(matches!(
        Encoder::<EchoEnc, EchoEnc>::new(cfg(CodecFormat::H264, false), &mut probe),
        Err(CodecError::UnsupportedCodec)
    ));
    assert!(matches!(
        Encoder::<EchoEnc, EchoEnc>::new(cfg(CodecFormat::VP9, true), &mut probe),
        Err(CodecError::UnsupportedCodec)
    ));
}

#[test]
fn vp8_has_no_message_variant() {
    assert!(matches!(
        scrap::encoder::wrap_frames(CodecFormat::VP8, vec![]),
        Err(CodecError::UnsupportedCodec)
    ));
}

#[test]
fn failed_software_backend_reports_construction_failure() {
    let mut probe = empty_probe();
    assert!(matches!(
        Encoder::<FailingEnc, EchoEnc>::new(cfg(CodecFormat::VP9, false), &mut probe),
        Err(CodecError::BackendConstructionFailed)
    ));
}

#[test]
fn failed_hardware_backend_forces_reprobe_and_fails() {
    let mut probe = empty_probe();
    assert!(probe.store.best_hw_encoders.is_none());
    assert!(matches!(
        Encoder::<EchoEnc, FailingEnc>::new(cfg(CodecFormat::H264, true), &mut probe),
        Err(CodecError::UnsupportedCodec)
    ));
    // The failed build forced a fresh probe that rewrote the cache.
    assert!(probe.store.best_hw_encoders.is_some());
}

// A scripted decode engine: each decode call releases the next planned
// batch of images, the flush releases the rest.
struct ScriptDec {
    per_call: Vec<Vec<Image>>,
    pos: usize,
    on_flush: Vec<Image>,
}

impl DecoderApi for ScriptDec {
    fn new_vpx(_cfg: &VpxDecoderConfig) -> Result<Self, CodecError> {
        Ok(ScriptDec { per_call: vec![], pos: 0, on_flush: vec![] })
    }

    fn new_hw(_info: &CodecInfo) -> Result<Self, CodecError> {
        Ok(ScriptDec { per_call: vec![], pos: 0, on_flush: vec![] })
    }

    fn decode(&mut self, _data: &Vec<u8>) -> Result<Vec<Image>, CodecError> {
        let out = if self.pos < self.per_call.len() {
            std::mem::take(&mut self.per_call[self.pos])
        } else {
            vec![]
        };
        self.pos += 1;
        Ok(out)
    }

    fn flush(&mut self) -> Result<Vec<Image>, CodecError> {
        Ok(std::mem::take(&mut self.on_flush))
    }
}

fn solid_image(w: usize, h: usize, y: u8, u: u8, v: u8) -> Image {
    let cw = (w + 1) / 2;
    let ch = (h + 1) / 2;
    let mut data = vec![y; w * h];
    data.extend(vec![u; cw * ch]);
    data.extend(vec![v; cw * ch]);
    Image { width: w, height: h, data }
}

fn frame_bytes(b: u8) -> EncodedVideoFrame {
    EncodedVideoFrame { data: vec![b], pts: 0 }
}

#[test]
fn last_decoded_frame_wins() {
    let img_a = solid_image(2, 2, 16, 128, 128);
    let img_b = solid_image(2, 2, 100, 90, 200);
    let img_c = solid_image(2, 2, 235, 128, 128);
    let mut dec = ScriptDec {
        per_call: vec![vec![img_a], vec![img_b]],
        pos: 0,
        on_flush: vec![img_c],
    };
    let batch = EncodedVideoFrames { frames: vec![frame_bytes(1), frame_bytes(2)] };
    let mut rgb = Vec::new();
    let got = Decoder::<ScriptDec>::handle_vp9s_video_frame(&mut dec, &batch, &mut rgb).unwrap();
    assert!(got);
    // The output is the rendering of the flush-released image alone.
    let mut expected = Vec::new();
    i420_to_bgra(2, 2, &solid_image(2, 2, 235, 128, 128).data, &mut expected);
    assert_eq!(rgb, expected);
}

#[test]
fn empty_batch_returns_false_and_leaves_buffer() {
    let mut dec = ScriptDec { per_call: vec![], pos: 0, on_flush: vec![] };
    let batch = EncodedVideoFrames { frames: vec![frame_bytes(1)] };
    let mut rgb = vec![9u8, 9, 9];
    let got = Decoder::<ScriptDec>::handle_vp9s_video_frame(&mut dec, &batch, &mut rgb).unwrap();
    assert!(!got);
    assert_eq!(rgb, vec![9u8, 9, 9]);
}

#[test]
fn malformed_surviving_image_is_a_failed_call() {
    let bad = Image { width: 2, height: 2, data: vec![0u8] };
    let mut rgb = vec![1u8];
    assert_eq!(
        finish_batch(&vec![bad], &mut rgb),
        Err(CodecError::BackendCallFailed)
    );
    assert_eq!(rgb, vec![1u8]);
}

#[test]
fn hardware_variant_without_decoder_is_unsupported() {
    let mut probe = empty_probe();
    let mut neg = NegotiationState::new();
    let mut dec: Decoder<ScriptDec> = Decoder::new(
        DecoderCfg { vpx: VpxDecoderConfig { num_threads: 1 } },
        &mut probe,
        &mut neg,
    )
    .unwrap();
    let batch = EncodedVideoFrames { frames: vec![frame_bytes(1)] };
    let mut rgb = Vec::new();
    assert_eq!(
        dec.handle_video_frame(&VideoFrameUnion::H264s(batch), &mut rgb),
        Err(CodecError::UnsupportedFrameVariant)
    );
}

// A decode engine whose hardware construction always fails.
struct NoHwDec;

impl DecoderApi for NoHwDec {
    fn new_vpx(_cfg: &VpxDecoderConfig) -> Result<Self, CodecError> {
        Ok(NoHwDec)
    }

    fn new_hw(_info: &CodecInfo) -> Result<Self, CodecError> {
        Err(CodecError::BackendConstructionFailed)
    }

    fn decode(&mut self, _data: &Vec<u8>) -> Result<Vec<Image>, CodecError> {
        Ok(vec![])
    }

    fn flush(&mut self) -> Result<Vec<Image>, CodecError> {
        Ok(vec![])
    }
}

fn h264_dec_info() -> CodecInfo {
    CodecInfo {
        name: "h264_dec".to_string(),
        hwdevice: HwDeviceKind::Vaapi,
        format: DataFormat::H264,
        score: 300,
    }
}

#[test]
fn building_decoders_writes_the_decoder_cache() {
    let mut probe = CapabilityProbe::new(ConfigStore::empty(), vec![], vec![h264_dec_info()]);
    assert!(probe.store.best_hw_decoders.is_none());
    let hw = HwDecoder::<ScriptDec>::new_decoders(&mut probe);
    assert_eq!(hw.h264.unwrap().info.name, "h264_dec");
    assert!(hw.h265.is_none());
    // The cache miss was healed with the scored probe result.
    assert!(probe.store.best_hw_decoders.is_some());
    let cached = probe.get_config(scrap::config::CfgKey::Decoder).unwrap();
    assert_eq!(cached.h264.unwrap().name, "h264_dec");
}

#[test]
fn failed_decoder_build_still_rewrites_the_cache() {
    let mut probe = CapabilityProbe::new(ConfigStore::empty(), vec![], vec![h264_dec_info()]);
    let hw = HwDecoder::<NoHwDec>::new_decoders(&mut probe);
    assert!(hw.h264.is_none());
    // The carried descriptor failed to build: the cache was force-rewritten.
    assert!(probe.store.best_hw_decoders.is_some());
}

#[test]
fn decoder_lifecycle_drives_reported_capability() {
    let dec_info = CodecInfo {
        name: "h264_dec".to_string(),
        hwdevice: HwDeviceKind::Vaapi,
        format: DataFormat::H264,
        score: 300,
    };
    let mut probe = CapabilityProbe::new(ConfigStore::empty(), vec![], vec![dec_info]);
    let mut neg = NegotiationState::new();
    let dec: Decoder<ScriptDec> = Decoder::new(
        DecoderCfg { vpx: VpxDecoderConfig { num_threads: 1 } },
        &mut probe,
        &mut neg,
    )
    .unwrap();
    let live = neg.video_codec_state(&probe.store);
    assert_eq!(live.score_vpx, scrap::SCORE_VPX);
    assert_eq!(live.score_h264, 300);
    assert_eq!(live.score_h265, 0);
    // Destroying the decoder stops advertising hardware decode capability.
    dec.destroy(&mut neg);
    let gone = neg.video_codec_state(&probe.store);
    assert_eq!(gone.score_vpx, scrap::SCORE_VPX);
    assert_eq!(gone.score_h264, 0);
    assert_eq!(gone.score_h265, 0);
}

#[test]
fn primary_display_selection() {
    let d = |is_default: bool, w: i32| {
        Display(DisplayInfo { rect: Rect { x: 0, y: 0, w, h: 100 }, is_default })
    };
    let displays = vec![d(false, 1), d(true, 2), d(true, 3)];
    assert_eq!(Display::primary(&displays).unwrap().width(), 2);
    let no_default = vec![d(false, 7), d(false, 8)];
    assert_eq!(Display::primary(&no_default).unwrap().width(), 7);
    assert_eq!(Display::primary(&vec![]), Err(CaptureError::NotFound));
}

#[test]
fn capturer_hands_back_deposited_frames() {
    let display = Display(DisplayInfo {
        rect: Rect { x: 0, y: 0, w: 2, h: 2 },
        is_default: true,
    });
    let mut cap = Capturer::new(display).unwrap();
    assert_eq!(cap.width(), 2);
    assert_eq!(cap.height(), 2);
    assert_eq!(
        cap.frame().err(),
        Some(CaptureError::WouldBlock)
    );
    cap.set_frame_data(vec![5u8; 16]);
    match cap.frame().unwrap() {
        RawFrame::BGRA(b) => assert_eq!(b, &[5u8; 16][..]),
        _ => panic!("expected a BGRA frame"),
    }
}
