use scrap::codec_info::{CodecInfo, DataFormat, HwDeviceKind};
use scrap::config::{CapabilityProbe, ConfigStore, HwOption};
use scrap::message::VideoCodecState;
use scrap::negotiate::{EncoderUpdate, NegotiationState};

fn enc_info(name: &str, format: DataFormat, score: i32) -> CodecInfo {
    CodecInfo { name: name.to_string(), hwdevice: HwDeviceKind::Cuda, format, score }
}

fn probe_with(encoders: Vec<CodecInfo>) -> CapabilityProbe {
    CapabilityProbe::new(ConfigStore::empty(), encoders, vec![])
}

fn state(vpx: i32, h264: i32, h265: i32) -> VideoCodecState {
    VideoCodecState { score_vpx: vpx, score_h264: h264, score_h265: h265 }
}

#[test]
fn one_peer_reporting_zero_disables_h264() {
    let mut probe = probe_with(vec![enc_info("h264_hw", DataFormat::H264, 500)]);
    let mut neg = NegotiationState::new();
    neg.update_video_encoder(&mut probe, 1, EncoderUpdate::State(state(90, 50, 0)));
    // With the one capable peer alone, the aggregate favours hardware,
    // and the probe has cached its scored encoders on the way.
    assert_eq!(neg.current_encoder_name, Some("h264_hw".to_string()));
    assert!(probe.store.best_hw_encoders.is_some());
    // A second peer that cannot decode H264 vetoes it, whatever the scores.
    neg.update_video_encoder(&mut probe, 2, EncoderUpdate::State(state(90, 0, 0)));
    assert_eq!(neg.current_encoder_name, None);
}

#[test]
fn tie_break_prefers_h265() {
    let mut probe = probe_with(vec![
        enc_info("h264_hw", DataFormat::H264, 60),
        enc_info("h265_hw", DataFormat::H265, 70),
    ]);
    let mut neg = NegotiationState::new();
    // score_vpx = 90 + 10, score_h264 = 60 + 40, score_h265 = 70 + 30: all 100.
    neg.update_video_encoder(&mut probe, 7, EncoderUpdate::State(state(10, 40, 30)));
    assert_eq!(neg.current_encoder_name, Some("h265_hw".to_string()));
}

#[test]
fn no_peers_selects_software() {
    let mut probe = probe_with(vec![enc_info("h264_hw", DataFormat::H264, 500)]);
    let mut neg = NegotiationState::new();
    neg.update_video_encoder(&mut probe, 1, EncoderUpdate::State(state(90, 100, 0)));
    assert!(neg.current_encoder_name.is_some());
    neg.update_video_encoder(&mut probe, 1, EncoderUpdate::Remove);
    assert_eq!(neg.current_encoder_name, None);
    assert_eq!(neg.peers.len(), 0);
}

#[test]
fn silent_peer_defaults_to_hardware_disabled() {
    let mut probe = probe_with(vec![enc_info("h264_hw", DataFormat::H264, 500)]);
    let mut neg = NegotiationState::new();
    neg.update_video_encoder(&mut probe, 1, EncoderUpdate::State(state(90, 100, 0)));
    assert_eq!(neg.current_encoder_name, Some("h264_hw".to_string()));
    // A peer that connected but never reported counts as hardware-disabled.
    neg.update_video_encoder(&mut probe, 2, EncoderUpdate::DisableHwIfNotExist);
    assert_eq!(neg.current_encoder_name, None);
    // The default entry does not replace a real report.
    neg.update_video_encoder(&mut probe, 1, EncoderUpdate::DisableHwIfNotExist);
    assert_eq!(neg.peers.iter().find(|p| p.0 == 1).unwrap().1, state(90, 100, 0));
}

#[test]
fn denied_hwcodec_hides_selection_and_capability() {
    let mut probe = probe_with(vec![enc_info("h264_hw", DataFormat::H264, 500)]);
    let mut neg = NegotiationState::new();
    neg.update_video_encoder(&mut probe, 1, EncoderUpdate::State(state(90, 100, 100)));
    assert!(neg.current_encoder_name.is_some());
    neg.my_decoder_state = state(90, 300, 200);
    let mut store = scrap::config::ConfigStore::empty();
    store.enable_hwcodec = Some(HwOption::Deny);
    // With hardware codec use denied, neither the selection nor any
    // hardware decode capability is reported.
    assert_eq!(neg.current_hw_encoder_name(&store), None);
    assert_eq!(neg.video_codec_state(&store), state(scrap::SCORE_VPX, 0, 0));
    // With it allowed, both come through as recorded.
    assert_eq!(
        neg.current_hw_encoder_name(&probe.store),
        Some("h264_hw".to_string())
    );
    assert_eq!(neg.video_codec_state(&probe.store), state(90, 300, 200));
}

#[test]
fn replacing_a_report_keeps_one_entry_per_peer() {
    let mut probe = probe_with(vec![]);
    let mut neg = NegotiationState::new();
    neg.update_video_encoder(&mut probe, 3, EncoderUpdate::State(state(90, 1, 1)));
    neg.update_video_encoder(&mut probe, 3, EncoderUpdate::State(state(90, 2, 2)));
    assert_eq!(neg.peers.len(), 1);
    assert_eq!(neg.peers[0].1, state(90, 2, 2));
}

#[test]
fn hardware_needs_aggregate_win() {
    // Hardware loses the aggregate comparison: peers love software.
    let mut probe = probe_with(vec![enc_info("h264_hw", DataFormat::H264, 10)]);
    let mut neg = NegotiationState::new();
    neg.update_video_encoder(&mut probe, 1, EncoderUpdate::State(state(500, 1, 0)));
    assert_eq!(neg.current_encoder_name, None);
}
