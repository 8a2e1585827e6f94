use scrap::codec_info::{CodecInfo, DataFormat, HwDeviceKind};
use scrap::config::{check_hwcodec_config, CapabilityProbe, ConfigStore, HwOption};

fn info(name: &str, format: DataFormat, score: i32) -> CodecInfo {
    CodecInfo { name: name.to_string(), hwdevice: HwDeviceKind::Vaapi, format, score }
}

#[test]
fn probe_writes_then_answers_from_cache() {
    let mut probe = CapabilityProbe::new(
        ConfigStore::empty(),
        vec![info("h264_vaapi", DataFormat::H264, 80)],
        vec![],
    );
    let (first, refreshed_first) = probe.best_encoders(false, true);
    assert!(refreshed_first);
    let (second, refreshed_second) = probe.best_encoders(false, false);
    assert!(!refreshed_second);
    assert_eq!(first, second);
    assert_eq!(second.h264.as_ref().unwrap().name, "h264_vaapi");
}

#[test]
fn probe_without_write_leaves_no_cache() {
    let mut probe = CapabilityProbe::new(
        ConfigStore::empty(),
        vec![info("h264_vaapi", DataFormat::H264, 80)],
        vec![],
    );
    let (_, refreshed_first) = probe.best_encoders(false, false);
    assert!(refreshed_first);
    let (_, refreshed_second) = probe.best_encoders(false, false);
    // Nothing was cached, so the second probe still re-scores.
    assert!(refreshed_second);
}

#[test]
fn forced_probe_ignores_cache() {
    let mut probe = CapabilityProbe::new(
        ConfigStore::empty(),
        vec![info("h264_vaapi", DataFormat::H264, 80)],
        vec![],
    );
    probe.best_encoders(false, true);
    let (_, refreshed) = probe.best_encoders(true, true);
    assert!(refreshed);
}

#[test]
fn check_config_heals_missing_entries() {
    let mut probe = CapabilityProbe::new(
        ConfigStore::empty(),
        vec![info("h264_vaapi", DataFormat::H264, 80)],
        vec![info("hevc", DataFormat::H265, 60)],
    );
    probe.check_config();
    let (_, enc_refreshed) = probe.best_encoders(false, false);
    let (_, dec_refreshed) = probe.best_decoders(false, false);
    assert!(!enc_refreshed);
    assert!(!dec_refreshed);
}

#[test]
fn check_config_leaves_a_full_store_alone() {
    let mut probe = CapabilityProbe::new(
        ConfigStore::empty(),
        vec![info("h264_vaapi", DataFormat::H264, 80)],
        vec![],
    );
    probe.best_encoders(false, true);
    probe.best_decoders(false, true);
    let enc_entry = probe.store.best_hw_encoders.clone();
    probe.check_config();
    assert_eq!(probe.store.best_hw_encoders, enc_entry);
}

#[test]
fn check_config_heals_corrupt_entry() {
    let mut probe = CapabilityProbe::new(
        ConfigStore::empty(),
        vec![info("h264_vaapi", DataFormat::H264, 80)],
        vec![],
    );
    probe.best_encoders(false, true);
    probe.best_decoders(false, true);
    // A corrupt entry parses as a miss and gets rewritten.
    probe.store.best_hw_encoders = Some(vec![1, 2, 3]);
    probe.check_config();
    let (best, refreshed) = probe.best_encoders(false, false);
    assert!(!refreshed);
    assert_eq!(best.h264.unwrap().name, "h264_vaapi");
}

#[test]
fn hwcodec_option_gates_capability() {
    let mut store = ConfigStore::empty();
    assert!(check_hwcodec_config(&store));
    store.enable_hwcodec = Some(HwOption::Allow);
    assert!(check_hwcodec_config(&store));
    store.enable_hwcodec = Some(HwOption::Deny);
    assert!(!check_hwcodec_config(&store));
}
