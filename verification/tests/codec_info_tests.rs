use scrap::codec_info::{CodecInfo, CodecInfos, DataFormat, HwDeviceKind};
use scrap::error::CodecError;

fn info(name: &str, dev: HwDeviceKind, format: DataFormat, score: i32) -> CodecInfo {
    CodecInfo { name: name.to_string(), hwdevice: dev, format, score }
}

#[test]
fn score_keeps_highest_per_format() {
    let best = CodecInfo::score(vec![
        info("h264_low", HwDeviceKind::Vaapi, DataFormat::H264, 70),
        info("hevc_hw", HwDeviceKind::Cuda, DataFormat::H265, 80),
        info("h264_high", HwDeviceKind::Cuda, DataFormat::H264, 94),
    ]);
    assert_eq!(best.h264.unwrap().name, "h264_high");
    assert_eq!(best.h265.unwrap().name, "hevc_hw");
}

#[test]
fn score_earlier_entry_wins_tie() {
    let best = CodecInfo::score(vec![
        info("first", HwDeviceKind::Dxva2, DataFormat::H264, 90),
        info("second", HwDeviceKind::D3d11, DataFormat::H264, 90),
    ]);
    assert_eq!(best.h264.unwrap().name, "first");
}

#[test]
fn score_empty_probe_has_no_entries() {
    let best = CodecInfo::score(vec![]);
    assert!(best.h264.is_none());
    assert!(best.h265.is_none());
}

#[test]
fn serialize_round_trip_both_entries() {
    let v = CodecInfos {
        h264: Some(info("h264_nvenc", HwDeviceKind::Cuda, DataFormat::H264, 94)),
        h265: Some(info("hevc_v\u{00e4}\u{2713}", HwDeviceKind::VideoToolbox, DataFormat::H265, -3)),
    };
    let bytes = v.serialize();
    let back = CodecInfos::deserialize(&bytes).unwrap();
    assert_eq!(back, v);
}

#[test]
fn serialize_round_trip_empty_bundle() {
    let v = CodecInfos { h264: None, h265: None };
    let bytes = v.serialize();
    assert_eq!(bytes, vec![0u8, 0u8]);
    let back = CodecInfos::deserialize(&bytes).unwrap();
    assert_eq!(back, v);
}

#[test]
fn serialize_round_trip_one_entry_empty_name() {
    let v = CodecInfos {
        h264: None,
        h265: Some(info("", HwDeviceKind::NoDevice, DataFormat::H265, i32::MIN)),
    };
    let back = CodecInfos::deserialize(&v.serialize()).unwrap();
    assert_eq!(back, v);
}

#[test]
fn deserialize_rejects_garbage() {
    assert_eq!(
        CodecInfos::deserialize(&vec![9u8, 9u8, 9u8]),
        Err(CodecError::CapabilityCacheUnavailable)
    );
    assert_eq!(
        CodecInfos::deserialize(&Vec::new()),
        Err(CodecError::CapabilityCacheUnavailable)
    );
    // A valid bundle with trailing bytes is not a serialization.
    let v = CodecInfos { h264: None, h265: None };
    let mut bytes = v.serialize();
    bytes.push(0);
    assert_eq!(
        CodecInfos::deserialize(&bytes),
        Err(CodecError::CapabilityCacheUnavailable)
    );
}
