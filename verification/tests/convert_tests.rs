use scrap::convert::{bgra_to_i420, i420_to_bgra, rgba_to_i420, RawFrame};
use scrap::error::CodecError;
use scrap::yuv::{YuvFormat, YuvMeta};

#[test]
fn white_pixel_converts_to_expected_i420() {
    let meta = YuvMeta::new(YuvFormat::I420, 1, 1);
    let raw = [255u8, 255, 255, 255];
    let mut yuv = Vec::new();
    rgba_to_i420(1, 1, &raw, &mut yuv, &meta);
    assert_eq!(yuv.len(), meta.length);
    assert_eq!(yuv[0], 235);
    assert_eq!(yuv[meta.offset[0]], 128);
    assert_eq!(yuv[meta.offset[1]], 128);
}

#[test]
fn red_pixel_swaps_between_rgba_and_bgra() {
    let meta = YuvMeta::new(YuvFormat::I420, 1, 1);
    let red_rgba = [255u8, 0, 0, 255];
    let red_bgra = [0u8, 0, 255, 255];
    let mut a = Vec::new();
    let mut b = Vec::new();
    rgba_to_i420(1, 1, &red_rgba, &mut a, &meta);
    bgra_to_i420(1, 1, &red_bgra, &mut b, &meta);
    assert_eq!(a, b);
    // Y of pure red: (66 * 255 + 128) / 256 + 16 = 82.
    assert_eq!(a[0], 82);
}

#[test]
fn luma_lands_at_planned_strides() {
    let meta = YuvMeta::new(YuvFormat::I420, 3, 2);
    // Second row all white, first row all black.
    let mut raw = vec![0u8; 4 * 3 * 2];
    for px in 3..6 {
        raw[4 * px] = 255;
        raw[4 * px + 1] = 255;
        raw[4 * px + 2] = 255;
    }
    let mut yuv = Vec::new();
    rgba_to_i420(3, 2, &raw, &mut yuv, &meta);
    // Black: Y = 128 / 256 + 16 = 16; white: 235.
    assert_eq!(&yuv[0..3], &[16, 16, 16]);
    assert_eq!(&yuv[meta.stride[0]..meta.stride[0] + 3], &[235, 235, 235]);
}

#[test]
fn nv12_conversion_is_rejected() {
    let meta = YuvMeta::new(YuvFormat::NV12, 2, 2);
    let raw = [0u8; 16];
    let mut yuv = vec![7u8];
    let frame = RawFrame::RGBA(&raw);
    assert_eq!(
        frame.convert_into_yuv(2, 2, &mut yuv, &meta),
        Err(CodecError::UnsupportedCodec)
    );
    // The buffer is left untouched on a rejected combination.
    assert_eq!(yuv, vec![7u8]);
}

#[test]
fn planar_frame_is_left_to_the_caller() {
    let meta = YuvMeta::new(YuvFormat::I420, 2, 2);
    let raw = [0u8; 16];
    let mut yuv = Vec::new();
    let frame = RawFrame::YUV(&raw);
    assert_eq!(
        frame.convert_into_yuv(2, 2, &mut yuv, &meta),
        Err(CodecError::UnsupportedFrameVariant)
    );
}

#[test]
fn i420_renders_back_to_white_bgra() {
    // One white pixel in tight I420: y 235, u 128, v 128.
    let data = vec![235u8, 128, 128];
    let mut out = Vec::new();
    i420_to_bgra(1, 1, &data, &mut out);
    assert_eq!(out, vec![255u8, 255, 255, 255]);
}

#[test]
fn i420_renders_black_with_opaque_alpha() {
    let data = vec![16u8, 128, 128];
    let mut out = Vec::new();
    i420_to_bgra(1, 1, &data, &mut out);
    assert_eq!(out, vec![0u8, 0, 0, 255]);
}

#[test]
fn i420_render_clamps_out_of_range_samples() {
    // Maximal luma with strong red-difference overflows and must clamp.
    let data = vec![255u8, 128, 255];
    let mut out = Vec::new();
    i420_to_bgra(1, 1, &data, &mut out);
    // Blue: no u excess; red channel saturates at 255.
    assert_eq!(out[2], 255);
    assert_eq!(out[3], 255);
}
