use scrap::yuv::{get_yuv_stride, YuvFormat, YuvMeta};
use scrap::STRIDE_ALIGN;

#[test]
fn plan_full_hd_exact_values() {
    let m = YuvMeta::new(YuvFormat::I420, 1920, 1080);
    assert_eq!(m.stride[0], 1920);
    assert_eq!(m.stride[1], 960);
    assert_eq!(m.offset[0], 1920 * 1080);
    assert_eq!(m.offset[1], 1920 * 1080 + 960 * 540);
    assert_eq!(m.length, 1920 * 1080 + 2 * 960 * 540);
}

#[test]
fn plan_odd_dimensions_align_and_cover() {
    let m = YuvMeta::new(YuvFormat::I420, 7, 5);
    assert_eq!(m.stride[0], 64);
    assert_eq!(m.stride[1], 64);
    assert_eq!(m.offset[0], 64 * 5);
    assert_eq!(m.offset[1], 64 * 5 + 64 * 3);
    assert_eq!(m.length, 64 * 5 + 2 * 64 * 3);
}

#[test]
fn plan_strides_are_multiples_of_alignment() {
    for (w, h) in [(1usize, 1usize), (638, 479), (1920, 1080), (8192, 8192)] {
        let m = YuvMeta::new(YuvFormat::I420, w, h);
        assert_eq!(m.stride[0] % STRIDE_ALIGN, 0);
        assert_eq!(m.stride[1] % STRIDE_ALIGN, 0);
        assert!(m.stride[0] >= w);
        let rows = (h + 1) / 2;
        assert!(m.length >= m.stride[0] * h);
        assert!(m.length >= m.offset[0] + m.stride[1] * rows);
        assert!(m.length >= m.offset[1] + m.stride[1] * rows);
    }
}

#[test]
fn plan_nv12_single_chroma_plane() {
    let (stride, offset, length) = get_yuv_stride(&YuvFormat::NV12, 640, 480, 64);
    assert_eq!(stride[0], 640);
    assert_eq!(stride[1], 640);
    assert_eq!(offset[0], 640 * 480);
    assert_eq!(offset[1], 640 * 480);
    assert_eq!(length, 640 * 480 + 640 * 240);
}

#[test]
fn plan_is_deterministic() {
    let a = get_yuv_stride(&YuvFormat::I420, 1366, 768, 64);
    let b = get_yuv_stride(&YuvFormat::I420, 1366, 768, 64);
    assert_eq!(a.0, b.0);
    assert_eq!(a.1, b.1);
    assert_eq!(a.2, b.2);
}

#[test]
fn plan_zero_height_is_empty() {
    let m = YuvMeta::new(YuvFormat::I420, 1920, 0);
    assert_eq!(m.offset[0], 0);
    assert_eq!(m.length, 0);
}
