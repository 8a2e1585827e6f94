//! Planar YUV buffer planning: given a target layout, image dimensions and a
//! stride alignment, compute the plane strides, the chroma plane offsets and
//! the total buffer length a codec backend needs.

use vstd::prelude::*;
use vstd::arithmetic::div_mod::{
    lemma_fundamental_div_mod, lemma_mod_bound, lemma_mod_multiples_basic,
};
use vstd::arithmetic::mul::{lemma_mul_inequality, lemma_mul_is_commutative, lemma_mul_nonnegative};

verus! {

/// The planar layouts a backend may ask for: three-plane I420 (the default)
/// or two-plane NV12 with interleaved chroma.
#[derive(Clone, Copy, Debug, PartialEq, Eq, Structural)]
pub enum YuvFormat {
    I420,
    NV12,
}

impl Default for YuvFormat {
    fn default() -> (r: Self)
        ensures
            r == YuvFormat::I420,
    {
        YuvFormat::I420
    }
}

/// Largest width or height the planner accepts; keeps every plane product
/// inside `usize` on every machine the crate builds for.
pub const MAX_DIMENSION: usize = 8192;

/// Largest stride alignment the planner accepts.
pub const MAX_ALIGN: usize = 4096;

/// `x` rounded up to the next multiple of `a`.
pub open spec fn spec_align_up(x: int, a: int) -> int {
    ((x + a - 1) / a) * a
}

/// Rows of the chroma planes for an image of `h` rows (4:2:0 subsampling).
pub open spec fn spec_chroma_rows(h: int) -> int {
    (h + 1) / 2
}

/// Columns of one chroma plane for an image of `w` columns.
pub open spec fn spec_chroma_cols(w: int) -> int {
    (w + 1) / 2
}

pub proof fn lemma_align_up(x: int, a: int)
    requires
        0 <= x,
        1 <= a,
    ensures
        spec_align_up(x, a) % a == 0,
        x <= spec_align_up(x, a) <= x + a - 1,
{
    let s = x + a - 1;
    lemma_fundamental_div_mod(s, a);
    lemma_mod_bound(s, a);
    lemma_mod_multiples_basic(s / a, a);
    lemma_mul_is_commutative(s / a, a);
    assert(a * (s / a) == s - s % a);
}

/// Luma stride of the plan.
pub open spec fn spec_stride_y(w: int, a: int) -> int {
    spec_align_up(w, a)
}

/// Chroma stride of the plan: half-width rows for I420, interleaved
/// full-width rows for NV12.
pub open spec fn spec_stride_uv(format: YuvFormat, w: int, a: int) -> int {
    match format {
        YuvFormat::I420 => spec_align_up(spec_chroma_cols(w), a),
        YuvFormat::NV12 => spec_align_up(w, a),
    }
}

/// Offset of the first chroma plane: right after the luma plane.
pub open spec fn spec_offset_u(format: YuvFormat, w: int, h: int, a: int) -> int {
    spec_stride_y(w, a) * h
}

/// Offset of the second chroma plane. For NV12 the chroma samples are
/// interleaved in a single plane, so both offsets name that plane.
pub open spec fn spec_offset_v(format: YuvFormat, w: int, h: int, a: int) -> int {
    match format {
        YuvFormat::I420 => spec_offset_u(format, w, h, a) + spec_stride_uv(format, w, a)
            * spec_chroma_rows(h),
        YuvFormat::NV12 => spec_offset_u(format, w, h, a),
    }
}

/// Total bytes of the planned buffer.
pub open spec fn spec_plan_length(format: YuvFormat, w: int, h: int, a: int) -> int {
    spec_offset_v(format, w, h, a) + spec_stride_uv(format, w, a) * spec_chroma_rows(h)
}

/// A plan for one planar YUV buffer: row strides for the luma and chroma
/// planes, byte offsets of the two chroma planes, and the total length.
#[derive(Debug)]
pub struct YuvMeta {
    pub stride: [usize; 2],
    pub offset: [usize; 2],
    pub length: usize,
    pub format: YuvFormat,
}

/// The inputs the planner accepts.
pub open spec fn plan_inputs_ok(w: int, h: int, a: int) -> bool {
    &&& 0 <= w <= MAX_DIMENSION as int
    &&& 0 <= h <= MAX_DIMENSION as int
    &&& 1 <= a <= MAX_ALIGN as int
}

/// The plan `meta` is exactly what the planner computes for these inputs.
pub open spec fn plan_matches(meta: YuvMeta, format: YuvFormat, w: int, h: int, a: int) -> bool {
    &&& meta.format == format
    &&& meta.stride[0] == spec_stride_y(w, a)
    &&& meta.stride[1] == spec_stride_uv(format, w, a)
    &&& meta.offset[0] == spec_offset_u(format, w, h, a)
    &&& meta.offset[1] == spec_offset_v(format, w, h, a)
    &&& meta.length == spec_plan_length(format, w, h, a)
}

/// Every plane the plan describes fits inside `length`: the luma plane at
/// offset 0 with `h` rows, and each chroma plane with `(h + 1) / 2` rows.
pub open spec fn plan_covers_planes(meta: YuvMeta, h: int) -> bool {
    &&& meta.length >= meta.stride[0] * h
    &&& meta.length >= meta.offset[0] + meta.stride[1] * spec_chroma_rows(h)
    &&& meta.length >= meta.offset[1] + meta.stride[1] * spec_chroma_rows(h)
}

/// Both strides honour the requested alignment, and each row of samples fits
/// in its stride.
pub open spec fn plan_aligned(meta: YuvMeta, w: int, a: int) -> bool {
    &&& meta.stride[0] as int % a == 0
    &&& meta.stride[1] as int % a == 0
    &&& meta.stride[0] >= w
    &&& meta.stride[1] >= match meta.format {
        YuvFormat::I420 => spec_chroma_cols(w),
        YuvFormat::NV12 => w,
    }
}

/// Rounds `x` up to a multiple of `a`.
fn align_up(x: usize, a: usize) -> (r: usize)
    requires
        x <= MAX_DIMENSION,
        1 <= a <= MAX_ALIGN,
    ensures
        r == spec_align_up(x as int, a as int),
        x <= r <= x + a - 1,
        r % a == 0,
{
    proof {
        lemma_align_up(x as int, a as int);
    }
    ((x + a - 1) / a) * a
}

/// Computes the strides, chroma offsets and total length of a planar buffer
/// for `format` at `width` x `height` pixels, with every stride a multiple
/// of `align`. Pure: the same inputs always give the same plan.
pub fn get_yuv_stride(format: &YuvFormat, width: usize, height: usize, align: usize) -> (r: (
    [usize; 2],
    [usize; 2],
    usize,
))
    requires
        plan_inputs_ok(width as int, height as int, align as int),
    ensures
        r.0[0] == spec_stride_y(width as int, align as int),
        r.0[1] == spec_stride_uv(*format, width as int, align as int),
        r.1[0] == spec_offset_u(*format, width as int, height as int, align as int),
        r.1[1] == spec_offset_v(*format, width as int, height as int, align as int),
        r.2 == spec_plan_length(*format, width as int, height as int, align as int),
{
    let stride_y = align_up(width, align);
    let chroma_cols = (width + 1) / 2;
    let chroma_rows = (height + 1) / 2;
    let stride_uv = match format {
        YuvFormat::I420 => align_up(chroma_cols, align),
        YuvFormat::NV12 => align_up(width, align),
    };
    proof {
        lemma_mul_inequality(stride_y as int, (MAX_DIMENSION + MAX_ALIGN) as int, height as int);
        lemma_mul_nonnegative(stride_y as int, height as int);
        lemma_mul_inequality(stride_uv as int, (MAX_DIMENSION + MAX_ALIGN) as int, chroma_rows as int);
        lemma_mul_nonnegative(stride_uv as int, chroma_rows as int);
    }
    let offset_u = stride_y * height;
    let chroma_plane = stride_uv * chroma_rows;
    match format {
        YuvFormat::I420 => {
            let offset_v = offset_u + chroma_plane;
            (
                [stride_y, stride_uv],
                [offset_u, offset_v],
                offset_v + chroma_plane,
            )
        },
        YuvFormat::NV12 => {
            (
                [stride_y, stride_uv],
                [offset_u, offset_u],
                offset_u + chroma_plane,
            )
        },
    }
}

impl YuvMeta {
    /// Builds the plan for `format` at the given dimensions, with the
    /// crate-wide stride alignment. The plan covers every plane it
    /// describes and both strides honour the alignment.
    pub fn new(format: YuvFormat, width: usize, height: usize) -> (r: YuvMeta)
        requires
            width <= MAX_DIMENSION,
            height <= MAX_DIMENSION,
        ensures
            plan_matches(r, format, width as int, height as int, crate::STRIDE_ALIGN as int),
            plan_covers_planes(r, height as int),
            plan_aligned(r, width as int, crate::STRIDE_ALIGN as int),
    {
        let res = get_yuv_stride(&format, width, height, crate::STRIDE_ALIGN);
        proof {
            lemma_mul_nonnegative(
                spec_stride_uv(format, width as int, crate::STRIDE_ALIGN as int),
                spec_chroma_rows(height as int),
            );
        }
        YuvMeta { stride: res.0, offset: res.1, length: res.2, format }
    }
}

/// The plan invariant holds of every plan the planner can produce: the
/// buffer length covers each plane, and the strides honour the alignment.
pub proof fn lemma_plan_well_formed(meta: YuvMeta, format: YuvFormat, w: int, h: int, a: int)
    requires
        plan_inputs_ok(w, h, a),
        plan_matches(meta, format, w, h, a),
    ensures
        plan_covers_planes(meta, h),
        plan_aligned(meta, w, a),
{
    lemma_align_up(w, a);
    lemma_align_up(spec_chroma_cols(w), a);
    lemma_mul_nonnegative(spec_stride_uv(format, w, a), spec_chroma_rows(h));
}

} // verus!
