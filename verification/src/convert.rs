//! Raw captured frames and the pixel kernels that turn an interleaved
//! RGBA/BGRA buffer into the planar I420 layout a codec backend consumes,
//! and a decoded I420 image back into interleaved BGRA.

use vstd::prelude::*;
use vstd::arithmetic::mul::{lemma_mul_inequality, lemma_mul_nonnegative};
use crate::error::CodecError;
use crate::yuv::{spec_chroma_cols, spec_chroma_rows, YuvFormat, YuvMeta};

verus! {

/// A captured frame as the capture collaborator hands it over: interleaved
/// four-byte pixels, or an already-planar YUV buffer.
pub enum RawFrame<'a> {
    RGBA(&'a [u8]),
    BGRA(&'a [u8]),
    YUV(&'a [u8]),
}

/// Flat index of row `r`, column `c` in a plane of the given stride.
pub open spec fn pix(r: int, c: int, stride: int) -> int {
    r * stride + c
}

/// The red sample of the interleaved pixel at (`r`, `c`); `swap` marks BGRA
/// byte order.
pub open spec fn spec_red(raw: Seq<u8>, w: int, swap: bool, r: int, c: int) -> int {
    if swap {
        raw[4 * pix(r, c, w) + 2] as int
    } else {
        raw[4 * pix(r, c, w)] as int
    }
}

pub open spec fn spec_green(raw: Seq<u8>, w: int, swap: bool, r: int, c: int) -> int {
    raw[4 * pix(r, c, w) + 1] as int
}

pub open spec fn spec_blue(raw: Seq<u8>, w: int, swap: bool, r: int, c: int) -> int {
    if swap {
        raw[4 * pix(r, c, w)] as int
    } else {
        raw[4 * pix(r, c, w) + 2] as int
    }
}

/// Integer BT.601 luma of one pixel, in 16..=235.
pub open spec fn spec_luma(r: int, g: int, b: int) -> int {
    (66 * r + 129 * g + 25 * b + 128) / 256 + 16
}

/// Integer BT.601 blue-difference chroma, biased to 16..=240.
pub open spec fn spec_cb(r: int, g: int, b: int) -> int {
    (32896 + 112 * b - 38 * r - 74 * g) / 256
}

/// Integer BT.601 red-difference chroma, biased to 16..=240.
pub open spec fn spec_cr(r: int, g: int, b: int) -> int {
    (32896 + 112 * r - 94 * g - 18 * b) / 256
}

/// Luma of the pixel at (`r`, `c`) of an interleaved buffer.
pub open spec fn luma_at(raw: Seq<u8>, w: int, swap: bool, r: int, c: int) -> int {
    spec_luma(
        spec_red(raw, w, swap, r, c),
        spec_green(raw, w, swap, r, c),
        spec_blue(raw, w, swap, r, c),
    )
}

/// Blue-difference chroma sampled at the top-left pixel of the 2x2 block
/// (`r`, `c`) of the chroma grid.
pub open spec fn cb_at(raw: Seq<u8>, w: int, swap: bool, r: int, c: int) -> int {
    spec_cb(
        spec_red(raw, w, swap, 2 * r, 2 * c),
        spec_green(raw, w, swap, 2 * r, 2 * c),
        spec_blue(raw, w, swap, 2 * r, 2 * c),
    )
}

pub open spec fn cr_at(raw: Seq<u8>, w: int, swap: bool, r: int, c: int) -> int {
    spec_cr(
        spec_red(raw, w, swap, 2 * r, 2 * c),
        spec_green(raw, w, swap, 2 * r, 2 * c),
        spec_blue(raw, w, swap, 2 * r, 2 * c),
    )
}

/// The plan describes a contiguous I420 buffer for `w` x `h` pixels: the
/// chroma planes follow the luma plane back to back, with room for every
/// sample.
pub open spec fn i420_plan_ok(meta: YuvMeta, w: int, h: int) -> bool {
    &&& meta.format == YuvFormat::I420
    &&& w <= meta.stride[0]
    &&& spec_chroma_cols(w) <= meta.stride[1]
    &&& meta.offset[0] == meta.stride[0] * h
    &&& meta.offset[1] == meta.offset[0] + meta.stride[1] * spec_chroma_rows(h)
    &&& meta.length == meta.offset[1] + meta.stride[1] * spec_chroma_rows(h)
}

/// The planar buffer carries exactly the converted samples of `raw` in the
/// plan's layout; padding bytes are zero.
pub open spec fn i420_of(yuv: Seq<u8>, raw: Seq<u8>, w: int, h: int, swap: bool, meta: YuvMeta) -> bool {
    let s0 = meta.stride[0] as int;
    let s1 = meta.stride[1] as int;
    let cw = spec_chroma_cols(w);
    let ch = spec_chroma_rows(h);
    &&& yuv.len() == meta.length
    &&& forall|r: int, c: int|
        0 <= r < h && 0 <= c < w ==> yuv[#[trigger] pix(r, c, s0)] as int == luma_at(
            raw,
            w,
            swap,
            r,
            c,
        )
    &&& forall|r: int, c: int|
        0 <= r < ch && 0 <= c < cw ==> yuv[meta.offset[0] + #[trigger] pix(r, c, s1)] as int
            == cb_at(raw, w, swap, r, c)
    &&& forall|r: int, c: int|
        0 <= r < ch && 0 <= c < cw ==> yuv[meta.offset[1] + #[trigger] pix(r, c, s1)] as int
            == cr_at(raw, w, swap, r, c)
}

/// Reads the red, green and blue samples of pixel (`r`, `c`).
fn read_rgb(raw: &[u8], w: usize, swap: bool, r: usize, c: usize) -> (t: (u8, u8, u8))
    requires
        r * w + c <= 0x4000000,
        4 * (r * w + c) + 4 <= raw@.len(),
    ensures
        t.0 as int == spec_red(raw@, w as int, swap, r as int, c as int),
        t.1 as int == spec_green(raw@, w as int, swap, r as int, c as int),
        t.2 as int == spec_blue(raw@, w as int, swap, r as int, c as int),
{
    let base = 4 * (r * w + c);
    let b0 = raw[base];
    let b1 = raw[base + 1];
    let b2 = raw[base + 2];
    if swap {
        (b2, b1, b0)
    } else {
        (b0, b1, b2)
    }
}

/// One pixel's luma byte.
fn luma_byte(r: u8, g: u8, b: u8) -> (y: u8)
    ensures
        y as int == spec_luma(r as int, g as int, b as int),
{
    let t: u32 = 66 * (r as u32) + 129 * (g as u32) + 25 * (b as u32) + 128;
    ((t / 256) + 16) as u8
}

/// One pixel's blue-difference chroma byte.
fn cb_byte(r: u8, g: u8, b: u8) -> (u: u8)
    ensures
        u as int == spec_cb(r as int, g as int, b as int),
{
    let t: u32 = 32896 + 112 * (b as u32) - (38 * (r as u32) + 74 * (g as u32));
    (t / 256) as u8
}

/// One pixel's red-difference chroma byte.
fn cr_byte(r: u8, g: u8, b: u8) -> (v: u8)
    ensures
        v as int == spec_cr(r as int, g as int, b as int),
{
    let t: u32 = 32896 + 112 * (r as u32) - (94 * (g as u32) + 18 * (b as u32));
    (t / 256) as u8
}

/// Fills `yuv` with the planar I420 conversion of the interleaved buffer
/// `raw`, laid out per `meta`; `swap` marks BGRA byte order. Writes exactly
/// `meta.length` bytes.
#[verifier::rlimit(100)]
fn interleaved_to_i420(
    width: usize,
    height: usize,
    raw: &[u8],
    swap: bool,
    yuv: &mut Vec<u8>,
    meta: &YuvMeta,
)
    requires
        width <= crate::yuv::MAX_DIMENSION,
        height <= crate::yuv::MAX_DIMENSION,
        meta.stride[0] <= crate::yuv::MAX_DIMENSION + crate::yuv::MAX_ALIGN,
        meta.stride[1] <= crate::yuv::MAX_DIMENSION + crate::yuv::MAX_ALIGN,
        i420_plan_ok(*meta, width as int, height as int),
        raw@.len() >= 4 * width * height,
    ensures
        i420_of(final(yuv)@, raw@, width as int, height as int, swap, *meta),
{
    let w = width;
    let h = height;
    let s0 = meta.stride[0];
    let s1 = meta.stride[1];
    let cw = (w + 1) / 2;
    let ch = (h + 1) / 2;
    let mut out: Vec<u8> = Vec::new();
    proof {
        lemma_mul_nonnegative(s0 as int, h as int);
        lemma_mul_nonnegative(s1 as int, ch as int);
        lemma_mul_inequality(s0 as int, 0x3000, h as int);
        lemma_mul_inequality(s1 as int, 0x3000, ch as int);
        assert(0 * (s0 as int) == 0) by (nonlinear_arith);
    }
    for r in 0..h
        invariant
            w <= crate::yuv::MAX_DIMENSION,
            h <= crate::yuv::MAX_DIMENSION,
            s0 == meta.stride[0] && s1 == meta.stride[1],
            s0 <= 0x3000 && s1 <= 0x3000,
            w <= s0,
            i420_plan_ok(*meta, w as int, h as int),
            raw@.len() >= 4 * w * h,
            out@.len() == r * s0,
            forall|rr: int, cc: int|
                0 <= rr < r && 0 <= cc < w ==> out@[#[trigger] pix(rr, cc, s0 as int)] as int
                    == luma_at(raw@, w as int, swap, rr, cc),
    {
        for c in 0..s0
            invariant
                w <= crate::yuv::MAX_DIMENSION,
                h <= crate::yuv::MAX_DIMENSION,
                r < h,
                s0 == meta.stride[0],
                s0 <= 0x3000,
                w <= s0,
                raw@.len() >= 4 * w * h,
                out@.len() == r * s0 + c,
                forall|rr: int, cc: int|
                    0 <= rr < r && 0 <= cc < w ==> out@[#[trigger] pix(rr, cc, s0 as int)] as int
                        == luma_at(raw@, w as int, swap, rr, cc),
                forall|cc: int|
                    0 <= cc < c && cc < w ==> out@[#[trigger] pix(r as int, cc, s0 as int)] as int
                        == luma_at(raw@, w as int, swap, r as int, cc),
        {
            if c < w {
                proof {
                    assert(4 * (r * w + c) + 4 <= 4 * w * h) by (nonlinear_arith)
                        requires
                            0 <= r < h && 0 <= c < w,
                    ;
                    assert(r * w + c <= 0x2000 * 0x2000) by (nonlinear_arith)
                        requires
                            0 <= r < h && 0 <= c < w && w <= 0x2000 && h <= 0x2000,
                    ;
                }
                let (pr, pg, pb) = read_rgb(raw, w, swap, r, c);
                out.push(luma_byte(pr, pg, pb));
            } else {
                out.push(0u8);
            }
            proof {
                assert(out@.len() == r * s0 + c + 1);
                assert forall|rr: int, cc: int|
                    0 <= rr < r && 0 <= cc < w implies out@[#[trigger] pix(rr, cc, s0 as int)]
                    as int == luma_at(raw@, w as int, swap, rr, cc) by {
                    assert(pix(rr, cc, s0 as int) < r * s0) by (nonlinear_arith)
                        requires
                            0 <= rr < r && 0 <= cc < w && w <= s0,
                    ;
                }
                assert forall|cc: int| 0 <= cc < c + 1 && cc < w implies out@[#[trigger] pix(
                    r as int,
                    cc,
                    s0 as int,
                )] as int == luma_at(raw@, w as int, swap, r as int, cc) by {}
            }
        }
        proof {
            assert((r + 1) * (s0 as int) == r * (s0 as int) + s0) by (nonlinear_arith);
        }
    }
    proof {
        assert(out@.len() == h * s0);
        assert(h * s0 == s0 * h) by (nonlinear_arith);
    }
    let ghost y_done = out@;
    fill_chroma_plane(width, height, raw, swap, &mut out, s1, false);
    let ghost u_done = out@;
    fill_chroma_plane(width, height, raw, swap, &mut out, s1, true);
    proof {
        assert(ch as int == spec_chroma_rows(h as int));
        assert(cw as int == spec_chroma_cols(w as int));
        assert(y_done.len() == meta.offset[0]);
        assert(u_done.len() == meta.offset[1]);
        assert(out@.len() == meta.length);
        assert forall|r: int, c: int| 0 <= r < h && 0 <= c < w implies out@[#[trigger] pix(
            r,
            c,
            s0 as int,
        )] as int == luma_at(raw@, w as int, swap, r, c) by {
            assert(pix(r, c, s0 as int) < h * s0) by (nonlinear_arith)
                requires
                    0 <= r < h && 0 <= c < w && w <= s0,
            ;
            assert(h * s0 == s0 * h) by (nonlinear_arith);
            assert(out@[pix(r, c, s0 as int)] == u_done[pix(r, c, s0 as int)]);
            assert(u_done[pix(r, c, s0 as int)] == y_done[pix(r, c, s0 as int)]);
        }
        assert forall|r: int, c: int|
            0 <= r < spec_chroma_rows(h as int) && 0 <= c < spec_chroma_cols(w as int) implies
            out@[meta.offset[0] + #[trigger] pix(r, c, s1 as int)] as int == cb_at(
            raw@,
            w as int,
            swap,
            r,
            c,
        ) by {
            assert(pix(r, c, s1 as int) < ch * s1) by (nonlinear_arith)
                requires
                    0 <= r < ch && 0 <= c < cw && cw <= s1,
            ;
            assert(ch * s1 == s1 * ch) by (nonlinear_arith);
            assert(out@[meta.offset[0] + pix(r, c, s1 as int)] == u_done[meta.offset[0] + pix(
                r,
                c,
                s1 as int,
            )]);
        }
    }
    *yuv = out;
}

/// Appends one chroma plane, row by row, sampling the top-left pixel of
/// each 2x2 block; `second` selects the red-difference plane.
fn fill_chroma_plane(
    width: usize,
    height: usize,
    raw: &[u8],
    swap: bool,
    out: &mut Vec<u8>,
    s1: usize,
    second: bool,
)
    requires
        width <= crate::yuv::MAX_DIMENSION,
        height <= crate::yuv::MAX_DIMENSION,
        s1 <= crate::yuv::MAX_DIMENSION + crate::yuv::MAX_ALIGN,
        spec_chroma_cols(width as int) <= s1,
        raw@.len() >= 4 * width * height,
        old(out)@.len() + s1 * spec_chroma_rows(height as int) <= usize::MAX,
    ensures
        final(out)@.len() == old(out)@.len() + s1 * spec_chroma_rows(height as int),
        forall|i: int| 0 <= i < old(out)@.len() ==> final(out)@[i] == old(out)@[i],
        forall|r: int, c: int|
            0 <= r < spec_chroma_rows(height as int) && 0 <= c < spec_chroma_cols(width as int)
                ==> final(out)@[old(out)@.len() + #[trigger] pix(r, c, s1 as int)] as int == (
            if second {
                cr_at(raw@, width as int, swap, r, c)
            } else {
                cb_at(raw@, width as int, swap, r, c)
            }),
{
    let w = width;
    let h = height;
    let cw = (w + 1) / 2;
    let ch = (h + 1) / 2;
    let base = out.len();
    proof {
        lemma_mul_nonnegative(s1 as int, ch as int);
        assert(0 * (s1 as int) == 0) by (nonlinear_arith);
    }
    for r in 0..ch
        invariant
            w <= crate::yuv::MAX_DIMENSION,
            h <= crate::yuv::MAX_DIMENSION,
            s1 <= 0x3000,
            cw == spec_chroma_cols(w as int),
            ch == spec_chroma_rows(h as int),
            cw <= s1,
            raw@.len() >= 4 * w * h,
            base == old(out)@.len(),
            base + s1 * ch <= usize::MAX,
            out@.len() == base + r * s1,
            forall|i: int| 0 <= i < base ==> out@[i] == old(out)@[i],
            forall|rr: int, cc: int|
                0 <= rr < r && 0 <= cc < cw ==> out@[base + #[trigger] pix(rr, cc, s1 as int)]
                    as int == (if second {
                    cr_at(raw@, w as int, swap, rr, cc)
                } else {
                    cb_at(raw@, w as int, swap, rr, cc)
                }),
    {
        proof {
            assert(r * s1 + s1 <= ch * s1) by (nonlinear_arith)
                requires
                    0 <= r < ch,
            ;
            assert(ch * s1 == s1 * ch) by (nonlinear_arith);
        }
        for c in 0..s1
            invariant
                w <= crate::yuv::MAX_DIMENSION,
                h <= crate::yuv::MAX_DIMENSION,
                r < ch,
                s1 <= 0x3000,
                cw == spec_chroma_cols(w as int),
                ch == spec_chroma_rows(h as int),
                cw <= s1,
                raw@.len() >= 4 * w * h,
                base == old(out)@.len(),
                base + r * s1 + s1 <= usize::MAX,
                out@.len() == base + r * s1 + c,
                forall|i: int| 0 <= i < base ==> out@[i] == old(out)@[i],
                forall|rr: int, cc: int|
                    0 <= rr < r && 0 <= cc < cw ==> out@[base + #[trigger] pix(rr, cc, s1 as int)]
                        as int == (if second {
                        cr_at(raw@, w as int, swap, rr, cc)
                    } else {
                        cb_at(raw@, w as int, swap, rr, cc)
                    }),
                forall|cc: int|
                    0 <= cc < c && cc < cw ==> out@[base + #[trigger] pix(r as int, cc, s1 as int)]
                        as int == (if second {
                        cr_at(raw@, w as int, swap, r as int, cc)
                    } else {
                        cb_at(raw@, w as int, swap, r as int, cc)
                    }),
        {
            if c < cw {
                let sr = 2 * r;
                let sc = 2 * c;
                proof {
                    assert(2 * r < h && 2 * c < w) by (nonlinear_arith)
                        requires
                            0 <= r < ch && 0 <= c < cw && ch == (h + 1) / 2 && cw == (w + 1) / 2
                                && h <= 0x2000 && w <= 0x2000,
                    ;
                    assert(4 * (sr * w + sc) + 4 <= 4 * w * h) by (nonlinear_arith)
                        requires
                            0 <= sr < h && 0 <= sc < w,
                    ;
                    assert(sr * w + sc <= 0x2000 * 0x2000) by (nonlinear_arith)
                        requires
                            0 <= sr < h && 0 <= sc < w && w <= 0x2000 && h <= 0x2000,
                    ;
                }
                let (pr, pg, pb) = read_rgb(raw, w, swap, sr, sc);
                if second {
                    out.push(cr_byte(pr, pg, pb));
                } else {
                    out.push(cb_byte(pr, pg, pb));
                }
            } else {
                out.push(0u8);
            }
            proof {
                assert forall|rr: int, cc: int|
                    0 <= rr < r && 0 <= cc < cw implies out@[base + #[trigger] pix(
                    rr,
                    cc,
                    s1 as int,
                )] as int == (if second {
                    cr_at(raw@, w as int, swap, rr, cc)
                } else {
                    cb_at(raw@, w as int, swap, rr, cc)
                }) by {
                    assert(pix(rr, cc, s1 as int) < r * s1) by (nonlinear_arith)
                        requires
                            0 <= rr < r && 0 <= cc < cw && cw <= s1,
                    ;
                }
            }
        }
        proof {
            assert((r + 1) * (s1 as int) == r * (s1 as int) + s1) by (nonlinear_arith);
        }
    }
    proof {
        assert(out@.len() == base + ch * s1);
        assert(ch * s1 == s1 * ch) by (nonlinear_arith);
    }
}

/// Converts an interleaved RGBA buffer into planar I420 per the plan.
pub fn rgba_to_i420(width: usize, height: usize, raw: &[u8], yuv: &mut Vec<u8>, meta: &YuvMeta)
    requires
        width <= crate::yuv::MAX_DIMENSION,
        height <= crate::yuv::MAX_DIMENSION,
        meta.stride[0] <= crate::yuv::MAX_DIMENSION + crate::yuv::MAX_ALIGN,
        meta.stride[1] <= crate::yuv::MAX_DIMENSION + crate::yuv::MAX_ALIGN,
        i420_plan_ok(*meta, width as int, height as int),
        raw@.len() >= 4 * width * height,
    ensures
        i420_of(final(yuv)@, raw@, width as int, height as int, false, *meta),
{
    interleaved_to_i420(width, height, raw, false, yuv, meta)
}

/// Converts an interleaved BGRA buffer into planar I420 per the plan.
pub fn bgra_to_i420(width: usize, height: usize, raw: &[u8], yuv: &mut Vec<u8>, meta: &YuvMeta)
    requires
        width <= crate::yuv::MAX_DIMENSION,
        height <= crate::yuv::MAX_DIMENSION,
        meta.stride[0] <= crate::yuv::MAX_DIMENSION + crate::yuv::MAX_ALIGN,
        meta.stride[1] <= crate::yuv::MAX_DIMENSION + crate::yuv::MAX_ALIGN,
        i420_plan_ok(*meta, width as int, height as int),
        raw@.len() >= 4 * width * height,
    ensures
        i420_of(final(yuv)@, raw@, width as int, height as int, true, *meta),
{
    interleaved_to_i420(width, height, raw, true, yuv, meta)
}

impl<'a> RawFrame<'a> {
    /// The interleaved pixel bytes, when the frame is not already planar.
    pub open spec fn spec_interleaved(&self) -> Option<(Seq<u8>, bool)> {
        match self {
            RawFrame::RGBA(b) => Some((b@, false)),
            RawFrame::BGRA(b) => Some((b@, true)),
            RawFrame::YUV(_) => None,
        }
    }

    /// Converts this frame into the planar layout the plan describes.
    /// Interleaved frames convert into I420; the NV12 combinations are not
    /// implemented and are rejected rather than silently leaving the buffer
    /// undefined; an already-planar frame is left to the caller.
    pub fn convert_into_yuv(
        &self,
        width: usize,
        height: usize,
        yuv_buf: &mut Vec<u8>,
        yuv_meta: &YuvMeta,
    ) -> (res: Result<(), CodecError>)
        requires
            width <= crate::yuv::MAX_DIMENSION,
            height <= crate::yuv::MAX_DIMENSION,
            yuv_meta.stride[0] <= crate::yuv::MAX_DIMENSION + crate::yuv::MAX_ALIGN,
            yuv_meta.stride[1] <= crate::yuv::MAX_DIMENSION + crate::yuv::MAX_ALIGN,
            yuv_meta.format is I420 ==> i420_plan_ok(*yuv_meta, width as int, height as int),
            self.spec_interleaved() matches Some((bytes, _)) ==> bytes.len() >= 4 * width * height,
        ensures
            res is Ok <==> (self.spec_interleaved() is Some && yuv_meta.format is I420),
            res is Err ==> *final(yuv_buf) == *old(yuv_buf),
            res is Ok ==> (self.spec_interleaved() matches Some((bytes, swap)) && i420_of(
                final(yuv_buf)@,
                bytes,
                width as int,
                height as int,
                swap,
                *yuv_meta,
            )),
    {
        match (self, &yuv_meta.format) {
            (RawFrame::RGBA(rgba), YuvFormat::I420) => {
                rgba_to_i420(width, height, rgba, yuv_buf, yuv_meta);
                Ok(())
            },
            (RawFrame::BGRA(bgra), YuvFormat::I420) => {
                bgra_to_i420(width, height, bgra, yuv_buf, yuv_meta);
                Ok(())
            },
            (RawFrame::RGBA(_), YuvFormat::NV12) | (RawFrame::BGRA(_), YuvFormat::NV12) => Err(
                CodecError::UnsupportedCodec,
            ),
            (RawFrame::YUV(_), _) => Err(CodecError::UnsupportedFrameVariant),
        }
    }
}

/// One output channel of the inverse conversion: the numerator scaled down
/// and clamped to a byte.
pub open spec fn spec_chan(t: int) -> int {
    if t < 0 {
        0
    } else if t / 256 > 255 {
        255
    } else {
        t / 256
    }
}

/// Luma sample of a tight I420 buffer (stride equal to width).
pub open spec fn spec_y_at(data: Seq<u8>, w: int, r: int, c: int) -> int {
    data[pix(r, c, w)] as int
}

/// Blue-difference sample covering pixel (`r`, `c`).
pub open spec fn spec_u_at(data: Seq<u8>, w: int, h: int, r: int, c: int) -> int {
    data[w * h + pix(r / 2, c / 2, spec_chroma_cols(w))] as int
}

/// Red-difference sample covering pixel (`r`, `c`).
pub open spec fn spec_v_at(data: Seq<u8>, w: int, h: int, r: int, c: int) -> int {
    data[w * h + spec_chroma_cols(w) * spec_chroma_rows(h) + pix(
        r / 2,
        c / 2,
        spec_chroma_cols(w),
    )] as int
}

pub open spec fn blue_at(data: Seq<u8>, w: int, h: int, r: int, c: int) -> int {
    spec_chan(
        298 * (spec_y_at(data, w, r, c) - 16) + 516 * (spec_u_at(data, w, h, r, c) - 128) + 128,
    )
}

pub open spec fn green_at(data: Seq<u8>, w: int, h: int, r: int, c: int) -> int {
    spec_chan(
        298 * (spec_y_at(data, w, r, c) - 16) - 100 * (spec_u_at(data, w, h, r, c) - 128) - 208 * (
        spec_v_at(data, w, h, r, c) - 128) + 128,
    )
}

pub open spec fn red_at(data: Seq<u8>, w: int, h: int, r: int, c: int) -> int {
    spec_chan(
        298 * (spec_y_at(data, w, r, c) - 16) + 409 * (spec_v_at(data, w, h, r, c) - 128) + 128,
    )
}

/// `out` is the interleaved BGRA rendering of the tight I420 buffer
/// `data`, with opaque alpha.
pub open spec fn bgra_of(out: Seq<u8>, data: Seq<u8>, w: int, h: int) -> bool {
    &&& out.len() == 4 * w * h
    &&& forall|r: int, c: int|
        0 <= r < h && 0 <= c < w ==> out[4 * #[trigger] pix(r, c, w)] as int == blue_at(
            data,
            w,
            h,
            r,
            c,
        ) && out[4 * pix(r, c, w) + 1] as int == green_at(data, w, h, r, c) && out[4 * pix(
            r,
            c,
            w,
        ) + 2] as int == red_at(data, w, h, r, c) && out[4 * pix(r, c, w) + 3] == 255u8
}

/// Scales a channel numerator down to one byte, clamping at both ends.
fn chan_byte(t: i32) -> (b: u8)
    requires
        -0x100000 <= t <= 0x100000,
    ensures
        b as int == spec_chan(t as int),
{
    if t < 0 {
        0
    } else {
        let q = (t as u32) / 256;
        if q > 255 {
            255
        } else {
            q as u8
        }
    }
}

/// Renders a tight I420 buffer as interleaved BGRA with opaque alpha.
/// Writes exactly four bytes per pixel.
#[verifier::rlimit(100)]
pub fn i420_to_bgra(width: usize, height: usize, data: &Vec<u8>, out: &mut Vec<u8>)
    requires
        width <= crate::yuv::MAX_DIMENSION,
        height <= crate::yuv::MAX_DIMENSION,
        data@.len() == width * height + 2 * (spec_chroma_cols(width as int) * spec_chroma_rows(
            height as int,
        )),
    ensures
        bgra_of(final(out)@, data@, width as int, height as int),
{
    let w = width;
    let h = height;
    let cw = (w + 1) / 2;
    let ch = (h + 1) / 2;
    proof {
        lemma_mul_nonnegative(w as int, h as int);
        lemma_mul_nonnegative(cw as int, ch as int);
        assert(w * h <= 0x2000 * 0x2000 && cw * ch <= 0x2000 * 0x2000) by (nonlinear_arith)
            requires
                w <= 0x2000 && h <= 0x2000 && cw == (w + 1) / 2 && ch == (h + 1) / 2,
        ;
        assert(0 * (w as int) == 0) by (nonlinear_arith);
    }
    let y_len = w * h;
    let uv_len = cw * ch;
    let mut res: Vec<u8> = Vec::new();
    for r in 0..h
        invariant
            w <= crate::yuv::MAX_DIMENSION,
            h <= crate::yuv::MAX_DIMENSION,
            cw == spec_chroma_cols(w as int),
            ch == spec_chroma_rows(h as int),
            y_len == w * h,
            uv_len == cw * ch,
            y_len <= 0x4000000 && uv_len <= 0x4000000,
            data@.len() == w * h + 2 * (cw * ch),
            res@.len() == 4 * (r * w),
            forall|rr: int, cc: int|
                0 <= rr < r && 0 <= cc < w ==> res@[4 * #[trigger] pix(rr, cc, w as int)] as int
                    == blue_at(data@, w as int, h as int, rr, cc) && res@[4 * pix(rr, cc, w as int)
                    + 1] as int == green_at(data@, w as int, h as int, rr, cc) && res@[4 * pix(
                    rr,
                    cc,
                    w as int,
                ) + 2] as int == red_at(data@, w as int, h as int, rr, cc) && res@[4 * pix(
                    rr,
                    cc,
                    w as int,
                ) + 3] == 255u8,
    {
        for c in 0..w
            invariant
                w <= crate::yuv::MAX_DIMENSION,
                h <= crate::yuv::MAX_DIMENSION,
                r < h,
                cw == spec_chroma_cols(w as int),
                ch == spec_chroma_rows(h as int),
                y_len == w * h,
                uv_len == cw * ch,
                y_len <= 0x4000000 && uv_len <= 0x4000000,
                data@.len() == w * h + 2 * (cw * ch),
                res@.len() == 4 * (r * w) + 4 * c,
                forall|rr: int, cc: int|
                    0 <= rr < r && 0 <= cc < w ==> res@[4 * #[trigger] pix(rr, cc, w as int)]
                        as int == blue_at(data@, w as int, h as int, rr, cc) && res@[4 * pix(
                        rr,
                        cc,
                        w as int,
                    ) + 1] as int == green_at(data@, w as int, h as int, rr, cc) && res@[4 * pix(
                        rr,
                        cc,
                        w as int,
                    ) + 2] as int == red_at(data@, w as int, h as int, rr, cc) && res@[4 * pix(
                        rr,
                        cc,
                        w as int,
                    ) + 3] == 255u8,
                forall|cc: int|
                    0 <= cc < c ==> res@[4 * #[trigger] pix(r as int, cc, w as int)] as int
                        == blue_at(data@, w as int, h as int, r as int, cc) && res@[4 * pix(
                        r as int,
                        cc,
                        w as int,
                    ) + 1] as int == green_at(data@, w as int, h as int, r as int, cc) && res@[4
                        * pix(r as int, cc, w as int) + 2] as int == red_at(
                        data@,
                        w as int,
                        h as int,
                        r as int,
                        cc,
                    ) && res@[4 * pix(r as int, cc, w as int) + 3] == 255u8,
        {
            proof {
                assert(r * w + c < h * w && r * w + c <= 0x2000 * 0x2000 && h * w == w * h) by (nonlinear_arith)
                    requires
                        0 <= r < h && 0 <= c < w && w <= 0x2000 && h <= 0x2000,
                ;
            }
            let ur = r / 2;
            let uc = c / 2;
            proof {
                assert(r / 2 < ch && c / 2 < cw && (r / 2) * cw + c / 2 < ch * cw && ch * cw == cw
                    * ch && (r / 2) * cw <= 0x2000 * 0x2000 && (r / 2) * cw + c / 2 <= 0x2000
                    * 0x2000) by (nonlinear_arith)
                    requires
                        0 <= r < h && 0 <= c < w && ch == (h + 1) / 2 && cw == (w + 1) / 2 && w
                            <= 0x2000 && h <= 0x2000,
                ;
            }
            let yv = data[r * w + c] as i32;
            let uv = data[y_len + (ur * cw + uc)] as i32;
            let vv = data[y_len + uv_len + (ur * cw + uc)] as i32;
            let cy = 298 * (yv - 16);
            res.push(chan_byte(cy + 516 * (uv - 128) + 128));
            res.push(chan_byte(cy - 100 * (uv - 128) - 208 * (vv - 128) + 128));
            res.push(chan_byte(cy + 409 * (vv - 128) + 128));
            res.push(255u8);
            proof {
                assert forall|rr: int, cc: int|
                    0 <= rr < r && 0 <= cc < w implies res@[4 * #[trigger] pix(rr, cc, w as int)]
                    as int == blue_at(data@, w as int, h as int, rr, cc) && res@[4 * pix(
                    rr,
                    cc,
                    w as int,
                ) + 1] as int == green_at(data@, w as int, h as int, rr, cc) && res@[4 * pix(
                    rr,
                    cc,
                    w as int,
                ) + 2] as int == red_at(data@, w as int, h as int, rr, cc) && res@[4 * pix(
                    rr,
                    cc,
                    w as int,
                ) + 3] == 255u8 by {
                    assert(pix(rr, cc, w as int) < r * w) by (nonlinear_arith)
                        requires
                            0 <= rr < r && 0 <= cc < w,
                    ;
                }
            }
        }
        proof {
            assert((r + 1) * (w as int) == r * (w as int) + w) by (nonlinear_arith);
        }
    }
    proof {
        assert(res@.len() == 4 * (h * w));
        assert(h * w == w * h) by (nonlinear_arith);
        assert((4 * (w as int)) * (h as int) == 4 * ((w as int) * (h as int))) by (nonlinear_arith);
    }
    *out = res;
}

} // verus!
