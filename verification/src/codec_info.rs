//! Scored descriptors of usable hardware codecs, the selection of the best
//! descriptor per format, and the byte format under which a bundle of
//! descriptors is persisted in the configuration store.

use vstd::prelude::*;
use vstd::utf8::{char_is_scalar, char_u32_cast, is_scalar};

verus! {

/// Relies on char::from_u32: returns the character with code point `v`, and
/// None exactly when `v` is a surrogate or above the highest code point.
pub assume_specification[ char::from_u32 ](v: u32) -> (r: Option<char>)
    ensures
        r is Some <==> is_scalar(v),
        r matches Some(c) ==> c as u32 == v,
;

/// Relies on String::push: appends one character at the end.
pub assume_specification[ String::push ](s: &mut String, c: char)
    ensures
        final(s)@ == old(s)@.push(c),
;

/// The bitstream formats a hardware codec descriptor can be for.
#[derive(Clone, Copy, Debug, PartialEq, Eq, Structural)]
pub enum DataFormat {
    H264,
    H265,
}

/// The kind of hardware device a probed codec runs on.
#[derive(Clone, Copy, Debug, PartialEq, Eq, Structural)]
pub enum HwDeviceKind {
    NoDevice,
    Cuda,
    Vaapi,
    Dxva2,
    D3d11,
    VideoToolbox,
}

/// One scored descriptor of a usable hardware codec: the backend codec name,
/// the device kind it runs on, the bitstream format it handles, and its
/// probed capability score (higher is better).
#[derive(Debug, PartialEq)]
pub struct CodecInfo {
    pub name: String,
    pub hwdevice: HwDeviceKind,
    pub format: DataFormat,
    pub score: i32,
}

/// The best probed descriptor per hardware format: at most one H264 and one
/// H265 entry.
#[derive(Debug, PartialEq)]
pub struct CodecInfos {
    pub h264: Option<CodecInfo>,
    pub h265: Option<CodecInfo>,
}

impl CodecInfo {
    /// An exact copy.
    pub fn duplicate(&self) -> (r: Self)
        ensures
            r == *self,
    {
        CodecInfo {
            name: self.name.clone(),
            hwdevice: self.hwdevice,
            format: self.format,
            score: self.score,
        }
    }
}

/// An exact copy of an optional descriptor.
pub fn duplicate_opt_info(o: &Option<CodecInfo>) -> (r: Option<CodecInfo>)
    ensures
        r == *o,
{
    match o {
        Some(c) => Some(c.duplicate()),
        None => None,
    }
}

impl CodecInfos {
    /// An exact copy.
    pub fn duplicate(&self) -> (r: Self)
        ensures
            r == *self,
    {
        CodecInfos { h264: duplicate_opt_info(&self.h264), h265: duplicate_opt_info(&self.h265) }
    }
}

/// The best descriptor for `format` among `coders`: the one with the highest
/// score, the earliest such entry winning ties; None when no entry has that
/// format.
pub open spec fn spec_best_of(coders: Seq<CodecInfo>, format: DataFormat) -> Option<CodecInfo>
    decreases coders.len(),
{
    if coders.len() == 0 {
        None::<CodecInfo>
    } else {
        let prev = spec_best_of(coders.drop_last(), format);
        let last = coders.last();
        if last.format == format {
            match prev {
                None => Some(last),
                Some(p) => if last.score > p.score {
                    Some(last)
                } else {
                    Some(p)
                },
            }
        } else {
            prev
        }
    }
}

impl CodecInfo {
    /// Keeps, per bitstream format, the probed descriptor with the highest
    /// score; an earlier descriptor wins a tie.
    pub fn score(coders: Vec<CodecInfo>) -> (r: CodecInfos)
        ensures
            r.h264 == spec_best_of(coders@, DataFormat::H264),
            r.h265 == spec_best_of(coders@, DataFormat::H265),
    {
        let mut h264: Option<CodecInfo> = None;
        let mut h265: Option<CodecInfo> = None;
        let n = coders.len();
        for i in 0..n
            invariant
                n == coders.len(),
                h264 == spec_best_of(coders@.take(i as int), DataFormat::H264),
                h265 == spec_best_of(coders@.take(i as int), DataFormat::H265),
        {
            proof {
                assert(coders@.take(i + 1 as int).drop_last() =~= coders@.take(i as int));
                assert(coders@.take(i + 1 as int).last() == coders@[i as int]);
            }
            let c = &coders[i];
            match c.format {
                DataFormat::H264 => {
                    let replace = match &h264 {
                        None => true,
                        Some(p) => c.score > p.score,
                    };
                    if replace {
                        h264 = Some(c.duplicate());
                    }
                },
                DataFormat::H265 => {
                    let replace = match &h265 {
                        None => true,
                        Some(p) => c.score > p.score,
                    };
                    if replace {
                        h265 = Some(c.duplicate());
                    }
                },
            }
        }
        proof {
            assert(coders@.take(n as int) =~= coders@);
        }
        CodecInfos { h264, h265 }
    }
}

/// Longest descriptor name the byte format carries; keeps every cursor
/// computation inside `usize` on every machine the crate builds for.
pub const MAX_NAME_LEN: usize = 0x100000;

/// The four big-endian bytes of `v`.
pub open spec fn be4(v: u32) -> Seq<u8> {
    seq![(v >> 24) as u8, (v >> 16) as u8, (v >> 8) as u8, v as u8]
}

/// Each character of `cs` in order, as four big-endian bytes of its code
/// point.
pub open spec fn ser_chars(cs: Seq<char>) -> Seq<u8>
    decreases cs.len(),
{
    if cs.len() == 0 {
        Seq::<u8>::empty()
    } else {
        ser_chars(cs.drop_last()) + be4(cs.last() as u32)
    }
}

/// The byte under which a device kind is persisted.
pub open spec fn dev_tag(d: HwDeviceKind) -> u8 {
    match d {
        HwDeviceKind::NoDevice => 0u8,
        HwDeviceKind::Cuda => 1u8,
        HwDeviceKind::Vaapi => 2u8,
        HwDeviceKind::Dxva2 => 3u8,
        HwDeviceKind::D3d11 => 4u8,
        HwDeviceKind::VideoToolbox => 5u8,
    }
}

/// The byte under which a bitstream format is persisted.
pub open spec fn fmt_tag(f: DataFormat) -> u8 {
    match f {
        DataFormat::H264 => 0u8,
        DataFormat::H265 => 1u8,
    }
}

/// The byte format of one descriptor: name length, name characters, device
/// kind, bitstream format, score bits.
pub open spec fn ser_info(c: CodecInfo) -> Seq<u8> {
    be4(c.name@.len() as u32) + ser_chars(c.name@) + seq![dev_tag(c.hwdevice)] + seq![
        fmt_tag(c.format),
    ] + be4(c.score as u32)
}

/// The byte format of an optional descriptor: an absence byte, or a presence
/// byte followed by the descriptor.
pub open spec fn ser_opt(o: Option<CodecInfo>) -> Seq<u8> {
    match o {
        None => seq![0u8],
        Some(c) => seq![1u8] + ser_info(c),
    }
}

/// The byte format of a descriptor bundle: the H264 entry then the H265
/// entry.
pub open spec fn ser_infos(v: CodecInfos) -> Seq<u8> {
    ser_opt(v.h264) + ser_opt(v.h265)
}

/// The name of this descriptor is short enough for the byte format.
pub open spec fn info_len_ok(c: CodecInfo) -> bool {
    c.name@.len() < MAX_NAME_LEN as int
}

pub open spec fn opt_len_ok(o: Option<CodecInfo>) -> bool {
    match o {
        None => true,
        Some(c) => info_len_ok(c),
    }
}

/// Every name in the bundle is short enough for the byte format.
pub open spec fn infos_len_ok(v: CodecInfos) -> bool {
    opt_len_ok(v.h264) && opt_len_ok(v.h265)
}

/// `ser_chars` yields four bytes per character.
pub proof fn lemma_ser_chars_len(cs: Seq<char>)
    ensures
        ser_chars(cs).len() == 4 * cs.len(),
    decreases cs.len(),
{
    if cs.len() > 0 {
        lemma_ser_chars_len(cs.drop_last());
    }
}

/// The bytes of character `j` sit at offset `4 * j` of `ser_chars`.
pub proof fn lemma_ser_chars_index(cs: Seq<char>, j: int)
    requires
        0 <= j < cs.len(),
    ensures
        ser_chars(cs).subrange(4 * j, 4 * j + 4) =~= be4(cs[j] as u32),
    decreases cs.len(),
{
    lemma_ser_chars_len(cs);
    lemma_ser_chars_len(cs.drop_last());
    if j == cs.len() - 1 {
        assert(ser_chars(cs) == ser_chars(cs.drop_last()) + be4(cs.last() as u32));
    } else {
        lemma_ser_chars_index(cs.drop_last(), j);
        assert(ser_chars(cs) == ser_chars(cs.drop_last()) + be4(cs.last() as u32));
        assert(ser_chars(cs).subrange(4 * j, 4 * j + 4) =~= ser_chars(cs.drop_last()).subrange(
            4 * j,
            4 * j + 4,
        ));
    }
}

/// Two values with the same big-endian bytes are the same value.
pub proof fn lemma_be4_injective(x: u32, y: u32)
    requires
        be4(x) == be4(y),
    ensures
        x == y,
{
    assert((x >> 24) as u8 == (y >> 24) as u8);
    assert((x >> 16) as u8 == (y >> 16) as u8);
    assert((x >> 8) as u8 == (y >> 8) as u8);
    assert(x as u8 == y as u8);
    assert(((x >> 24) as u8 == (y >> 24) as u8 && (x >> 16) as u8 == (y >> 16) as u8 && (x >> 8)
        as u8 == (y >> 8) as u8 && x as u8 == y as u8) ==> x == y) by (bit_vector);
}

/// Appends the four big-endian bytes of `v`.
fn push_be4(out: &mut Vec<u8>, v: u32)
    ensures
        final(out)@ == old(out)@ + be4(v),
{
    out.push((v >> 24) as u8);
    out.push((v >> 16) as u8);
    out.push((v >> 8) as u8);
    out.push(v as u8);
    proof {
        assert(final(out)@ =~= old(out)@ + be4(v));
    }
}

/// Appends the byte format of one descriptor.
fn push_info(out: &mut Vec<u8>, c: &CodecInfo)
    requires
        info_len_ok(*c),
    ensures
        final(out)@ == old(out)@ + ser_info(*c),
{
    let n = c.name.as_str().unicode_len();
    push_be4(out, n as u32);
    for i in 0..n
        invariant
            n == c.name@.len(),
            n < MAX_NAME_LEN,
            out@ == old(out)@ + be4(n as u32) + ser_chars(c.name@.take(i as int)),
    {
        let ch = c.name.as_str().get_char(i);
        push_be4(out, ch as u32);
        proof {
            assert(c.name@.take(i + 1 as int).drop_last() =~= c.name@.take(i as int));
            assert(c.name@.take(i + 1 as int).last() == c.name@[i as int]);
        }
    }
    proof {
        assert(c.name@.take(n as int) =~= c.name@);
    }
    let dev: u8 = match c.hwdevice {
        HwDeviceKind::NoDevice => 0u8,
        HwDeviceKind::Cuda => 1u8,
        HwDeviceKind::Vaapi => 2u8,
        HwDeviceKind::Dxva2 => 3u8,
        HwDeviceKind::D3d11 => 4u8,
        HwDeviceKind::VideoToolbox => 5u8,
    };
    out.push(dev);
    let fmt: u8 = match c.format {
        DataFormat::H264 => 0u8,
        DataFormat::H265 => 1u8,
    };
    out.push(fmt);
    push_be4(out, c.score as u32);
    proof {
        assert(final(out)@ =~= old(out)@ + ser_info(*c));
    }
}

/// Appends the byte format of an optional descriptor.
fn push_opt(out: &mut Vec<u8>, o: &Option<CodecInfo>)
    requires
        opt_len_ok(*o),
    ensures
        final(out)@ == old(out)@ + ser_opt(*o),
{
    match o {
        None => {
            out.push(0u8);
            proof {
                assert(final(out)@ =~= old(out)@ + ser_opt(*o));
            }
        },
        Some(c) => {
            out.push(1u8);
            push_info(out, c);
            proof {
                assert(final(out)@ =~= old(out)@ + ser_opt(*o));
            }
        },
    }
}

impl CodecInfos {
    /// The persistent byte form of this bundle. Pure: equal bundles always
    /// give equal bytes, and `deserialize` inverts it exactly.
    pub fn serialize(&self) -> (r: Vec<u8>)
        requires
            infos_len_ok(*self),
        ensures
            r@ == ser_infos(*self),
    {
        let mut out: Vec<u8> = Vec::new();
        push_opt(&mut out, &self.h264);
        push_opt(&mut out, &self.h265);
        proof {
            assert(out@ =~= ser_infos(*self));
        }
        out
    }
}

/// Bit patterns survive the signed/unsigned round trip.
proof fn lemma_score_bits(v: u32, x: i32)
    ensures
        (v as i32) as u32 == v,
        (x as u32) as i32 == x,
{
    assert((v as i32) as u32 == v) by (bit_vector);
    assert((x as u32) as i32 == x) by (bit_vector);
}

/// Reads four big-endian bytes at `pos` as one value.
fn read_u32(s: &Vec<u8>, pos: usize) -> (r: Option<(u32, usize)>)
    ensures
        r is Some <==> pos + 4 <= s@.len(),
        r matches Some((v, next)) ==> next == pos + 4 && be4(v) == s@.subrange(
            pos as int,
            pos as int + 4,
        ),
{
    if s.len() >= 4 && pos <= s.len() - 4 {
        let b0 = s[pos];
        let b1 = s[pos + 1];
        let b2 = s[pos + 2];
        let b3 = s[pos + 3];
        let v = ((b0 as u32) << 24) | ((b1 as u32) << 16) | ((b2 as u32) << 8) | (b3 as u32);
        proof {
            let w = ((b0 as u32) << 24) | ((b1 as u32) << 16) | ((b2 as u32) << 8) | (b3 as u32);
            assert((w >> 24) as u8 == b0 && (w >> 16) as u8 == b1 && (w >> 8) as u8 == b2 && w as u8
                == b3) by (bit_vector)
                requires
                    w == ((b0 as u32) << 24) | ((b1 as u32) << 16) | ((b2 as u32) << 8) | (
                    b3 as u32),
            ;
            assert(be4(v) =~= s@.subrange(pos as int, pos as int + 4));
        }
        Some((v, pos + 4))
    } else {
        None
    }
}

/// Reads `n` characters of four big-endian bytes each, starting at `pos`.
fn parse_name(s: &Vec<u8>, pos: usize, n: usize) -> (r: Option<(String, usize)>)
    requires
        pos + 4 * n <= s@.len(),
        n < MAX_NAME_LEN,
    ensures
        r matches Some((name, next)) ==> next == pos + 4 * n && name@.len() == n && ser_chars(
            name@,
        ) == s@.subrange(pos as int, pos as int + 4 * n),
        forall|cs: Seq<char>|
            cs.len() == n && s@.subrange(pos as int, pos as int + 4 * n) == ser_chars(cs) ==> (
            r matches Some((name, next)) && name@ == cs),
{
    let slen = s.len();
    let mut name = String::new();
    let ghost whole = s@.subrange(pos as int, pos as int + 4 * n);
    proof {
        lemma_ser_chars_len(Seq::<char>::empty());
    }
    for j in 0..n
        invariant
            pos + 4 * n <= s@.len(),
            s@.len() == slen,
            n < MAX_NAME_LEN,
            whole == s@.subrange(pos as int, pos as int + 4 * n),
            name@.len() == j,
            ser_chars(name@) == s@.subrange(pos as int, pos as int + 4 * j),
            forall|cs: Seq<char>| cs.len() == n && whole == ser_chars(cs) ==> name@ == cs.take(
                j as int,
            ),
    {
        let cursor = pos + 4 * j;
        let rv = read_u32(s, cursor);
        let (v, _) = rv.unwrap();
        proof {
            // Any serialization that matches the whole range fixes these
            // four bytes to one character's code point.
            assert forall|cs: Seq<char>| cs.len() == n && whole == ser_chars(cs) implies be4(
                cs[j as int] as u32,
            ) == s@.subrange(cursor as int, cursor as int + 4) by {
                lemma_ser_chars_len(cs);
                lemma_ser_chars_index(cs, j as int);
                assert(ser_chars(cs).subrange(4 * j, 4 * j + 4) =~= s@.subrange(
                    cursor as int,
                    cursor as int + 4,
                ));
            }
        }
        match char::from_u32(v) {
            Some(c) => {
                proof {
                    let sc = ser_chars(name@.push(c));
                    assert(name@.push(c).drop_last() =~= name@);
                    assert(name@.push(c).last() == c);
                    assert(sc == ser_chars(name@) + be4(c as u32));
                    assert(ser_chars(name@.push(c)) =~= s@.subrange(
                        pos as int,
                        pos as int + 4 * (j + 1),
                    ));
                    assert forall|cs: Seq<char>| cs.len() == n && whole == ser_chars(cs) implies
                        name@.push(c) == cs.take(j + 1 as int) by {
                        lemma_be4_injective(cs[j as int] as u32, v);
                        char_u32_cast(cs[j as int], v);
                        char_u32_cast(c, v);
                        assert(cs[j as int] == c);
                        assert(cs.take(j + 1 as int) =~= cs.take(j as int).push(cs[j as int]));
                    }
                }
                name.push(c);
            },
            None => {
                proof {
                    assert forall|cs: Seq<char>| !(cs.len() == n && whole == ser_chars(cs)) by {
                        if cs.len() == n && whole == ser_chars(cs) {
                            lemma_be4_injective(cs[j as int] as u32, v);
                            char_is_scalar(cs[j as int]);
                        }
                    }
                }
                return None;
            },
        }
    }
    proof {
        assert forall|cs: Seq<char>| cs.len() == n && whole == ser_chars(cs) implies name@ == cs by {
            assert(cs.take(n as int) =~= cs);
        }
    }
    Some((name, pos + 4 * n))
}

/// The bytes of `s` from `pos` on begin with exactly the serialization of
/// the optional descriptor `x`.
pub open spec fn opt_ser_at(s: Seq<u8>, pos: int, x: Option<CodecInfo>) -> bool {
    opt_len_ok(x) && pos + ser_opt(x).len() <= s.len() && s.subrange(
        pos,
        pos + ser_opt(x).len() as int,
    ) == ser_opt(x)
}

/// Two descriptors are alike when every field agrees, the name as its
/// character sequence.
pub open spec fn info_like(a: CodecInfo, b: CodecInfo) -> bool {
    a.name@ == b.name@ && a.hwdevice == b.hwdevice && a.format == b.format && a.score == b.score
}

pub open spec fn opt_info_like(a: Option<CodecInfo>, b: Option<CodecInfo>) -> bool {
    match (a, b) {
        (None, None) => true,
        (Some(c), Some(d)) => info_like(c, d),
        _ => false,
    }
}

pub open spec fn infos_like(a: CodecInfos, b: CodecInfos) -> bool {
    opt_info_like(a.h264, b.h264) && opt_info_like(a.h265, b.h265)
}

/// Character sequences of one length with the same byte form are the same
/// sequence.
pub proof fn lemma_ser_chars_injective(a: Seq<char>, b: Seq<char>)
    requires
        a.len() == b.len(),
        ser_chars(a) == ser_chars(b),
    ensures
        a == b,
    decreases a.len(),
{
    lemma_ser_chars_len(a);
    lemma_ser_chars_len(b);
    if a.len() == 0 {
        assert(a =~= b);
    } else {
        let n = a.len() as int;
        lemma_ser_chars_len(a.drop_last());
        lemma_ser_chars_len(b.drop_last());
        assert(be4(a.last() as u32) =~= ser_chars(a).subrange(4 * n - 4, 4 * n));
        assert(be4(b.last() as u32) =~= ser_chars(b).subrange(4 * n - 4, 4 * n));
        lemma_be4_injective(a.last() as u32, b.last() as u32);
        char_u32_cast(a.last(), a.last() as u32);
        char_u32_cast(b.last(), b.last() as u32);
        assert(ser_chars(a.drop_last()) =~= ser_chars(a).subrange(0, 4 * n - 4));
        assert(ser_chars(b.drop_last()) =~= ser_chars(b).subrange(0, 4 * n - 4));
        lemma_ser_chars_injective(a.drop_last(), b.drop_last());
        assert forall|i: int| 0 <= i < n implies a[i] == b[i] by {
            if i < n - 1 {
                assert(a[i] == a.drop_last()[i]);
                assert(b[i] == b.drop_last()[i]);
            } else {
                assert(a[i] == a.last());
                assert(b[i] == b.last());
            }
        }
        assert(a =~= b);
    }
}

/// Only one optional descriptor, up to `opt_info_like`, can be serialized at
/// a given position of a byte string.
#[verifier::rlimit(100)]
#[verifier::spinoff_prover]
pub proof fn lemma_ser_opt_prefix_injective(
    s: Seq<u8>,
    pos: int,
    x: Option<CodecInfo>,
    y: Option<CodecInfo>,
)
    requires
        0 <= pos,
        opt_ser_at(s, pos, x),
        opt_ser_at(s, pos, y),
    ensures
        opt_info_like(x, y),
        ser_opt(x).len() == ser_opt(y).len(),
{
    assert(ser_opt(x).len() >= 1 && ser_opt(y).len() >= 1);
    assert(s[pos] == s.subrange(pos, pos + ser_opt(x).len() as int)[0]);
    assert(s[pos] == ser_opt(x)[0]);
    assert(s[pos] == s.subrange(pos, pos + ser_opt(y).len() as int)[0]);
    assert(s[pos] == ser_opt(y)[0]);
    if x is None || y is None {
        assert(ser_opt(None::<CodecInfo>)[0] == 0u8);
    } else {
        let c = x->Some_0;
        let d = y->Some_0;
        lemma_ser_chars_len(c.name@);
        lemma_ser_chars_len(d.name@);
        let nc = c.name@.len() as int;
        let nd = d.name@.len() as int;
        assert(be4(c.name@.len() as u32) =~= ser_opt(x).subrange(1, 5));
        assert(be4(d.name@.len() as u32) =~= ser_opt(y).subrange(1, 5));
        assert(ser_opt(x).subrange(1, 5) =~= s.subrange(pos + 1, pos + 5));
        assert(ser_opt(y).subrange(1, 5) =~= s.subrange(pos + 1, pos + 5));
        lemma_be4_injective(c.name@.len() as u32, d.name@.len() as u32);
        assert(nc == nd);
        assert(ser_opt(x).len() == ser_opt(y).len());
        assert(ser_opt(y) == s.subrange(pos, pos + ser_opt(x).len() as int));
        assert(ser_opt(x) == ser_opt(y));
        assert(ser_chars(c.name@) =~= ser_opt(x).subrange(5, 5 + 4 * nc));
        assert(ser_chars(d.name@) =~= ser_opt(y).subrange(5, 5 + 4 * nd));
        lemma_ser_chars_injective(c.name@, d.name@);
        assert(ser_opt(x)[5 + 4 * nc] == dev_tag(c.hwdevice));
        assert(ser_opt(y)[5 + 4 * nd] == dev_tag(d.hwdevice));
        assert(c.hwdevice == d.hwdevice);
        assert(ser_opt(x)[6 + 4 * nc] == fmt_tag(c.format));
        assert(ser_opt(y)[6 + 4 * nd] == fmt_tag(d.format));
        assert(c.format == d.format);
        assert(be4(c.score as u32) =~= ser_opt(x).subrange(7 + 4 * nc, 11 + 4 * nc));
        assert(be4(d.score as u32) =~= ser_opt(y).subrange(7 + 4 * nd, 11 + 4 * nd));
        lemma_be4_injective(c.score as u32, d.score as u32);
        lemma_score_bits(0u32, c.score);
        lemma_score_bits(0u32, d.score);
        assert(c.score == d.score);
    }
}

/// The serialized pieces of one present descriptor, laid side by side in
/// `s`, spell its whole serialization.
proof fn lemma_info_tiling(s: Seq<u8>, lo: int, n: int, info: CodecInfo)
    requires
        0 <= lo,
        n == info.name@.len(),
        lo + 11 + 4 * n <= s.len(),
        s[lo] == 1u8,
        be4(info.name@.len() as u32) == s.subrange(lo + 1, lo + 5),
        ser_chars(info.name@) == s.subrange(lo + 5, lo + 5 + 4 * n),
        s[lo + 5 + 4 * n] == dev_tag(info.hwdevice),
        s[lo + 6 + 4 * n] == fmt_tag(info.format),
        be4(info.score as u32) == s.subrange(lo + 7 + 4 * n, lo + 11 + 4 * n),
    ensures
        ser_opt(Some(info)) == s.subrange(lo, lo + 11 + 4 * n),
{
    lemma_ser_chars_len(info.name@);
    assert(ser_opt(Some(info)) =~= s.subrange(lo, lo + 11 + 4 * n));
}

/// Where a present descriptor is serialized, each of its pieces sits at its
/// fixed place.
#[verifier::rlimit(100)]
#[verifier::spinoff_prover]
proof fn lemma_opt_at_fields(s: Seq<u8>, pos: int, x: Option<CodecInfo>)
    requires
        0 <= pos,
        opt_ser_at(s, pos, x),
        s[pos] == 1u8,
    ensures
        x matches Some(c) && {
            let n = c.name@.len() as int;
            &&& info_len_ok(c)
            &&& ser_opt(x).len() == 11 + 4 * n
            &&& pos + 11 + 4 * n <= s.len()
            &&& be4(c.name@.len() as u32) == s.subrange(pos + 1, pos + 5)
            &&& ser_chars(c.name@) == s.subrange(pos + 5, pos + 5 + 4 * n)
            &&& s[pos + 5 + 4 * n] == dev_tag(c.hwdevice)
            &&& s[pos + 6 + 4 * n] == fmt_tag(c.format)
            &&& be4(c.score as u32) == s.subrange(pos + 7 + 4 * n, pos + 11 + 4 * n)
        },
{
    assert(s[pos] == s.subrange(pos, pos + ser_opt(x).len() as int)[0]);
    if x is None {
        assert(ser_opt(x)[0] == 0u8);
    } else {
        let c = x->Some_0;
        let n = c.name@.len() as int;
        lemma_ser_chars_len(c.name@);
        assert(be4(c.name@.len() as u32) =~= ser_opt(x).subrange(1, 5));
        assert(s.subrange(pos + 1, pos + 5) =~= ser_opt(x).subrange(1, 5));
        assert(ser_chars(c.name@) =~= ser_opt(x).subrange(5, 5 + 4 * n));
        assert(s.subrange(pos + 5, pos + 5 + 4 * n) =~= ser_opt(x).subrange(5, 5 + 4 * n));
        assert(s[pos + 5 + 4 * n] == ser_opt(x)[5 + 4 * n]);
        assert(s[pos + 6 + 4 * n] == ser_opt(x)[6 + 4 * n]);
        assert(be4(c.score as u32) =~= ser_opt(x).subrange(7 + 4 * n, 11 + 4 * n));
        assert(s.subrange(pos + 7 + 4 * n, pos + 11 + 4 * n) =~= ser_opt(x).subrange(
            7 + 4 * n,
            11 + 4 * n,
        ));
    }
}

/// Reads one optional descriptor starting at `pos`.
#[verifier::rlimit(100)]
fn parse_opt_info(s: &Vec<u8>, pos: usize) -> (r: Option<(Option<CodecInfo>, usize)>)
    ensures
        r matches Some((v, next)) ==> pos < next <= s@.len() && opt_len_ok(v) && ser_opt(v)
            == s@.subrange(pos as int, next as int),
        forall|x: Option<CodecInfo>|
            #[trigger] opt_ser_at(s@, pos as int, x) ==> (r matches Some((v, next))
                && opt_info_like(x, v) && next == pos + ser_opt(x).len()),
{
    let slen = s.len();
    if pos >= slen {
        return None;
    }
    let tag = s[pos];
    if tag == 0 {
        proof {
            assert(ser_opt(None::<CodecInfo>) =~= s@.subrange(pos as int, pos as int + 1));
            assert forall|x: Option<CodecInfo>| #[trigger] opt_ser_at(s@, pos as int, x)
                implies x is None by {
                if x matches Some(c) {
                    assert(ser_opt(x)[0] == 1u8);
                    assert(s@[pos as int] == 1u8);
                }
            }
        }
        return Some((None, pos + 1));
    }
    if tag != 1 {
        proof {
            assert forall|x: Option<CodecInfo>| #[trigger] opt_ser_at(s@, pos as int, x)
                implies false by {
                assert(s@[pos as int] == ser_opt(x)[0]);
            }
        }
        return None;
    }
    // The presence byte is 1: what follows must be one descriptor.
    let rem = slen - (pos + 1);
    if rem < 4 {
        proof {
            assert forall|x: Option<CodecInfo>| #[trigger] opt_ser_at(s@, pos as int, x)
                implies false by {
                lemma_opt_at_fields(s@, pos as int, x);
            }
        }
        return None;
    }
    let rv = read_u32(s, pos + 1);
    let (nv, _) = rv.unwrap();
    proof {
        assert forall|x: Option<CodecInfo>| #[trigger] opt_ser_at(s@, pos as int, x) implies (
        x matches Some(c) && c.name@.len() == nv) by {
            lemma_opt_at_fields(s@, pos as int, x);
            lemma_be4_injective(x->Some_0.name@.len() as u32, nv);
        }
    }
    let n: usize = nv as usize;
    if n >= MAX_NAME_LEN {
        proof {
            assert forall|x: Option<CodecInfo>| #[trigger] opt_ser_at(s@, pos as int, x)
                implies false by {
                lemma_opt_at_fields(s@, pos as int, x);
            }
        }
        return None;
    }
    if (rem - 4) / 4 < n || rem - 4 - 4 * n < 6 {
        proof {
            assert forall|x: Option<CodecInfo>| #[trigger] opt_ser_at(s@, pos as int, x)
                implies false by {
                lemma_opt_at_fields(s@, pos as int, x);
            }
        }
        return None;
    }
    let chars_at = pos + 5;
    proof {
        // For a present descriptor, the name characters follow the length.
        assert forall|x: Option<CodecInfo>| #[trigger] opt_ser_at(s@, pos as int, x) implies (
        x matches Some(c) && s@.subrange(chars_at as int, chars_at as int + 4 * n) == ser_chars(
            c.name@,
        )) by {
            lemma_opt_at_fields(s@, pos as int, x);
        }
    }
    let pn = parse_name(s, chars_at, n);
    let (name, p2) = match pn {
        Some(p) => p,
        None => {
            return None;
        },
    };
    let dev_byte = s[p2];
    let kind = match dev_byte {
        0u8 => HwDeviceKind::NoDevice,
        1u8 => HwDeviceKind::Cuda,
        2u8 => HwDeviceKind::Vaapi,
        3u8 => HwDeviceKind::Dxva2,
        4u8 => HwDeviceKind::D3d11,
        5u8 => HwDeviceKind::VideoToolbox,
        _ => {
            proof {
                assert forall|x: Option<CodecInfo>| #[trigger] opt_ser_at(s@, pos as int, x)
                    implies false by {
                    lemma_opt_at_fields(s@, pos as int, x);
                }
            }
            return None;
        },
    };
    let fmt_byte = s[p2 + 1];
    let fmtv = match fmt_byte {
        0u8 => DataFormat::H264,
        1u8 => DataFormat::H265,
        _ => {
            proof {
                assert forall|x: Option<CodecInfo>| #[trigger] opt_ser_at(s@, pos as int, x)
                    implies false by {
                    lemma_opt_at_fields(s@, pos as int, x);
                }
            }
            return None;
        },
    };
    let rs = read_u32(s, p2 + 2);
    let (score_bits, next) = rs.unwrap();
    let score = score_bits as i32;
    let info = CodecInfo { name, hwdevice: kind, format: fmtv, score };
    proof {
        lemma_score_bits(score_bits, 0i32);
        lemma_ser_chars_len(info.name@);
        lemma_info_tiling(s@, pos as int, n as int, info);
        assert(opt_ser_at(s@, pos as int, Some(info)));
        assert forall|x: Option<CodecInfo>| #[trigger] opt_ser_at(s@, pos as int, x) implies (
        opt_info_like(x, Some(info)) && pos + ser_opt(x).len() == next) by {
            lemma_ser_opt_prefix_injective(s@, pos as int, x, Some(info));
        }
    }
    Some((Some(info), next))
}

impl CodecInfos {
    /// Reads a bundle back from its persistent byte form. Succeeds exactly
    /// on the byte strings `serialize` produces, and then returns the bundle
    /// that produced them, field for field.
    pub fn deserialize(s: &Vec<u8>) -> (r: Result<CodecInfos, crate::error::CodecError>)
        ensures
            r matches Ok(v) ==> infos_len_ok(v) && ser_infos(v) == s@,
            forall|x: CodecInfos|
                infos_len_ok(x) && #[trigger] ser_infos(x) == s@ ==> (r matches Ok(v)
                    && infos_like(x, v)),
    {
        proof {
            // A whole-buffer serialization makes the first entry parseable.
            assert forall|x: CodecInfos| infos_len_ok(x) && #[trigger] ser_infos(x) == s@ implies
                opt_ser_at(s@, 0, x.h264) by {
                assert(s@.subrange(0, ser_opt(x.h264).len() as int) =~= ser_opt(x.h264));
            }
        }
        let first = parse_opt_info(s, 0);
        let (h264, p1) = match first {
            Some(p) => p,
            None => {
                return Err(crate::error::CodecError::CapabilityCacheUnavailable);
            },
        };
        proof {
            assert forall|x: CodecInfos| infos_len_ok(x) && #[trigger] ser_infos(x) == s@ implies (
            opt_info_like(x.h264, h264) && p1 == ser_opt(x.h264).len() && opt_ser_at(
                s@,
                p1 as int,
                x.h265,
            )) by {
                assert(s@.subrange(
                    ser_opt(x.h264).len() as int,
                    ser_opt(x.h264).len() as int + ser_opt(x.h265).len() as int,
                ) =~= ser_opt(x.h265));
            }
        }
        let second = parse_opt_info(s, p1);
        let (h265, p2) = match second {
            Some(p) => p,
            None => {
                return Err(crate::error::CodecError::CapabilityCacheUnavailable);
            },
        };
        if p2 != s.len() {
            proof {
                assert forall|x: CodecInfos| infos_len_ok(x) && #[trigger] ser_infos(x) == s@
                    implies false by {
                    assert(s@.len() == ser_opt(x.h264).len() + ser_opt(x.h265).len());
                }
            }
            return Err(crate::error::CodecError::CapabilityCacheUnavailable);
        }
        let out = CodecInfos { h264, h265 };
        proof {
            assert(ser_infos(out) =~= s@);
        }
        Ok(out)
    }
}

/// Only one bundle, up to `infos_like`, has a given byte form.
pub proof fn lemma_ser_infos_injective(a: CodecInfos, b: CodecInfos)
    requires
        infos_len_ok(a),
        infos_len_ok(b),
        ser_infos(a) == ser_infos(b),
    ensures
        infos_like(a, b),
{
    let s = ser_infos(a);
    assert(s.subrange(0, ser_opt(a.h264).len() as int) =~= ser_opt(a.h264));
    assert(s.subrange(0, ser_opt(b.h264).len() as int) =~= ser_opt(b.h264));
    lemma_ser_opt_prefix_injective(s, 0, a.h264, b.h264);
    let l = ser_opt(a.h264).len() as int;
    assert(s.subrange(l, l + ser_opt(a.h265).len() as int) =~= ser_opt(a.h265));
    assert(s.subrange(l, l + ser_opt(b.h265).len() as int) =~= ser_opt(b.h265));
    lemma_ser_opt_prefix_injective(s, l, a.h265, b.h265);
}

/// The persistent byte form is faithful: reading back what `serialize`
/// wrote always succeeds and reproduces the bundle, field for field.
pub proof fn lemma_serialize_round_trip(v: CodecInfos, s: Seq<u8>, r: Result<
    CodecInfos,
    crate::error::CodecError,
>)
    requires
        infos_len_ok(v),
        s == ser_infos(v),
        r matches Ok(w) ==> infos_len_ok(w) && ser_infos(w) == s,
        forall|x: CodecInfos|
            infos_len_ok(x) && #[trigger] ser_infos(x) == s ==> (r matches Ok(w) && infos_like(
                x,
                w,
            )),
    ensures
        r matches Ok(w) && infos_like(v, w),
{
}

} // verus!
