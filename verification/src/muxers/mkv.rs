//! EBML writing for the Matroska/WebM writer: element IDs, sizes as
//! variable-length integers (VINTs), and unsigned, string and binary
//! elements.

use vstd::prelude::*;
use crate::error::{ErrorKind, TaoError, TaoResult, invalid_argument, unsupported};
use crate::format_id::FormatId;
use crate::io::{IoContext, SeekFrom, written, lemma_written_concat};
use crate::muxer::{Muxer, out_in_range};
use crate::packet_data::bytes_as_slice;
use crate::demuxers::aiff::{rne53, round_mantissa};
use vstd::string::StringSliceAdditionalSpecFns;
use crate::media::{CodecId, MediaType, Packet, Stream, StreamParams, sample_bytes};
use crate::endian::{be16_bytes, be64_bytes, push_all, push_be16, u64_to_be, be_acc};
use crate::demuxers::mkv::ebml::{vint_width, ebml_size_value};
use vstd::arithmetic::power2::{pow2, lemma_pow2_unfold, lemma_pow2_pos, lemma_pow2_adds, lemma_pow2_strictly_increases, lemma2_to64, lemma2_to64_rest};

verus! {

/// Byte `k` (0 the lowest) of `n`.
pub open spec fn byte_of(n: u64, k: u64) -> u8 {
    ((n >> (8 * k)) & 0xFF) as u8
}

/// The VINT written for an element size `n`: one byte below 0x7F, two
/// below 0x3FFF, three below 0x1FFFFF, four below 0xFFFFFFF (the marker
/// bit, then the size big-endian), and eight otherwise (a 0x01 marker
/// byte, then the low seven bytes of the size).
pub open spec fn vint_bytes(n: u64) -> Seq<u8> {
    if n < 0x7F {
        seq![(0x80 + n) as u8]
    } else if n < 0x3FFF {
        seq![(0x40 + n / 0x100) as u8, byte_of(n, 0)]
    } else if n < 0x1F_FFFF {
        seq![(0x20 + n / 0x1_0000) as u8, byte_of(n, 1), byte_of(n, 0)]
    } else if n < 0x0FFF_FFFF {
        seq![(0x10 + n / 0x100_0000) as u8, byte_of(n, 2), byte_of(n, 1), byte_of(n, 0)]
    } else {
        seq![0x01u8, byte_of(n, 6), byte_of(n, 5), byte_of(n, 4), byte_of(n, 3), byte_of(n, 2), byte_of(n, 1), byte_of(n, 0)]
    }
}

/// The bytes of an element ID: the ID big-endian without its leading zero
/// bytes (its marker bit is part of the value).
pub open spec fn ebml_id_bytes(id: u32) -> Seq<u8> {
    let n = id as u64;
    if id <= 0xFF {
        seq![byte_of(n, 0)]
    } else if id <= 0xFFFF {
        seq![byte_of(n, 1), byte_of(n, 0)]
    } else if id <= 0xFF_FFFF {
        seq![byte_of(n, 2), byte_of(n, 1), byte_of(n, 0)]
    } else {
        seq![byte_of(n, 3), byte_of(n, 2), byte_of(n, 1), byte_of(n, 0)]
    }
}

/// The data of an unsigned element: the value big-endian in 1, 2, 3 or 4
/// bytes when it fits (one zero byte for 0), else in 8.
pub open spec fn uint_bytes(v: u64) -> Seq<u8> {
    if v <= 0xFF {
        seq![byte_of(v, 0)]
    } else if v <= 0xFFFF {
        seq![byte_of(v, 1), byte_of(v, 0)]
    } else if v <= 0xFF_FFFF {
        seq![byte_of(v, 2), byte_of(v, 1), byte_of(v, 0)]
    } else if v <= 0xFFFF_FFFF {
        seq![byte_of(v, 3), byte_of(v, 2), byte_of(v, 1), byte_of(v, 0)]
    } else {
        seq![
            byte_of(v, 7),
            byte_of(v, 6),
            byte_of(v, 5),
            byte_of(v, 4),
            byte_of(v, 3),
            byte_of(v, 2),
            byte_of(v, 1),
            byte_of(v, 0),
        ]
    }
}

/// An element: its ID, the size of its data, its data.
pub open spec fn element(id: u32, data: Seq<u8>) -> Seq<u8> {
    ebml_id_bytes(id) + vint_bytes(data.len() as u64) + data
}

/// Byte `k` (0 the lowest) of `n`, computed.
fn byte_at(n: u64, k: u64) -> (r: u8)
    requires
        k < 8,
    ensures
        r == byte_of(n, k),
{
    ((n >> (8 * k)) & 0xFF) as u8
}

/// What `size_to_vint` writes reads back as the size it encodes: for a
/// known size (below 2^56 - 1) the first byte gives the VINT's width, one
/// to four bytes by magnitude or eight, and the size value read is the
/// size, never the unknown-size value.
pub proof fn law_vint_reads_back(n: u64, rest: Seq<u8>)
    requires
        n < 0xFF_FFFF_FFFF_FFFF,
    ensures
        vint_bytes(n).len() == (if n < 0x7F {
            1nat
        } else if n < 0x3FFF {
            2nat
        } else if n < 0x1F_FFFF {
            3nat
        } else if n < 0x0FFF_FFFF {
            4nat
        } else {
            8nat
        }),
        vint_width((vint_bytes(n) + rest)[0]) == vint_bytes(n).len(),
        ebml_size_value(vint_bytes(n) + rest, 0, vint_bytes(n).len()) == n,
{
    let v = vint_bytes(n);
    let d = v + rest;
    reveal_with_fuel(be_acc, 8);
    let b0 = byte_of(n, 0);
    let b1 = byte_of(n, 1);
    let b2 = byte_of(n, 2);
    let b3 = byte_of(n, 3);
    let b4 = byte_of(n, 4);
    let b5 = byte_of(n, 5);
    let b6 = byte_of(n, 6);
    assert(b0 == n % 0x100 && b1 == (n / 0x100) % 0x100 && b2 == (n / 0x1_0000) % 0x100) by (bit_vector)
        requires
            b0 == ((n >> 0u64) & 0xFF) as u8,
            b1 == ((n >> 8u64) & 0xFF) as u8,
            b2 == ((n >> 16u64) & 0xFF) as u8,
    ;
    if n < 0x7F {
        assert(d[0] == (0x80 + n) as u8);
    } else if n < 0x3FFF {
        assert(d[0] == (0x40 + n / 0x100) as u8 && d[1] == b0);
        assert((n / 0x100) * 0x100 + n % 0x100 == n);
    } else if n < 0x1F_FFFF {
        assert(d[0] == (0x20 + n / 0x1_0000) as u8 && d[1] == b1 && d[2] == b0);
        assert(((n / 0x1_0000) * 0x100 + (n / 0x100) % 0x100) * 0x100 + n % 0x100 == n);
    } else if n < 0x0FFF_FFFF {
        assert(d[0] == (0x10 + n / 0x100_0000) as u8 && d[1] == b2 && d[2] == b1 && d[3] == b0);
        assert((((n / 0x100_0000) * 0x100 + (n / 0x1_0000) % 0x100) * 0x100 + (n / 0x100) % 0x100) * 0x100 + n
            % 0x100 == n);
    } else {
        assert(d[0] == 0x01 && d[1] == b6 && d[2] == b5 && d[3] == b4 && d[4] == b3 && d[5] == b2 && d[6] == b1
            && d[7] == b0);
        assert((((((b6 as u64 * 0x100 + b5 as u64) * 0x100 + b4 as u64) * 0x100 + b3 as u64) * 0x100 + b2 as u64)
            * 0x100 + b1 as u64) * 0x100 + b0 as u64 == n) by (bit_vector)
            requires
                n < 0x100_0000_0000_0000,
                b0 == ((n >> 0u64) & 0xFF) as u8,
                b1 == ((n >> 8u64) & 0xFF) as u8,
                b2 == ((n >> 16u64) & 0xFF) as u8,
                b3 == ((n >> 24u64) & 0xFF) as u8,
                b4 == ((n >> 32u64) & 0xFF) as u8,
                b5 == ((n >> 40u64) & 0xFF) as u8,
                b6 == ((n >> 48u64) & 0xFF) as u8,
        ;
    }
}

/// Encodes an element size as a VINT.
pub fn size_to_vint(size: u64) -> (r: Vec<u8>)
    ensures
        r@ == vint_bytes(size),
{
    let mut v: Vec<u8> = Vec::new();
    if size < 0x7F {
        v.push((0x80 + size) as u8);
    } else if size < 0x3FFF {
        v.push((0x40 + size / 0x100) as u8);
        v.push(byte_at(size, 0));
    } else if size < 0x1F_FFFF {
        v.push((0x20 + size / 0x1_0000) as u8);
        v.push(byte_at(size, 1));
        v.push(byte_at(size, 0));
    } else if size < 0x0FFF_FFFF {
        v.push((0x10 + size / 0x100_0000) as u8);
        v.push(byte_at(size, 2));
        v.push(byte_at(size, 1));
        v.push(byte_at(size, 0));
    } else {
        v.push(0x01);
        let mut k: u64 = 7;
        while k > 0
            invariant
                k <= 7,
                size >= 0x0FFF_FFFF,
                v@ == seq![0x01u8] + Seq::new((7 - k) as nat, |i: int| byte_of(size, (6 - i) as u64)),
            decreases k,
        {
            k = k - 1;
            let b = byte_at(size, k);
            let ghost before = v@;
            v.push(b);
            assert(v@ =~= seq![0x01u8] + Seq::new((7 - k) as nat, |i: int| byte_of(size, (6 - i) as u64)));
        }
    }
    assert(v@ =~= vint_bytes(size));
    v
}

/// Encodes an element ID.
pub fn id_to_bytes(id: u32) -> (r: Vec<u8>)
    ensures
        r@ == ebml_id_bytes(id),
{
    let n = id as u64;
    let mut v: Vec<u8> = Vec::new();
    if id <= 0xFF {
        v.push(byte_at(n, 0));
    } else if id <= 0xFFFF {
        v.push(byte_at(n, 1));
        v.push(byte_at(n, 0));
    } else if id <= 0xFF_FFFF {
        v.push(byte_at(n, 2));
        v.push(byte_at(n, 1));
        v.push(byte_at(n, 0));
    } else {
        v.push(byte_at(n, 3));
        v.push(byte_at(n, 2));
        v.push(byte_at(n, 1));
        v.push(byte_at(n, 0));
    }
    assert(v@ =~= ebml_id_bytes(id));
    v
}

/// Encodes the data of an unsigned element.
pub fn uint_to_bytes(value: u64) -> (r: Vec<u8>)
    ensures
        r@ == uint_bytes(value),
{
    let mut v: Vec<u8> = Vec::new();
    let top: u64 = if value <= 0xFF {
        1
    } else if value <= 0xFFFF {
        2
    } else if value <= 0xFF_FFFF {
        3
    } else if value <= 0xFFFF_FFFF {
        4
    } else {
        8
    };
    let mut k: u64 = top;
    while k > 0
        invariant
            k <= top,
            top == (if value <= 0xFF { 1u64 } else if value <= 0xFFFF { 2u64 } else if value <= 0xFF_FFFF {
                3u64
            } else if value <= 0xFFFF_FFFF { 4u64 } else { 8u64 }),
            v@ == Seq::new((top - k) as nat, |i: int| byte_of(value, (top - 1 - i) as u64)),
        decreases k,
    {
        k = k - 1;
        let b = byte_at(value, k);
        v.push(b);
        assert(v@ =~= Seq::new((top - k) as nat, |i: int| byte_of(value, (top - 1 - i) as u64)));
    }
    assert(v@ =~= uint_bytes(value));
    v
}

/// Appends an element header: the ID, then the size as a VINT.
pub fn write_element_header(out: &mut Vec<u8>, id: u32, size: u64)
    ensures
        final(out)@ == old(out)@ + ebml_id_bytes(id) + vint_bytes(size),
{
    let i = id_to_bytes(id);
    push_all(out, i.as_slice());
    let s = size_to_vint(size);
    push_all(out, s.as_slice());
}

/// Appends an element holding `data`.
pub fn write_binary_element_buf(out: &mut Vec<u8>, id: u32, data: &[u8])
    ensures
        final(out)@ == old(out)@ + element(id, data@),
{
    write_element_header(out, id, data.len() as u64);
    push_all(out, data);
    assert(out@ =~= old(out)@ + element(id, data@));
}

/// Appends an unsigned element.
pub fn write_uint_full_element(out: &mut Vec<u8>, id: u32, value: u64)
    ensures
        final(out)@ == old(out)@ + element(id, uint_bytes(value)),
{
    let b = uint_to_bytes(value);
    write_binary_element_buf(out, id, b.as_slice());
}

/// The Matroska codec ID of a codec, for the codecs the writer carries.
pub open spec fn mkv_codec_name(c: CodecId) -> Option<&'static str> {
    match c {
        CodecId::H264 => Some("V_MPEG4/ISO/AVC"),
        CodecId::H265 => Some("V_MPEGH/ISO/HEVC"),
        CodecId::Vp9 => Some("V_VP9"),
        CodecId::Av1 => Some("V_AV1"),
        CodecId::Aac => Some("A_AAC"),
        CodecId::Mp3 => Some("A_MPEG/L3"),
        CodecId::Opus => Some("A_OPUS"),
        CodecId::Flac => Some("A_FLAC"),
        CodecId::Vorbis => Some("A_VORBIS"),
        CodecId::Ac3 => Some("A_AC3"),
        CodecId::Eac3 => Some("A_EAC3"),
        _ => None,
    }
}

/// Looks up the Matroska codec ID of a codec.
pub fn codec_id_to_mkv(codec_id: CodecId) -> (r: TaoResult<&'static str>)
    ensures
        match mkv_codec_name(codec_id) {
            Some(n) => r == Ok::<&'static str, TaoError>(n),
            None => r matches Err(e) && e.kind() == ErrorKind::Unsupported,
        },
{
    match codec_id {
        CodecId::H264 => Ok("V_MPEG4/ISO/AVC"),
        CodecId::H265 => Ok("V_MPEGH/ISO/HEVC"),
        CodecId::Vp9 => Ok("V_VP9"),
        CodecId::Av1 => Ok("V_AV1"),
        CodecId::Aac => Ok("A_AAC"),
        CodecId::Mp3 => Ok("A_MPEG/L3"),
        CodecId::Opus => Ok("A_OPUS"),
        CodecId::Flac => Ok("A_FLAC"),
        CodecId::Vorbis => Ok("A_VORBIS"),
        CodecId::Ac3 => Ok("A_AC3"),
        CodecId::Eac3 => Ok("A_EAC3"),
        _ => Err(unsupported("MKV: codec not supported")),
    }
}

/// Number of binary digits of `x` (0 for 0).
pub open spec fn bit_len(x: nat) -> nat
    decreases x,
{
    if x == 0 {
        0
    } else {
        1 + bit_len(x / 2)
    }
}

/// The IEEE 754 binary64 bits of a double that holds the integer `x`
/// exactly (at most 53 significant bits): sign 0, biased exponent
/// `1023 + e` for the leading bit `2^e`, and the 52 bits after it; 0 for 0.
pub open spec fn f64_bits_exact(x: nat) -> u64 {
    if x == 0 {
        0
    } else {
        let e = (bit_len(x) - 1) as nat;
        let frac = if e >= 52 {
            ((x - pow2(e)) as nat) / pow2((e - 52) as nat)
        } else {
            ((x - pow2(e)) as nat) * pow2((52 - e) as nat)
        };
        ((1023 + e) * pow2(52) + frac) as u64
    }
}

/// An integer between `2^e` and `2^(e+1)` has `e + 1` binary digits.
proof fn lemma_bit_len(x: nat, e: nat)
    requires
        pow2(e) <= x < pow2(e + 1),
    ensures
        bit_len(x) == e + 1,
    decreases e,
{
    lemma_pow2_unfold(e + 1);
    lemma_pow2_pos(e);
    if e == 0 {
        assert(pow2(0) == 1) by {
            lemma2_to64();
        }
        assert(x == 1);
        assert(bit_len(0) == 0);
    } else {
        lemma_pow2_unfold(e);
        lemma_bit_len(x / 2, (e - 1) as nat);
    }
}

/// `2^k`, computed, for `k` up to 64.
fn pow2_u128(k: u64) -> (r: u128)
    requires
        k <= 64,
    ensures
        r == pow2(k as nat),
{
    let mut r: u128 = 1;
    let mut i: u64 = 0;
    proof {
        lemma2_to64();
    }
    while i < k
        invariant
            i <= k <= 64,
            r == pow2(i as nat),
            pow2(64) == 0x1_0000_0000_0000_0000,
        decreases k - i,
    {
        proof {
            lemma_pow2_unfold((i + 1) as nat);
            lemma_pow2_strictly_increases((i + 1) as nat, 65);
            lemma_pow2_unfold(65);
        }
        r = r * 2;
        i = i + 1;
    }
    r
}

/// The bits of the double that holds the integer `x` exactly.
pub fn f64_bits_of_exact(x: u128) -> (r: u64)
    requires
        x <= 0x1_0000_0000_0000_0000,
    ensures
        r == f64_bits_exact(x as nat),
{
    if x == 0 {
        return 0;
    }
    let mut e: u64 = 0;
    let mut p: u128 = 1;
    proof {
        lemma2_to64();
    }
    while p <= x / 2
        invariant
            0 < x <= 0x1_0000_0000_0000_0000,
            p == pow2(e as nat),
            0 < p <= x,
            e <= 64,
            pow2(64) == 0x1_0000_0000_0000_0000,
        decreases x - p,
    {
        proof {
            lemma_pow2_unfold((e + 1) as nat);
            if e + 1 > 64 {
                lemma_pow2_strictly_increases(64, (e + 1) as nat);
            }
        }
        p = p * 2;
        e = e + 1;
    }
    proof {
        lemma_pow2_unfold((e + 1) as nat);
        lemma_bit_len(x as nat, e as nat);
    }
    let frac: u128 = if e >= 52 {
        let d = pow2_u128(e - 52);
        proof {
            lemma_pow2_adds((e - 52) as nat, 52);
            assert(pow2(52) == 0x10_0000_0000_0000) by {
                lemma2_to64_rest();
            }
            lemma_pow2_pos((e - 52) as nat);
            let ghost a: int = (x - p) as int;
            assert(a / (d as int) < 0x10_0000_0000_0000) by (nonlinear_arith)
                requires
                    a < p,
                    a >= 0,
                    p == d * 0x10_0000_0000_0000,
                    d > 0,
            ;
        }
        (x - p) / d
    } else {
        let q = pow2_u128(52 - e);
        proof {
            lemma_pow2_adds(e as nat, (52 - e) as nat);
            lemma_pow2_pos((52 - e) as nat);
            assert(pow2(52) == 0x10_0000_0000_0000) by {
                lemma2_to64_rest();
            }
            assert((x - p) * q < 0x10_0000_0000_0000) by (nonlinear_arith)
                requires
                    x - p < p,
                    p * q == 0x10_0000_0000_0000,
                    q > 0,
            ;
        }
        (x - p) * q
    };
    assert(pow2(52) == 0x10_0000_0000_0000) by {
        lemma2_to64_rest();
    }
    (1023 + e) * 0x10_0000_0000_0000u64 + (frac as u64)
}

/// Appends an element holding the bytes of `value`.
pub fn write_string_element_buf(out: &mut Vec<u8>, id: u32, value: &str)
    ensures
        final(out)@ == old(out)@ + element(id, value.spec_bytes()),
{
    write_binary_element_buf(out, id, value.as_bytes());
}

/// Appends an element holding the eight big-endian bytes of `bits` (a
/// double).
fn write_double_element_buf(out: &mut Vec<u8>, id: u32, bits: u64)
    ensures
        final(out)@ == old(out)@ + element(id, be64_bytes(bits)),
{
    let b = u64_to_be(bits);
    write_binary_element_buf(out, id, &b);
}

/// Element IDs the writer uses.
pub const EBML_HEADER: u32 = 0x1A45_DFA3;
pub const EBML_VERSION: u32 = 0x4286;
pub const EBML_READ_VERSION: u32 = 0x42F7;
pub const EBML_MAX_ID_LENGTH: u32 = 0x42F2;
pub const EBML_MAX_SIZE_LENGTH: u32 = 0x42F3;
pub const EBML_DOC_TYPE: u32 = 0x4282;
pub const EBML_DOC_TYPE_VERSION: u32 = 0x4287;
pub const EBML_DOC_TYPE_READ_VERSION: u32 = 0x4285;
pub const SEGMENT: u32 = 0x1853_8067;
pub const SEGMENT_INFO: u32 = 0x1549_A966;
pub const INFO_TIMESCALE: u32 = 0x002A_D7B1;
pub const INFO_DURATION: u32 = 0x4489;
pub const TRACKS: u32 = 0x1654_AE6B;
pub const TRACK_ENTRY: u32 = 0xAE;
pub const TRACK_NUMBER: u32 = 0xD7;
pub const TRACK_UID: u32 = 0x73C5;
pub const TRACK_TYPE: u32 = 0x83;
pub const TRACK_CODEC_ID: u32 = 0x86;
pub const TRACK_CODEC_PRIVATE: u32 = 0x63A2;
pub const TRACK_DEFAULT_DURATION: u32 = 0x0023_E383;
pub const VIDEO_SETTINGS: u32 = 0xE0;
pub const VIDEO_PIXEL_WIDTH: u32 = 0xB0;
pub const VIDEO_PIXEL_HEIGHT: u32 = 0xBA;
pub const AUDIO_SETTINGS: u32 = 0xE1;
pub const AUDIO_SAMPLING_FREQ: u32 = 0xB5;
pub const AUDIO_CHANNELS: u32 = 0x9F;
pub const AUDIO_BIT_DEPTH: u32 = 0x6264;
pub const CLUSTER: u32 = 0x1F43_B675;
pub const CLUSTER_TIMESTAMP: u32 = 0xE7;
pub const SIMPLE_BLOCK: u32 = 0xA3;

/// An unsigned element.
pub open spec fn uint_el(id: u32, v: u64) -> Seq<u8> {
    element(id, uint_bytes(v))
}

/// The document type: "webm" or "matroska".
pub open spec fn doc_type(webm: bool) -> &'static str {
    if webm {
        "webm"
    } else {
        "matroska"
    }
}

/// The EBML header: version 1, read version 1, IDs of at most 4 bytes,
/// sizes of at most 8, the document type, its version 4 and read
/// version 2.
pub open spec fn ebml_head(webm: bool) -> Seq<u8> {
    element(
        EBML_HEADER,
        uint_el(EBML_VERSION, 1) + uint_el(EBML_READ_VERSION, 1) + uint_el(EBML_MAX_ID_LENGTH, 4) + uint_el(
            EBML_MAX_SIZE_LENGTH,
            8,
        ) + element(EBML_DOC_TYPE, doc_type(webm).spec_bytes()) + uint_el(EBML_DOC_TYPE_VERSION, 4) + uint_el(
            EBML_DOC_TYPE_READ_VERSION,
            2,
        ),
    )
}

/// The Segment ID with an eight byte "unknown size".
pub open spec fn segment_head() -> Seq<u8> {
    ebml_id_bytes(SEGMENT) + seq![0x01u8, 0xFF, 0xFF, 0xFF, 0xFF, 0xFF, 0xFF, 0xFF]
}

/// The Info data before the duration's eight bytes: a timestamp scale of
/// 1 ms, then the header of the duration (a double).
pub open spec fn info_lead() -> Seq<u8> {
    uint_el(INFO_TIMESCALE, 1_000_000) + ebml_id_bytes(INFO_DURATION) + vint_bytes(8)
}

/// The Info element, with a duration of 0.0 to be filled in by the
/// trailer.
pub open spec fn info_el() -> Seq<u8> {
    element(SEGMENT_INFO, info_lead() + seq![0u8, 0, 0, 0, 0, 0, 0, 0])
}

/// Where the duration's eight bytes stand, from the start of the header.
pub open spec fn duration_pos(webm: bool) -> nat {
    ebml_head(webm).len() + segment_head().len() + ebml_id_bytes(SEGMENT_INFO).len() + vint_bytes(
        (info_lead().len() + 8) as u64,
    ).len() + info_lead().len()
}

/// The Matroska track type: 1 video, 2 audio, 0 otherwise.
pub open spec fn track_type(m: MediaType) -> u64 {
    match m {
        MediaType::Video => 1,
        MediaType::Audio => 2,
        _ => 0,
    }
}

/// The default duration of a frame in nanoseconds, `num * 10^9 / den` for
/// a positive time base, when not 0.
pub open spec fn default_duration_el(s: Stream) -> Seq<u8> {
    if s.time_base.num > 0 && s.time_base.den > 0 {
        let d = (s.time_base.num as nat * 1_000_000_000) / (s.time_base.den as nat);
        if d > 0 {
            uint_el(TRACK_DEFAULT_DURATION, d as u64)
        } else {
            seq![]
        }
    } else {
        seq![]
    }
}

/// The video settings (width, height) or audio settings (sampling
/// frequency as a double, channels, bit depth when known) of a stream.
pub open spec fn settings_el(s: Stream) -> Seq<u8> {
    match s.params {
        StreamParams::Video(v) => element(
            VIDEO_SETTINGS,
            uint_el(VIDEO_PIXEL_WIDTH, v.width as u64) + uint_el(VIDEO_PIXEL_HEIGHT, v.height as u64),
        ),
        StreamParams::Audio(a) => element(
            AUDIO_SETTINGS,
            element(AUDIO_SAMPLING_FREQ, be64_bytes(f64_bits_exact(a.sample_rate as nat))) + uint_el(
                AUDIO_CHANNELS,
                a.channel_layout.channels as u64,
            ) + if sample_bytes(a.sample_format) > 0 {
                uint_el(AUDIO_BIT_DEPTH, (sample_bytes(a.sample_format) * 8) as u64)
            } else {
                seq![]
            },
        ),
        _ => seq![],
    }
}

/// The TrackEntry of a stream with track number `n` and Matroska codec ID
/// `codec`.
pub open spec fn track_entry(s: Stream, n: u8, codec: &'static str) -> Seq<u8> {
    element(
        TRACK_ENTRY,
        uint_el(TRACK_NUMBER, n as u64) + uint_el(TRACK_UID, n as u64) + uint_el(TRACK_TYPE, track_type(s.media_type))
            + element(TRACK_CODEC_ID, codec.spec_bytes()) + (if s.extra_data@.len() > 0 {
            element(TRACK_CODEC_PRIVATE, s.extra_data@)
        } else {
            seq![]
        }) + default_duration_el(s) + settings_el(s),
    )
}

/// Builds the TrackEntry of a stream; a codec Matroska has no ID for
/// fails with `Unsupported`.
pub fn build_track_entry(stream: &Stream, track_number: u8) -> (r: TaoResult<Vec<u8>>)
    ensures
        match mkv_codec_name(stream.codec_id) {
            Some(c) => r matches Ok(v) && v@ == track_entry(*stream, track_number, c),
            None => r matches Err(e) && e.kind() == ErrorKind::Unsupported,
        },
{
    let codec = codec_id_to_mkv(stream.codec_id)?;
    let mut content: Vec<u8> = Vec::new();
    write_uint_full_element(&mut content, TRACK_NUMBER, track_number as u64);
    write_uint_full_element(&mut content, TRACK_UID, track_number as u64);
    let track_type: u64 = match stream.media_type {
        MediaType::Video => 1,
        MediaType::Audio => 2,
        _ => 0,
    };
    write_uint_full_element(&mut content, TRACK_TYPE, track_type);
    write_string_element_buf(&mut content, TRACK_CODEC_ID, codec);
    let ghost c1 = content@;
    if stream.extra_data.len() > 0 {
        write_binary_element_buf(&mut content, TRACK_CODEC_PRIVATE, stream.extra_data.as_slice());
    }
    let ghost c2 = content@;
    if stream.time_base.num > 0 && stream.time_base.den > 0 {
        let duration_ns = stream.time_base.num as u64 * 1_000_000_000 / stream.time_base.den as u64;
        if duration_ns > 0 {
            write_uint_full_element(&mut content, TRACK_DEFAULT_DURATION, duration_ns);
        }
    }
    let ghost c3 = content@;
    assert(c3 == c2 + default_duration_el(*stream));
    match &stream.params {
        StreamParams::Video(v) => {
            let mut video: Vec<u8> = Vec::new();
            write_uint_full_element(&mut video, VIDEO_PIXEL_WIDTH, v.width as u64);
            write_uint_full_element(&mut video, VIDEO_PIXEL_HEIGHT, v.height as u64);
            write_binary_element_buf(&mut content, VIDEO_SETTINGS, video.as_slice());
        },
        StreamParams::Audio(a) => {
            let mut audio: Vec<u8> = Vec::new();
            let bits = f64_bits_of_exact(a.sample_rate as u128);
            write_double_element_buf(&mut audio, AUDIO_SAMPLING_FREQ, bits);
            write_uint_full_element(&mut audio, AUDIO_CHANNELS, a.channel_layout.channels as u64);
            let bps = a.sample_format.bytes_per_sample();
            if bps > 0 {
                write_uint_full_element(&mut audio, AUDIO_BIT_DEPTH, (bps * 8) as u64);
            }
            write_binary_element_buf(&mut content, AUDIO_SETTINGS, audio.as_slice());
        },
        _ => {},
    }
    assert(content@ =~= c3 + settings_el(*stream));
    let mut buf: Vec<u8> = Vec::new();
    write_binary_element_buf(&mut buf, TRACK_ENTRY, content.as_slice());
    assert(buf@ =~= track_entry(*stream, track_number, codec));
    Ok(buf)
}

/// Every Matroska codec ID the writer uses is ASCII and at most 16 bytes
/// long.
proof fn lemma_mkv_codec_name_short(c: CodecId)
    ensures
        mkv_codec_name(c) matches Some(n) ==> n.spec_bytes().len() <= 16,
        doc_type(true).spec_bytes().len() <= 8,
        doc_type(false).spec_bytes().len() <= 8,
{
    broadcast use vstd::string::is_ascii_spec_bytes;
    reveal_strlit("webm");
    assert(vstd::string::is_ascii("webm"));
    reveal_strlit("matroska");
    assert(vstd::string::is_ascii("matroska"));
    match c {
        CodecId::H264 => {
            reveal_strlit("V_MPEG4/ISO/AVC");
            assert(vstd::string::is_ascii("V_MPEG4/ISO/AVC"));
        },
        CodecId::H265 => {
            reveal_strlit("V_MPEGH/ISO/HEVC");
            assert(vstd::string::is_ascii("V_MPEGH/ISO/HEVC"));
        },
        CodecId::Vp9 => {
            reveal_strlit("V_VP9");
            assert(vstd::string::is_ascii("V_VP9"));
        },
        CodecId::Av1 => {
            reveal_strlit("V_AV1");
            assert(vstd::string::is_ascii("V_AV1"));
        },
        CodecId::Aac => {
            reveal_strlit("A_AAC");
            assert(vstd::string::is_ascii("A_AAC"));
        },
        CodecId::Mp3 => {
            reveal_strlit("A_MPEG/L3");
            assert(vstd::string::is_ascii("A_MPEG/L3"));
        },
        CodecId::Opus => {
            reveal_strlit("A_OPUS");
            assert(vstd::string::is_ascii("A_OPUS"));
        },
        CodecId::Flac => {
            reveal_strlit("A_FLAC");
            assert(vstd::string::is_ascii("A_FLAC"));
        },
        CodecId::Vorbis => {
            reveal_strlit("A_VORBIS");
            assert(vstd::string::is_ascii("A_VORBIS"));
        },
        CodecId::Ac3 => {
            reveal_strlit("A_AC3");
            assert(vstd::string::is_ascii("A_AC3"));
        },
        CodecId::Eac3 => {
            reveal_strlit("A_EAC3");
            assert(vstd::string::is_ascii("A_EAC3"));
        },
        _ => {},
    }
}

/// Lengths of the pieces of an element.
proof fn lemma_piece_lens(id: u32, n: u64, v: u64)
    ensures
        ebml_id_bytes(id).len() <= 4,
        vint_bytes(n).len() <= 8,
        uint_bytes(v).len() <= 8,
        uint_el(id, v).len() <= 20,
{
}

/// A TrackEntry is its codec private data and at most 400 bytes more.
proof fn lemma_track_entry_len(s: Stream, n: u8, c: &'static str)
    requires
        c.spec_bytes().len() <= 16,
    ensures
        track_entry(s, n, c).len() <= s.extra_data@.len() + 400,
{
    let e = s.extra_data@.len();
    lemma_piece_lens(TRACK_CODEC_PRIVATE, e as u64, 0);
    lemma_piece_lens(TRACK_CODEC_ID, c.spec_bytes().len() as u64, 0);
    lemma_piece_lens(TRACK_NUMBER, 0, n as u64);
    lemma_piece_lens(TRACK_UID, 0, n as u64);
    lemma_piece_lens(TRACK_TYPE, 0, track_type(s.media_type));
    match s.params {
        StreamParams::Video(v) => {
            let inner = uint_el(VIDEO_PIXEL_WIDTH, v.width as u64) + uint_el(VIDEO_PIXEL_HEIGHT, v.height as u64);
            lemma_piece_lens(VIDEO_PIXEL_WIDTH, 0, v.width as u64);
            lemma_piece_lens(VIDEO_PIXEL_HEIGHT, 0, v.height as u64);
            lemma_piece_lens(VIDEO_SETTINGS, inner.len() as u64, 0);
        },
        StreamParams::Audio(a) => {
            lemma_piece_lens(AUDIO_SAMPLING_FREQ, 8, 0);
            lemma_piece_lens(AUDIO_CHANNELS, 0, a.channel_layout.channels as u64);
            lemma_piece_lens(AUDIO_BIT_DEPTH, 0, (sample_bytes(a.sample_format) * 8) as u64);
            let inner = element(AUDIO_SAMPLING_FREQ, be64_bytes(f64_bits_exact(a.sample_rate as nat))) + uint_el(
                AUDIO_CHANNELS,
                a.channel_layout.channels as u64,
            ) + if sample_bytes(a.sample_format) > 0 {
                uint_el(AUDIO_BIT_DEPTH, (sample_bytes(a.sample_format) * 8) as u64)
            } else {
                seq![]
            };
            lemma_piece_lens(AUDIO_SETTINGS, inner.len() as u64, 0);
        },
        _ => {},
    }
    if s.time_base.num > 0 && s.time_base.den > 0 {
        let d = (s.time_base.num as nat * 1_000_000_000) / (s.time_base.den as nat);
        lemma_piece_lens(TRACK_DEFAULT_DURATION, 0, d as u64);
    }
    let content = uint_el(TRACK_NUMBER, n as u64) + uint_el(TRACK_UID, n as u64) + uint_el(
        TRACK_TYPE,
        track_type(s.media_type),
    ) + element(TRACK_CODEC_ID, c.spec_bytes()) + (if s.extra_data@.len() > 0 {
        element(TRACK_CODEC_PRIVATE, s.extra_data@)
    } else {
        seq![]
    }) + default_duration_el(s) + settings_el(s);
    lemma_piece_lens(TRACK_ENTRY, content.len() as u64, 0);
}

/// A track as the writer keeps it.
#[derive(Clone, Copy)]
pub struct MkvTrack {
    /// Index of the stream it carries.
    pub stream_index: usize,
    /// Track number, from 1.
    pub track_number: u8,
    /// Time base numerator of the stream.
    pub timescale_num: i64,
    /// Time base denominator of the stream.
    pub timescale_den: i64,
}

/// The tracks of the first `k` streams: numbered from 1, with their time
/// bases.
pub open spec fn tracks_of(streams: Seq<Stream>, k: nat) -> Seq<MkvTrack> {
    Seq::new(
        k,
        |j: int|
            MkvTrack {
                stream_index: streams[j].index,
                track_number: (j + 1) as u8,
                timescale_num: streams[j].time_base.num as i64,
                timescale_den: streams[j].time_base.den as i64,
            },
    )
}

/// Whether Matroska has a codec ID for each of the first `k` streams.
pub open spec fn codecs_known(streams: Seq<Stream>, k: nat) -> bool {
    forall|j: int| 0 <= j < k ==> #[trigger] mkv_codec_name(streams[j].codec_id) is Some
}

/// The TrackEntries of the first `k` streams.
pub open spec fn tracks_body(streams: Seq<Stream>, k: nat) -> Seq<u8>
    decreases k,
{
    if k == 0 {
        seq![]
    } else {
        tracks_body(streams, (k - 1) as nat) + track_entry(
            streams[k - 1],
            k as u8,
            mkv_codec_name(streams[k - 1].codec_id)->Some_0,
        )
    }
}

/// Writes an element to the output.
fn write_element_io(io: &mut IoContext, id: u32, data: &[u8]) -> (r: TaoResult<()>)
    requires
        old(io).cursor() + data@.len() + 12 <= usize::MAX,
        old(io).contents().len() + data@.len() + 12 <= usize::MAX,
    ensures
        r is Ok,
        final(io).contents() == written(old(io).contents(), old(io).cursor(), element(id, data@)),
        final(io).cursor() == old(io).cursor() + element(id, data@).len(),
{
    let mut head: Vec<u8> = Vec::new();
    write_element_header(&mut head, id, data.len() as u64);
    proof {
        lemma_piece_lens(id, data.len() as u64, 0);
    }
    let ghost d0 = io.contents();
    let ghost c0 = io.cursor();
    io.write_all(head.as_slice())?;
    io.write_all(data)?;
    proof {
        lemma_written_concat(d0, c0, head@, data@);
        assert(head@ + data@ =~= element(id, data@));
    }
    Ok(())
}

/// The TrackEntries of the streams, numbered from 1; the first stream
/// whose codec Matroska has no ID for fails with `Unsupported`.
fn build_tracks(streams: &[Stream]) -> (r: TaoResult<Vec<u8>>)
    requires
        streams@.len() <= 255,
        forall|j: int| 0 <= j < streams@.len() ==> #[trigger] streams@[j].extra_data@.len() <= 0x1_0000_0000,
    ensures
        codecs_known(streams@, streams@.len()) ==> (r matches Ok(v) && v@ == tracks_body(streams@, streams@.len())
            && v@.len() <= 255 * (0x1_0000_0000 + 400)),
        !codecs_known(streams@, streams@.len()) ==> (r matches Err(e) && e.kind() == ErrorKind::Unsupported),
{
    let mut tracks_content: Vec<u8> = Vec::new();
    let mut k: usize = 0;
    while k < streams.len()
        invariant
            k <= streams@.len() <= 255,
            forall|j: int| 0 <= j < streams@.len() ==> #[trigger] streams@[j].extra_data@.len() <= 0x1_0000_0000,
            tracks_content@ == tracks_body(streams@, k as nat),
            tracks_content@.len() <= k * (0x1_0000_0000 + 400),
            codecs_known(streams@, k as nat),
        decreases streams.len() - k,
    {
        proof {
            lemma_mkv_codec_name_short(streams@[k as int].codec_id);
            if mkv_codec_name(streams@[k as int].codec_id) is Some {
                lemma_track_entry_len(
                    streams@[k as int],
                    (k + 1) as u8,
                    mkv_codec_name(streams@[k as int].codec_id)->Some_0,
                );
            }
            assert(k * (0x1_0000_0000 + 400) + 0x1_0000_0000 + 400 == (k + 1) * (0x1_0000_0000 + 400))
                by (nonlinear_arith);
        }
        let entry = match build_track_entry(&streams[k], k as u8 + 1) {
            Ok(e) => e,
            Err(e) => {
                proof {
                    assert(mkv_codec_name(streams@[k as int].codec_id) is None);
                    assert(!codecs_known(streams@, streams@.len()));
                }
                return Err(e);
            },
        };
        push_all(&mut tracks_content, entry.as_slice());
        k = k + 1;
        assert(codecs_known(streams@, k as nat));
    }
    assert(tracks_content@.len() <= 255 * (0x1_0000_0000 + 400)) by (nonlinear_arith)
        requires
            tracks_content@.len() <= k * (0x1_0000_0000 + 400),
            k <= 255,
    ;
    Ok(tracks_content)
}

/// The EBML header, the Segment start and the Info's ID and size.
fn head_prefix(webm: bool) -> (r: Vec<u8>)
    ensures
        r@ + info_lead() + seq![0u8, 0, 0, 0, 0, 0, 0, 0] == ebml_head(webm) + segment_head() + info_el(),
        r@.len() + info_lead().len() == duration_pos(webm),
        r@.len() <= 300,
        info_lead().len() <= 40,
{
    proof {
        lemma_mkv_codec_name_short(CodecId::H264);
    }
    let doc_type = if webm {
        "webm"
    } else {
        "matroska"
    };
    let mut ebml: Vec<u8> = Vec::new();
    write_uint_full_element(&mut ebml, EBML_VERSION, 1);
    write_uint_full_element(&mut ebml, EBML_READ_VERSION, 1);
    write_uint_full_element(&mut ebml, EBML_MAX_ID_LENGTH, 4);
    write_uint_full_element(&mut ebml, EBML_MAX_SIZE_LENGTH, 8);
    write_string_element_buf(&mut ebml, EBML_DOC_TYPE, doc_type);
    write_uint_full_element(&mut ebml, EBML_DOC_TYPE_VERSION, 4);
    write_uint_full_element(&mut ebml, EBML_DOC_TYPE_READ_VERSION, 2);
    proof {
        lemma_piece_lens(EBML_DOC_TYPE, doc_type.spec_bytes().len() as u64, 1);
        lemma_piece_lens(EBML_HEADER, ebml@.len() as u64, 0);
        lemma_piece_lens(SEGMENT, 0, 0);
        lemma_piece_lens(INFO_TIMESCALE, 0, 1_000_000);
        lemma_piece_lens(INFO_DURATION, 8, 0);
        lemma_piece_lens(SEGMENT_INFO, (info_lead().len() + 8) as u64, 0);
    }
    let mut out: Vec<u8> = Vec::new();
    write_binary_element_buf(&mut out, EBML_HEADER, ebml.as_slice());
    assert(out@ =~= ebml_head(webm));
    let seg = id_to_bytes(SEGMENT);
    push_all(&mut out, seg.as_slice());
    let unknown: [u8; 8] = [0x01, 0xFF, 0xFF, 0xFF, 0xFF, 0xFF, 0xFF, 0xFF];
    push_all(&mut out, &unknown);
    assert(out@ =~= ebml_head(webm) + segment_head());
    write_element_header(&mut out, SEGMENT_INFO, (info_lead_len() + 8) as u64);
    assert(out@ + info_lead() + seq![0u8, 0, 0, 0, 0, 0, 0, 0] =~= ebml_head(webm) + segment_head() + info_el());
    out
}

/// The length of the Info data before the duration.
fn info_lead_len() -> (r: usize)
    ensures
        r == info_lead().len(),
        r <= 40,
{
    let (_, pos) = info_data();
    pos
}

/// The Info data, and where in it the duration's eight bytes start.
fn info_data() -> (r: (Vec<u8>, usize))
    ensures
        r.0@ == info_lead() + seq![0u8, 0, 0, 0, 0, 0, 0, 0],
        r.1 == info_lead().len(),
        r.1 <= 40,
{
    let mut info: Vec<u8> = Vec::new();
    write_uint_full_element(&mut info, INFO_TIMESCALE, 1_000_000);
    write_element_header(&mut info, INFO_DURATION, 8);
    let pos = info.len();
    proof {
        lemma_piece_lens(INFO_TIMESCALE, 0, 1_000_000);
        lemma_piece_lens(INFO_DURATION, 8, 0);
    }
    assert(info@ =~= info_lead());
    let zeros: [u8; 8] = [0, 0, 0, 0, 0, 0, 0, 0];
    push_all(&mut info, &zeros);
    assert(info@ =~= info_lead() + seq![0u8, 0, 0, 0, 0, 0, 0, 0]);
    (info, pos)
}

/// Division that rounds toward zero, for a positive divisor.
pub open spec fn trunc_div(a: int, b: int) -> int {
    if a >= 0 {
        a / b
    } else {
        -((-a) / b)
    }
}

/// The first of the tracks from `i` on that carries stream `idx`.
pub open spec fn track_for(ts: Seq<MkvTrack>, idx: usize, i: nat) -> Option<MkvTrack>
    decreases ts.len() - i,
{
    if i >= ts.len() {
        None
    } else if ts[i as int].stream_index == idx {
        Some(ts[i as int])
    } else {
        track_for(ts, idx, i + 1)
    }
}

/// The bits of the double nearest to `m` (ties to even).
pub open spec fn duration_bits(m: i64) -> u64 {
    f64_bits_exact(rne53(m as nat))
}

/// A SimpleBlock: the track number as a one byte VINT, the timestamp
/// relative to the Cluster's (16 bits, big-endian), the flags (0x80 for a
/// keyframe), the frame.
pub open spec fn simple_block(track_number: u8, rel: i16, key: bool, frame: Seq<u8>) -> Seq<u8> {
    element(
        SIMPLE_BLOCK,
        seq![0x80u8 | track_number] + be16_bytes(rel as u16) + seq![if key { 0x80u8 } else { 0u8 }] + frame,
    )
}

/// Writer of Matroska and WebM files: the EBML header, a Segment of
/// unknown size with its Info and Tracks, then Clusters of SimpleBlocks.
pub struct MkvMuxer {
    webm: bool,
    tracks: Vec<MkvTrack>,
    cluster_timestamp: i64,
    cluster_open: bool,
    cluster_buf: Vec<u8>,
    duration_offset: u64,
    max_timestamp_ms: i64,
}

impl MkvMuxer {
    /// Whether the output is WebM.
    pub closed spec fn is_webm(&self) -> bool {
        self.webm
    }

    /// The tracks, in the order the streams were given.
    pub closed spec fn tracks(&self) -> Seq<MkvTrack> {
        self.tracks@
    }

    /// Timestamp (ms) of the open Cluster.
    pub closed spec fn cluster_ts(&self) -> i64 {
        self.cluster_timestamp
    }

    /// Whether a Cluster is open.
    pub closed spec fn cluster_open(&self) -> bool {
        self.cluster_open
    }

    /// The data of the open Cluster, not yet written.
    pub closed spec fn cluster_data(&self) -> Seq<u8> {
        self.cluster_buf@
    }

    /// Where the duration's eight bytes stand in the output.
    pub closed spec fn duration_at(&self) -> u64 {
        self.duration_offset
    }

    /// The largest packet timestamp (ms) so far.
    pub closed spec fn max_ms(&self) -> i64 {
        self.max_timestamp_ms
    }

    /// The state a writer starts in.
    pub open spec fn fresh(&self, webm: bool) -> bool {
        &&& self.is_webm() == webm
        &&& self.tracks().len() == 0
        &&& self.cluster_ts() == -1
        &&& !self.cluster_open()
        &&& self.cluster_data().len() == 0
        &&& self.duration_at() == 0
        &&& self.max_ms() == 0
    }

    fn with_kind(webm: bool) -> (r: Self)
        ensures
            r.fresh(webm),
    {
        MkvMuxer {
            webm,
            tracks: Vec::new(),
            cluster_timestamp: -1,
            cluster_open: false,
            cluster_buf: Vec::new(),
            duration_offset: 0,
            max_timestamp_ms: 0,
        }
    }

    /// A Matroska writer.
    pub fn new() -> (r: Self)
        ensures
            r.fresh(false),
    {
        Self::with_kind(false)
    }

    /// A WebM writer.
    pub fn new_webm() -> (r: Self)
        ensures
            r.fresh(true),
    {
        Self::with_kind(true)
    }

    /// A boxed Matroska writer, for a registry.
    pub fn create() -> (r: TaoResult<Box<dyn Muxer>>)
        ensures
            r matches Ok(m) && m.format_kind() == FormatId::Matroska,
    {
        Ok(Box::new(MkvMuxer::new()))
    }

    /// A boxed WebM writer, for a registry.
    pub fn create_webm() -> (r: TaoResult<Box<dyn Muxer>>)
        ensures
            r matches Ok(m) && m.format_kind() == FormatId::Webm,
    {
        Ok(Box::new(MkvMuxer::new_webm()))
    }

    /// The header `write_header` writes before the Tracks.
    pub open spec fn head_bytes(webm: bool) -> Seq<u8> {
        ebml_head(webm) + segment_head() + info_el()
    }

    /// What `write_header` does: with no stream, fails with
    /// `InvalidArgument` and changes nothing. Otherwise it adds a track per
    /// stream, writes the EBML header, the Segment start and the Info, and
    /// notes where the duration stands; then, when Matroska has a codec ID
    /// for every stream, it writes the Tracks, else it fails with
    /// `Unsupported`.
    pub open spec fn header_post(
        old_self: Self,
        new_self: Self,
        old_io: IoContext,
        new_io: IoContext,
        streams: Seq<Stream>,
        r: TaoResult<()>,
    ) -> bool {
        if streams.len() == 0 {
            r matches Err(e) && e.kind() == ErrorKind::InvalidArgument && new_self == old_self && new_io == old_io
        } else {
            let head = Self::head_bytes(old_self.is_webm());
            &&& new_self.is_webm() == old_self.is_webm()
            &&& new_self.tracks() == old_self.tracks() + tracks_of(streams, streams.len())
            &&& new_self.cluster_ts() == old_self.cluster_ts()
            &&& new_self.cluster_open() == old_self.cluster_open()
            &&& new_self.cluster_data() == old_self.cluster_data()
            &&& new_self.max_ms() == old_self.max_ms()
            &&& new_self.duration_at() == (old_io.cursor() + duration_pos(old_self.is_webm())) as u64
            &&& if codecs_known(streams, streams.len()) {
                let all = head + element(TRACKS, tracks_body(streams, streams.len()));
                &&& r is Ok
                &&& new_io.contents() == written(old_io.contents(), old_io.cursor(), all)
                &&& new_io.cursor() == old_io.cursor() + all.len()
            } else {
                &&& r matches Err(e) && e.kind() == ErrorKind::Unsupported
                &&& new_io.contents() == written(old_io.contents(), old_io.cursor(), head)
                &&& new_io.cursor() == old_io.cursor() + head.len()
            }
        }
    }

    /// Writes the EBML header, the Segment start and the Info, and notes
    /// where the duration stands.
    fn write_head(&mut self, io: &mut IoContext) -> (r: TaoResult<()>)
        requires
            out_in_range(*old(io)),
        ensures
            r is Ok,
            final(io).contents() == written(old(io).contents(), old(io).cursor(), Self::head_bytes(old(self).webm)),
            final(io).cursor() == old(io).cursor() + Self::head_bytes(old(self).webm).len(),
            Self::head_bytes(old(self).webm).len() <= 400,
            *final(self) == (MkvMuxer {
                duration_offset: (old(io).cursor() + duration_pos(old(self).webm)) as u64,
                ..*old(self)
            }),
    {
        let ghost d0 = io.contents();
        let ghost c0 = io.cursor();
        let prefix = head_prefix(self.webm);
        let (info, duration_data_pos) = info_data();
        io.write_all(prefix.as_slice())?;
        let info_data_start = io.position()?;
        io.write_all(info.as_slice())?;
        self.duration_offset = info_data_start + duration_data_pos as u64;
        proof {
            lemma_written_concat(d0, c0, prefix@, info@);
            assert(prefix@ + info@ =~= Self::head_bytes(self.webm));
        }
        Ok(())
    }

    /// Writes the header part of `write_header`.
    #[verifier::rlimit(40)]
    fn write_header_impl(&mut self, io: &mut IoContext, streams: &[Stream]) -> (r: TaoResult<()>)
        requires
            out_in_range(*old(io)),
            streams@.len() <= 255,
            forall|j: int| 0 <= j < streams@.len() ==> #[trigger] streams@[j].extra_data@.len() <= 0x1_0000_0000,
        ensures
            Self::header_post(*old(self), *final(self), *old(io), *final(io), streams@, r),
    {
        if streams.len() == 0 {
            return Err(invalid_argument("MKV: at least one stream is needed"));
        }
        let ghost t0 = self.tracks@;
        let mut i: usize = 0;
        while i < streams.len()
            invariant
                i <= streams@.len() <= 255,
                self.tracks@ == t0 + tracks_of(streams@, i as nat),
                self.webm == old(self).webm,
                self.cluster_timestamp == old(self).cluster_timestamp,
                self.cluster_open == old(self).cluster_open,
                self.cluster_buf@ == old(self).cluster_buf@,
                self.max_timestamp_ms == old(self).max_timestamp_ms,
            decreases streams.len() - i,
        {
            let stream = &streams[i];
            self.tracks.push(
                MkvTrack {
                    stream_index: stream.index,
                    track_number: i as u8 + 1,
                    timescale_num: stream.time_base.num as i64,
                    timescale_den: stream.time_base.den as i64,
                },
            );
            i = i + 1;
            assert(self.tracks@ =~= t0 + tracks_of(streams@, i as nat));
        }
        let ghost d0 = io.contents();
        let ghost c0 = io.cursor();
        self.write_head(io)?;
        assert(self.tracks@ == t0 + tracks_of(streams@, streams@.len()));
        let tracks_content = build_tracks(streams)?;
        write_element_io(io, TRACKS, tracks_content.as_slice())?;
        proof {
            lemma_written_concat(d0, c0, Self::head_bytes(self.webm), element(TRACKS, tracks_content@));
        }
        Ok(())
    }

    /// The timestamp of a packet in milliseconds: its presentation time
    /// scaled by its track's time base (rounded toward zero), or as it is
    /// when its stream has no track or the time base's denominator is not
    /// positive.
    pub open spec fn packet_ms(&self, p: Packet) -> int {
        match track_for(self.tracks(), p.stream_index, 0) {
            Some(t) => if t.timescale_den > 0 {
                trunc_div(p.pts * 1000 * t.timescale_num, t.timescale_den as int)
            } else {
                p.pts as int
            },
            None => p.pts as int,
        }
    }

    /// Whether the millisecond timestamp of a packet fits in 64 bits at
    /// each step.
    pub open spec fn ms_fits(&self, p: Packet) -> bool {
        match track_for(self.tracks(), p.stream_index, 0) {
            Some(t) => t.timescale_den > 0 ==> {
                &&& i64::MIN <= p.pts * 1000 <= i64::MAX
                &&& i64::MIN <= p.pts * 1000 * t.timescale_num <= i64::MAX
            },
            None => true,
        }
    }

    /// Whether a packet at `ts` starts a new Cluster: none is open, or the
    /// open one started 5 seconds or more before.
    pub open spec fn starts_cluster(&self, ts: int) -> bool {
        !self.cluster_open() || ts - self.cluster_ts() >= 5000
    }

    /// The track number a packet's block carries: its track's, else 1.
    pub open spec fn block_track(&self, p: Packet) -> u8 {
        match track_for(self.tracks(), p.stream_index, 0) {
            Some(t) => t.track_number,
            None => 1,
        }
    }

    /// The open Cluster, written out when there is one with data.
    pub open spec fn flushed(&self) -> Seq<u8> {
        if self.cluster_open() && self.cluster_data().len() > 0 {
            element(CLUSTER, self.cluster_data())
        } else {
            seq![]
        }
    }

    /// The first search for a packet's track.
    fn find_track(&self, stream_index: usize) -> (r: Option<MkvTrack>)
        ensures
            r == track_for(self.tracks(), stream_index, 0),
    {
        let mut i: usize = 0;
        while i < self.tracks.len()
            invariant
                i <= self.tracks@.len(),
                track_for(self.tracks(), stream_index, i as nat) == track_for(self.tracks(), stream_index, 0),
            decreases self.tracks.len() - i,
        {
            if self.tracks[i].stream_index == stream_index {
                return Some(self.tracks[i]);
            }
            i = i + 1;
        }
        None
    }

    /// Writes the open Cluster, when there is one with data, and closes it.
    fn flush_cluster(&mut self, io: &mut IoContext) -> (r: TaoResult<()>)
        requires
            out_in_range(*old(io)),
            old(self).cluster_data().len() <= 0x1_0000_0000_0000,
        ensures
            r is Ok,
            final(io).contents() == written(old(io).contents(), old(io).cursor(), old(self).flushed()),
            final(io).cursor() == old(io).cursor() + old(self).flushed().len(),
            final(self).flushed().len() == 0,
            old(self).flushed().len() > 0 ==> !final(self).cluster_open() && final(self).cluster_data().len() == 0,
            old(self).flushed().len() == 0 ==> *final(self) == *old(self),
            final(self).is_webm() == old(self).is_webm() && final(self).tracks() == old(self).tracks()
                && final(self).cluster_ts() == old(self).cluster_ts() && final(self).duration_at()
                == old(self).duration_at() && final(self).max_ms() == old(self).max_ms(),
    {
        if !self.cluster_open || self.cluster_buf.len() == 0 {
            assert(written(io.contents(), io.cursor(), seq![]) =~= io.contents());
            return Ok(());
        }
        write_element_io(io, CLUSTER, self.cluster_buf.as_slice())?;
        self.cluster_buf = Vec::new();
        self.cluster_open = false;
        Ok(())
    }
}

impl Muxer for MkvMuxer {
    open spec fn format_kind(&self) -> FormatId {
        if self.is_webm() {
            FormatId::Webm
        } else {
            FormatId::Matroska
        }
    }

    /// At most 255 streams (track numbers are one byte), codec private
    /// data within 4 GiB.
    open spec fn header_admits(&self, streams: Seq<Stream>) -> bool {
        &&& streams.len() <= 255
        &&& forall|j: int| 0 <= j < streams.len() ==> #[trigger] streams[j].extra_data@.len() <= 0x1_0000_0000
    }

    /// The millisecond arithmetic does not overflow, the largest timestamp
    /// is not negative, and the Cluster stays within 2^48 bytes.
    open spec fn packet_admits(&self, packet: Packet) -> bool {
        &&& self.max_ms() >= 0
        &&& self.ms_fits(packet)
        &&& self.cluster_open() ==> i64::MIN <= self.packet_ms(packet) - self.cluster_ts() <= i64::MAX
        &&& self.cluster_data().len() + packet.payload().len() + 64 <= 0x1_0000_0000_0000
    }

    open spec fn trailer_admits(&self) -> bool {
        &&& self.max_ms() >= 0
        &&& self.cluster_data().len() <= 0x1_0000_0000_0000
        &&& self.duration_at() <= 0x1_0000_0000_0000
    }

    fn format_id(&self) -> (r: FormatId)
        ensures
            r == self.format_kind(),
    {
        if self.webm {
            FormatId::Webm
        } else {
            FormatId::Matroska
        }
    }

    fn name(&self) -> (r: &'static str)
        ensures
            r == doc_type(self.is_webm()),
    {
        if self.webm {
            "webm"
        } else {
            "matroska"
        }
    }

    fn write_header(&mut self, io: &mut IoContext, streams: &[Stream]) -> (r: TaoResult<()>)
        ensures
            Self::header_post(*old(self), *final(self), *old(io), *final(io), streams@, r),
    {
        self.write_header_impl(io, streams)
    }

    /// Adds the packet to the open Cluster as a SimpleBlock; when a new
    /// Cluster starts, the open one is written first.
    fn write_packet(&mut self, io: &mut IoContext, packet: &Packet) -> (r: TaoResult<()>)
        ensures
            ({
                let ts = old(self).packet_ms(*packet);
                let fresh = old(self).starts_cluster(ts);
                let out = if fresh { old(self).flushed() } else { seq![] };
                let cts = if fresh { ts } else { old(self).cluster_ts() as int };
                let lead = if fresh { uint_el(CLUSTER_TIMESTAMP, ts as u64) } else { old(self).cluster_data() };
                &&& r is Ok
                &&& final(io).contents() == written(old(io).contents(), old(io).cursor(), out)
                &&& final(io).cursor() == old(io).cursor() + out.len()
                &&& final(self).cluster_open()
                &&& final(self).cluster_ts() == cts
                &&& final(self).cluster_data() == lead + simple_block(
                    old(self).block_track(*packet),
                    (ts - cts) as i16,
                    packet.is_keyframe,
                    packet.payload(),
                )
                &&& final(self).max_ms() == (if ts > old(self).max_ms() { ts } else { old(self).max_ms() as int })
                &&& final(self).is_webm() == old(self).is_webm()
                &&& final(self).tracks() == old(self).tracks()
                &&& final(self).duration_at() == old(self).duration_at()
            }),
    {
        let track = self.find_track(packet.stream_index);
        let timestamp_ms: i64 = match track {
            Some(t) => if t.timescale_den > 0 {
                packet.pts * 1000 * t.timescale_num / t.timescale_den
            } else {
                packet.pts
            },
            None => packet.pts,
        };
        let need_new_cluster = !self.cluster_open || (timestamp_ms - self.cluster_timestamp >= 5000);
        let ghost d0 = io.contents();
        let ghost c0 = io.cursor();
        if need_new_cluster {
            self.flush_cluster(io)?;
            let mut ts_buf: Vec<u8> = Vec::new();
            write_uint_full_element(&mut ts_buf, CLUSTER_TIMESTAMP, timestamp_ms as u64);
            self.cluster_buf = ts_buf;
            self.cluster_timestamp = timestamp_ms;
            self.cluster_open = true;
        } else {
            assert(written(d0, c0, seq![]) =~= d0);
        }
        if timestamp_ms > self.max_timestamp_ms {
            self.max_timestamp_ms = timestamp_ms;
        }
        let track_number: u8 = match track {
            Some(t) => t.track_number,
            None => 1,
        };
        let relative_ts = (timestamp_ms - self.cluster_timestamp) as i16;
        let flags: u8 = if packet.is_keyframe {
            0x80
        } else {
            0x00
        };
        let data = bytes_as_slice(&packet.data);
        let mut block: Vec<u8> = Vec::new();
        block.push(0x80u8 | track_number);
        push_be16(&mut block, relative_ts as u16);
        block.push(flags);
        push_all(&mut block, data);
        let ghost before = self.cluster_buf@;
        write_binary_element_buf(&mut self.cluster_buf, SIMPLE_BLOCK, block.as_slice());
        assert(block@ =~= seq![0x80u8 | track_number] + be16_bytes(relative_ts as u16) + seq![flags] + data@);
        Ok(())
    }

    /// Writes the open Cluster, then the largest timestamp as the
    /// duration (a double) over the placeholder, leaving the cursor where
    /// the Cluster ended.
    fn write_trailer(&mut self, io: &mut IoContext) -> (r: TaoResult<()>)
        ensures
            ({
                let out = old(io).cursor() + old(self).flushed().len();
                let after = written(old(io).contents(), old(io).cursor(), old(self).flushed());
                &&& r is Ok
                &&& final(io).cursor() == out
                &&& final(io).contents() == (if old(self).duration_at() > 0 {
                    written(after, old(self).duration_at() as nat, be64_bytes(duration_bits(old(self).max_ms())))
                } else {
                    after
                })
                &&& final(self).flushed().len() == 0
                &&& final(self).max_ms() == old(self).max_ms()
                &&& final(self).tracks() == old(self).tracks()
            }),
    {
        self.flush_cluster(io)?;
        if io.is_seekable() && self.duration_offset > 0 {
            let m = round_mantissa(self.max_timestamp_ms as u64);
            let bits = f64_bits_of_exact(m);
            let bytes = u64_to_be(bits);
            let current = io.position()?;
            io.seek(SeekFrom::Start(self.duration_offset))?;
            io.write_all(&bytes)?;
            io.seek(SeekFrom::Start(current))?;
        }
        Ok(())
    }
}

} // verus!
