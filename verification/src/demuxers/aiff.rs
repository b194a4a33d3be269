//! AIFF / AIFF-C: an IFF `FORM` container, big-endian, whose `COMM` chunk
//! describes the audio and whose `SSND` chunk holds the samples.

use vstd::prelude::*;
use crate::probe::{
    tag_is, FormatProbe, ProbeScore, SCORE_EXTENSION, SCORE_MAX, SCORE_MIME, has_tag, tag_at, str_views,
    name_ascii_ends_in, filename_ascii_ends_in, name_lower_ends_with, filename_lower_ends_with,
    ext_lower_in, filename_lower_ext_in, ext_matches_ci, filename_ext_is,
};
use crate::format_id::FormatId;
use crate::error::{ErrorKind, TaoError, TaoResult, invalid_data, unsupported};
use crate::io::{IoContext, SeekFrom, bytes_at};
use crate::packet_data::bytes_from_vec;
use crate::media::{
    AudioStreamParams, ChannelLayout, CodecId, MediaType, Packet, Rational, SampleFormat,
    SeekFlags, Stream, StreamParams,
};
use crate::demuxer::{Demuxer, io_in_range};
use crate::demuxers::wav::{wav_packet_size, wav_chunk_len, lemma_round_down};
use crate::endian::{be16, be32, be64_bytes, u16_from_be, u32_from_be, u64_to_be, lemma_bytes_read_back};
use vstd::arithmetic::power2::{pow2, lemma_pow2_unfold, lemma_pow2_pos, lemma_pow2_strictly_increases, lemma2_to64};

verus! {

/// The IFF `FORM` tag.
pub open spec fn form_tag() -> Seq<u8> {
    seq![0x46u8, 0x4F, 0x52, 0x4D]
}

/// The `AIFF` form type.
pub open spec fn aiff_tag() -> Seq<u8> {
    seq![0x41u8, 0x49, 0x46, 0x46]
}

/// The `AIFC` form type.
pub open spec fn aifc_tag() -> Seq<u8> {
    seq![0x41u8, 0x49, 0x46, 0x43]
}

/// What the AIFF probe answers.
pub open spec fn aiff_probe_score(d: Seq<u8>, filename: Option<&str>) -> Option<ProbeScore> {
    if tag_at(d, 0, form_tag()) && (tag_at(d, 8, aiff_tag()) || tag_at(d, 8, aifc_tag())) {
        Some(SCORE_MAX)
    } else if name_ascii_ends_in(filename, seq![".aiff"@, ".aif"@]) {
        Some(SCORE_EXTENSION)
    } else {
        None
    }
}

/// Recogniser of AIFF files.
pub struct AiffProbe;

impl FormatProbe for AiffProbe {
    fn probe(&self, data: &[u8], filename: Option<&str>) -> (r: Option<ProbeScore>)
        ensures
            r == aiff_probe_score(data@, filename),
    {
        if has_tag(data, 0, &[0x46u8, 0x4F, 0x52, 0x4D]) && (has_tag(data, 8, &[0x41u8, 0x49, 0x46, 0x46])
            || has_tag(data, 8, &[0x41u8, 0x49, 0x46, 0x43])) {
            return Some(SCORE_MAX);
        }
        let exts: [&str; 2] = [".aiff", ".aif"];
        assert(str_views(exts@) =~= seq![".aiff"@, ".aif"@]);
        if filename_ascii_ends_in(filename, exts.as_slice()) {
            return Some(SCORE_EXTENSION);
        }
        None
    }

    fn format_id(&self) -> (r: FormatId)
        ensures
            r == FormatId::Aiff,
    {
        FormatId::Aiff
    }
}

/// How many low bits a mantissa loses when it is held in 53 significant
/// bits.
pub open spec fn mant_shift(m: nat) -> nat
    decreases m,
{
    if m < 0x20_0000_0000_0000 {
        0
    } else {
        1 + mant_shift(m / 2)
    }
}

/// `m` rounded to 53 significant bits, ties to even: the value a
/// conversion of the 64-bit mantissa to a double holds.
pub open spec fn rne53(m: nat) -> nat {
    let sh = mant_shift(m);
    if sh == 0 {
        m
    } else {
        let p = pow2(sh);
        let q = m / p;
        let r = m % p;
        let h = p / 2;
        if r > h || (r == h && q % 2 == 1) {
            (q + 1) * p
        } else {
            q * p
        }
    }
}

/// The integer a finite, non-negative 80-bit extended value gives when its
/// mantissa is first held as a double (`rne53`), then scaled by
/// `2^(e - 16446)` and rounded (halves away from zero), saturated to a
/// `u32`: the exponent 0x7FFF (infinity) gives the maximum, a negative
/// value 0.
pub open spec fn extended_to_u32(sign: bool, e: int, m: int) -> u32 {
    let mm = rne53(m as nat);
    if e == 0x7FFF {
        0xFFFF_FFFF
    } else if sign || m == 0 {
        0
    } else if e >= 16446 {
        let v = mm * pow2((e - 16446) as nat);
        if v > 0xFFFF_FFFF { 0xFFFF_FFFF } else { v as u32 }
    } else {
        let s = (16446 - e) as nat;
        let r = ((mm + pow2((s - 1) as nat)) as int) / (pow2(s) as int);
        if r > 0xFFFF_FFFF { 0xFFFF_FFFF } else { r as u32 }
    }
}

/// Rounds a 64-bit mantissa to 53 significant bits (see `rne53`).
pub(crate) fn round_mantissa(m: u64) -> (r: u128)
    ensures
        r == rne53(m as nat),
        r <= 0x1_0000_0000_0000_0000,
        m > 0 ==> r > 0,
{
    let mut x: u64 = m;
    let mut sh: u32 = 0;
    let mut p: u128 = 1;
    proof {
        lemma2_to64();
    }
    while x >= 0x20_0000_0000_0000
        invariant
            p == pow2(sh as nat),
            x == (m as nat) / pow2(sh as nat),
            mant_shift(m as nat) == sh + mant_shift(x as nat),
            sh > 0 ==> x >= 0x10_0000_0000_0000,
            x <= m,
            sh <= 11,
            pow2(sh as nat) * x <= m,
            pow2(64) == 0x1_0000_0000_0000_0000,
        decreases x,
    {
        proof {
            lemma_pow2_pos(sh as nat);
            lemma_pow2_unfold((sh + 1) as nat);
            vstd::arithmetic::div_mod::lemma_div_denominator(m as int, pow2(sh as nat) as int, 2);
            assert(pow2(sh as nat) * x >= pow2(sh as nat) * 0x20_0000_0000_0000) by (nonlinear_arith)
                requires
                    x >= 0x20_0000_0000_0000,
                    pow2(sh as nat) > 0,
            ;
            if sh + 1 > 11 {
                lemma2_to64();
                lemma_pow2_strictly_increases(11, (sh + 1) as nat);
                assert(pow2(11) == 0x800);
                assert(pow2(sh as nat) >= 0x800);
                assert(pow2(sh as nat) * 0x20_0000_0000_0000 >= 0x800 * 0x20_0000_0000_0000) by (nonlinear_arith)
                    requires
                        pow2(sh as nat) >= 0x800,
                ;
            }
            assert(pow2((sh + 1) as nat) * (x / 2) <= pow2(sh as nat) * x) by (nonlinear_arith)
                requires
                    pow2((sh + 1) as nat) == 2 * pow2(sh as nat),
                    pow2(sh as nat) > 0,
            ;
        }
        x = x / 2;
        sh = sh + 1;
        p = p * 2;
    }
    if sh == 0 {
        return m as u128;
    }
    proof {
        lemma_pow2_pos(sh as nat);
        vstd::arithmetic::div_mod::lemma_fundamental_div_mod(m as int, pow2(sh as nat) as int);
        if sh < 11 {
            lemma_pow2_strictly_increases(sh as nat, 11);
        }
        assert(pow2(11) == 0x800);
    }
    let r: u128 = m as u128 - p * (x as u128);
    let h: u128 = p / 2;
    assert(r == (m as nat) % pow2(sh as nat));
    let up = r > h || (r == h && x % 2 == 1);
    assert((x as u128 + 1) * p <= 0x20_0000_0000_0000 * 0x800) by (nonlinear_arith)
        requires
            x < 0x20_0000_0000_0000,
            p <= 0x800,
    ;
    if up {
        assert((x as u128 + 1) * p > 0) by (nonlinear_arith)
            requires
                p >= 1,
        ;
        (x as u128 + 1) * p
    } else {
        proof {
            assert(x as u128 * p > 0) by (nonlinear_arith)
                requires
                    x >= 0x10_0000_0000_0000,
                    p >= 1,
            ;
        }
        x as u128 * p
    }
}

/// The sample rate the ten bytes of an AIFF `sampleRate` field (sign bit,
/// 15-bit exponent, 64-bit mantissa with explicit integer bit, big-endian)
/// give.
pub open spec fn extended_rate(b: Seq<u8>) -> u32 {
    let e = (b[0] % 128) * 256 + b[1];
    let m = be32(b[2], b[3], b[4], b[5]) * 0x1_0000_0000 + be32(b[6], b[7], b[8], b[9]);
    extended_to_u32(b[0] >= 128, e, m)
}

/// `m * 2^k`, saturated to a `u32`, for `m` below 2^64.
fn scale_up(m: u128, k: u32) -> (r: u32)
    requires
        m > 0,
        m <= 0x1_0000_0000_0000_0000,
    ensures
        r == (if m * pow2(k as nat) > 0xFFFF_FFFF { 0xFFFF_FFFFu32 } else { (m * pow2(k as nat)) as u32 }),
{
    if k >= 32 {
        proof {
            lemma2_to64();
            if k > 32 {
                lemma_pow2_strictly_increases(32, k as nat);
            }
            assert(m * pow2(k as nat) >= pow2(k as nat)) by (nonlinear_arith)
                requires
                    m >= 1,
                    pow2(k as nat) > 0,
            ;
        }
        return 0xFFFF_FFFF;
    }
    let mut v: u128 = m;
    let mut i: u32 = 0;
    proof {
        lemma2_to64();
    }
    while i < k
        invariant
            i <= k < 32,
            v == m * pow2(i as nat),
            pow2(32) == 0x1_0000_0000,
            pow2(i as nat) <= pow2(32),
            m <= 0x1_0000_0000_0000_0000,
        decreases k - i,
    {
        proof {
            lemma_pow2_unfold((i + 1) as nat);
            if i + 1 < 32 {
                lemma_pow2_strictly_increases((i + 1) as nat, 32);
            }
            assert(m * pow2(i as nat) * 2 == m * pow2((i + 1) as nat)) by (nonlinear_arith)
                requires
                    pow2((i + 1) as nat) == 2 * pow2(i as nat),
            ;
            assert(m * pow2(i as nat) <= 0x1_0000_0000_0000_0000 * 0x1_0000_0000) by (nonlinear_arith)
                requires
                    m <= 0x1_0000_0000_0000_0000,
                    pow2(i as nat) <= 0x1_0000_0000,
            ;
        }
        v = v * 2;
        i = i + 1;
    }
    if v > 0xFFFF_FFFF {
        0xFFFF_FFFF
    } else {
        v as u32
    }
}

/// `m / 2^s` rounded half up, saturated to a `u32`, for `1 <= s <= 65`.
fn scale_down(m: u128, s: u32) -> (r: u32)
    requires
        1 <= s <= 65,
        m <= 0x1_0000_0000_0000_0000,
    ensures
        r == (if (m + pow2((s - 1) as nat)) / (pow2(s as nat) as int) > 0xFFFF_FFFF { 0xFFFF_FFFFu32 } else {
            ((m + pow2((s - 1) as nat)) / (pow2(s as nat) as int)) as u32
        }),
{
    let mut p: u128 = 1;
    let mut i: u32 = 0;
    proof {
        lemma2_to64();
        lemma_pow2_unfold(65);
    }
    while i < s
        invariant
            i <= s <= 65,
            p == pow2(i as nat),
            pow2(65) == 0x2_0000_0000_0000_0000,
            pow2(i as nat) <= pow2(65),
        decreases s - i,
    {
        proof {
            lemma_pow2_unfold((i + 1) as nat);
            if i + 1 < 65 {
                lemma_pow2_strictly_increases((i + 1) as nat, 65);
            }
        }
        p = p * 2;
        i = i + 1;
    }
    proof {
        lemma_pow2_unfold(s as nat);
        lemma_pow2_pos(s as nat);
    }
    let half = p / 2;
    let r = (m + half) / p;
    if r > 0xFFFF_FFFF {
        0xFFFF_FFFF
    } else {
        r as u32
    }
}

/// Reads the sample rate from the ten bytes of an 80-bit extended value.
pub fn read_extended_rate(b: &[u8; 10]) -> (r: u32)
    ensures
        r == extended_rate(b@),
{
    let sign = b[0] >= 128;
    let e: u32 = (b[0] % 128) as u32 * 256 + b[1] as u32;
    let hi = u32_from_be(b[2], b[3], b[4], b[5]);
    let lo = u32_from_be(b[6], b[7], b[8], b[9]);
    assert(hi as u64 * 0x1_0000_0000 + lo as u64 <= u64::MAX) by (nonlinear_arith)
        requires
            hi <= u32::MAX,
            lo <= u32::MAX,
    ;
    let m: u64 = hi as u64 * 0x1_0000_0000 + lo as u64;
    if e == 0x7FFF {
        return 0xFFFF_FFFF;
    }
    if sign || m == 0 {
        return 0;
    }
    let mm = round_mantissa(m);
    if e >= 16446 {
        return scale_up(mm, e - 16446);
    }
    let s = 16446 - e;
    if s > 65 {
        proof {
            lemma2_to64();
            lemma_pow2_unfold(65);
            lemma_pow2_unfold(s as nat);
            if s - 1 > 65 {
                lemma_pow2_strictly_increases(65, (s - 1) as nat);
            }
            let q = pow2((s - 1) as nat);
            assert(((mm + q) as int) / (pow2(s as nat) as int) == 0) by (nonlinear_arith)
                requires
                    mm < q,
                    pow2(s as nat) == 2 * q,
                    q > 0,
            ;
        }
        return 0;
    }
    scale_down(mm, s)
}

/// The index of the highest set bit of a positive `n`.
pub open spec fn top_bit(n: nat) -> nat
    decreases n,
{
    if n <= 1 {
        0
    } else {
        1 + top_bit(n / 2)
    }
}

/// The ten bytes of the 80-bit extended value of a `u32` rate: zero for 0,
/// else the exponent `16383 + k` and the rate shifted up so that its top
/// bit (bit `k`) lands on bit 63 of the mantissa.
pub open spec fn extended_bytes(v: u32) -> Seq<u8> {
    if v == 0 {
        Seq::new(10, |i: int| 0u8)
    } else {
        let k = top_bit(v as nat);
        let e = 16383 + k;
        let m = v * pow2((63 - k) as nat);
        seq![(e / 256) as u8, (e % 256) as u8] + be64_bytes(m as u64)
    }
}

/// The top bit of `n` lies between `2^k` and `2^(k+1)`.
pub proof fn lemma_top_bit(n: nat)
    requires
        n >= 1,
    ensures
        pow2(top_bit(n)) <= n < pow2(top_bit(n) + 1),
    decreases n,
{
    if n <= 1 {
        lemma_pow2_unfold(1);
        assert(pow2(0) == 1) by {
            lemma2_to64();
        }
    } else {
        lemma_top_bit(n / 2);
        let k = top_bit(n / 2);
        lemma_pow2_unfold(k + 1);
        lemma_pow2_unfold(k + 2);
    }
}

/// The top bit of a `u32` is at most 31.
proof fn lemma_top_bit_u32(v: u32)
    requires
        v >= 1,
    ensures
        top_bit(v as nat) <= 31,
        pow2(top_bit(v as nat)) <= v < pow2(top_bit(v as nat) + 1),
{
    lemma_top_bit(v as nat);
    lemma2_to64();
    let k = top_bit(v as nat);
    if k > 31 {
        if k > 32 {
            lemma_pow2_strictly_increases(32, k);
        }
    }
}

/// Writes a `u32` rate as the ten bytes of an 80-bit extended value.
pub fn write_extended_rate(v: u32) -> (r: [u8; 10])
    ensures
        r@ == extended_bytes(v),
{
    if v == 0 {
        let z = [0u8; 10];
        assert(z@ =~= extended_bytes(v));
        return z;
    }
    proof {
        lemma_top_bit_u32(v);
    }
    let mut k: u32 = 0;
    let mut t: u32 = v;
    while t > 1
        invariant
            t >= 1,
            top_bit(v as nat) == k + top_bit(t as nat),
            k <= 31,
            top_bit(v as nat) <= 31,
        decreases t,
    {
        t = t / 2;
        k = k + 1;
    }
    let mut m: u64 = v as u64;
    let mut i: u32 = 0;
    proof {
        lemma2_to64();
        assert(pow2(0) == 1);
    }
    while i < 63 - k
        invariant
            k == top_bit(v as nat) <= 31,
            i <= 63 - k,
            m == v * pow2(i as nat),
            v < pow2((k + 1) as nat),
            pow2(64) == 0x1_0000_0000_0000_0000,
        decreases 63 - k - i,
    {
        proof {
            lemma_pow2_unfold((i + 1) as nat);
            lemma_pow2_pos((i + 1) as nat);
            vstd::arithmetic::power2::lemma_pow2_adds((k + 1) as nat, (i + 1) as nat);
            if k + i + 2 < 64 {
                lemma_pow2_strictly_increases((k + i + 2) as nat, 64);
            }
            assert(v * pow2((i + 1) as nat) < pow2((k + 1) as nat) * pow2((i + 1) as nat)) by (nonlinear_arith)
                requires
                    v < pow2((k + 1) as nat),
                    pow2((i + 1) as nat) > 0,
            ;
            assert(v * pow2((i + 1) as nat) == 2 * (v * pow2(i as nat))) by (nonlinear_arith)
                requires
                    pow2((i + 1) as nat) == 2 * pow2(i as nat),
            ;
        }
        m = m * 2;
        i = i + 1;
    }
    let e: u32 = 16383 + k;
    let mb = u64_to_be(m);
    let r = [(e / 256) as u8, (e % 256) as u8, mb[0], mb[1], mb[2], mb[3], mb[4], mb[5], mb[6], mb[7]];
    assert(r@ =~= extended_bytes(v));
    r
}

/// Writing a sample rate as an 80-bit extended value and reading it back
/// gives the rate.
pub proof fn law_extended_rate_round_trip(v: u32)
    ensures
        extended_rate(extended_bytes(v)) == v,
{
    let b = extended_bytes(v);
    if v == 0 {
        assert(b[0] == 0 && b[1] == 0 && b[2] == 0 && b[3] == 0 && b[4] == 0 && b[5] == 0);
        assert(b[6] == 0 && b[7] == 0 && b[8] == 0 && b[9] == 0);
    } else {
        lemma_top_bit_u32(v);
        lemma2_to64();
        let k = top_bit(v as nat);
        let s = (63 - k) as nat;
        let m = v * pow2(s);
        lemma_pow2_pos(s);
        lemma_pow2_pos((s - 1) as nat);
        vstd::arithmetic::power2::lemma_pow2_adds((k + 1) as nat, s);
        assert(m < pow2(64)) by (nonlinear_arith)
            requires
                v < pow2((k + 1) as nat),
                pow2(s) > 0,
                m == v * pow2(s),
                pow2(64) == pow2((k + 1) as nat) * pow2(s),
        ;
        lemma_bytes_read_back(0, (m / 0x1_0000_0000) as u32);
        lemma_bytes_read_back(0, (m % 0x1_0000_0000) as u32);
        assert(be32(b[2], b[3], b[4], b[5]) * 0x1_0000_0000 + be32(b[6], b[7], b[8], b[9]) == m);
        assert((b[0] % 128) * 256 + b[1] == 16383 + k);
        lemma_pow2_unfold(s);
        let q = pow2((s - 1) as nat);
        assert((m + q) / (pow2(s) as int) == v) by (nonlinear_arith)
            requires
                m == v * pow2(s),
                pow2(s) == 2 * q,
                q > 0,
        ;
        assert(m != 0) by (nonlinear_arith)
            requires
                m == v * pow2(s),
                v >= 1,
                pow2(s) > 0,
        ;
        assert(b[0] < 128);
        assert(s >= 32);
        vstd::arithmetic::power2::lemma_pow2_adds(11, (s - 11) as nat);
        assert(m == (v * pow2((s - 11) as nat)) * pow2(11)) by (nonlinear_arith)
            requires
                m == v * pow2(s),
                pow2(s) == pow2(11) * pow2((s - 11) as nat),
        ;
        lemma_pow2_pos(11);
        vstd::arithmetic::div_mod::lemma_mod_multiples_basic((v * pow2((s - 11) as nat)) as int, pow2(11) as int);
        lemma_rne53_exact(m as nat);
        assert(extended_to_u32(false, (16383 + k) as int, m as int) == v);
    }
}

/// At most `j` low bits are dropped from a mantissa below `2^(53 + j)`.
proof fn lemma_mant_shift_bound(m: nat, j: nat)
    requires
        m < pow2(53 + j),
    ensures
        mant_shift(m) <= j,
    decreases j,
{
    vstd::arithmetic::power2::lemma2_to64_rest();
    if m >= 0x20_0000_0000_0000 {
        if j == 0 {
            assert(53 + j == 53);
            assert(pow2(53) == 0x20_0000_0000_0000);
            assert(false);
        } else {
            lemma_pow2_unfold(53 + j);
            lemma_mant_shift_bound(m / 2, (j - 1) as nat);
        }
    }
}

/// A mantissa below `2^64` whose low 11 bits are zero is held exactly in
/// 53 significant bits.
proof fn lemma_rne53_exact(m: nat)
    requires
        m < pow2(64),
        m % pow2(11) == 0,
    ensures
        rne53(m) == m,
{
    lemma_mant_shift_bound(m, 11);
    let sh = mant_shift(m);
    if sh > 0 {
        let p = pow2(sh);
        lemma_pow2_pos(sh);
        lemma_pow2_pos((11 - sh) as nat);
        vstd::arithmetic::power2::lemma_pow2_adds(sh, (11 - sh) as nat);
        lemma_pow2_pos(11);
        vstd::arithmetic::div_mod::lemma_fundamental_div_mod(m as int, pow2(11) as int);
        let c = m / pow2(11);
        assert(m == (c * pow2((11 - sh) as nat)) * p) by (nonlinear_arith)
            requires
                m == pow2(11) * c + 0,
                pow2(11) == p * pow2((11 - sh) as nat),
        ;
        vstd::arithmetic::div_mod::lemma_mod_multiples_basic((c * pow2((11 - sh) as nat)) as int, p as int);
        vstd::arithmetic::div_mod::lemma_div_multiples_vanish((c * pow2((11 - sh) as nat)) as int, p as int);
        lemma_pow2_unfold(sh);
        assert(p / 2 >= 1);
        assert((m / p) * p == m) by (nonlinear_arith)
            requires
                m == (c * pow2((11 - sh) as nat)) * p,
                m / p == c * pow2((11 - sh) as nat),
        ;
    }
}

/// The `COMM` chunk id.
pub open spec fn comm_tag() -> Seq<u8> {
    seq![0x43u8, 0x4F, 0x4D, 0x4D]
}

/// The `SSND` chunk id.
pub open spec fn ssnd_tag() -> Seq<u8> {
    seq![0x53u8, 0x53, 0x4E, 0x44]
}

/// Big-endian `u16` of `d` at `p`.
pub open spec fn be16_of(d: Seq<u8>, p: int) -> u16 {
    be16(d[p], d[p + 1]) as u16
}

/// Big-endian `u32` of `d` at `p`.
pub open spec fn be32_of(d: Seq<u8>, p: int) -> u32 {
    be32(d[p], d[p + 1], d[p + 2], d[p + 3]) as u32
}

/// The fields of a `COMM` chunk.
#[derive(Clone, Copy)]
pub struct AiffComm {
    /// Channel count.
    pub channels: u16,
    /// Sample frames.
    pub frames: u32,
    /// Bits per sample.
    pub bits: u16,
    /// Sample rate, rounded to an integer.
    pub rate: u32,
    /// AIFF-C compression type, when the chunk has one.
    pub compression: Option<[u8; 4]>,
}

/// The compression type of a `COMM` as bytes.
pub open spec fn comm_ct(c: AiffComm) -> Option<Seq<u8>> {
    match c.compression {
        Some(t) => Some(t@),
        None => None,
    }
}

/// Whether `c` holds the `COMM` fields of `d` at `q` (a chunk of `size`
/// bytes): an AIFF-C chunk of 22 bytes or more carries a compression type.
pub open spec fn comm_is(c: AiffComm, d: Seq<u8>, q: int, size: int, aifc: bool) -> bool {
    &&& c.channels == be16_of(d, q)
    &&& c.frames == be32_of(d, q + 2)
    &&& c.bits == be16_of(d, q + 6)
    &&& c.rate == extended_rate(d.subrange(q + 8, q + 18))
    &&& comm_ct(c) == (if aifc && size >= 22 { Some(d.subrange(q + 18, q + 22)) } else { None::<Seq<u8>> })
}

/// Codec of uncompressed big-endian PCM of a bit depth.
pub open spec fn aiff_pcm_codec(bits: u16) -> Option<CodecId> {
    if bits == 8 {
        Some(CodecId::PcmU8)
    } else if bits == 16 {
        Some(CodecId::PcmS16be)
    } else if bits == 24 {
        Some(CodecId::PcmS24le)
    } else if bits == 32 {
        Some(CodecId::PcmS32le)
    } else {
        None
    }
}

/// Codec of a bit depth and an AIFF-C compression type (`NONE`/`none`,
/// `sowt` little-endian PCM, `fl32`/`FL32` float); `None` when unsupported.
pub open spec fn aiff_codec(bits: u16, ct: Option<Seq<u8>>) -> Option<CodecId> {
    match ct {
        None => aiff_pcm_codec(bits),
        Some(t) => if t == seq![0x4Eu8, 0x4F, 0x4E, 0x45] || t == seq![0x6Eu8, 0x6F, 0x6E, 0x65] {
            aiff_pcm_codec(bits)
        } else if t == seq![0x73u8, 0x6F, 0x77, 0x74] {
            if bits == 16 {
                Some(CodecId::PcmS16le)
            } else if bits == 24 {
                Some(CodecId::PcmS24le)
            } else if bits == 32 {
                Some(CodecId::PcmS32le)
            } else {
                None
            }
        } else if t == seq![0x66u8, 0x6C, 0x33, 0x32] || t == seq![0x46u8, 0x4C, 0x33, 0x32] {
            Some(CodecId::PcmF32le)
        } else {
            None
        },
    }
}

/// Sample format of a PCM codec.
pub open spec fn aiff_sample_format(c: CodecId) -> SampleFormat {
    match c {
        CodecId::PcmU8 => SampleFormat::U8,
        CodecId::PcmS16le | CodecId::PcmS16be => SampleFormat::S16,
        CodecId::PcmS24le | CodecId::PcmS32le => SampleFormat::S32,
        CodecId::PcmF32le => SampleFormat::F32,
        _ => SampleFormat::Unknown,
    }
}

/// Where the walk over the chunks ends.
pub enum AiffScan {
    /// An `SSND` chunk after a `COMM`: the last `COMM`'s payload position and
    /// size, the sample data offset and size.
    Found(int, int, int, u64),
    /// A read failed or the chunks are out of order.
    Failed(ErrorKind),
    /// The input ended; the last `COMM` seen, if any.
    Ended(Option<(int, int)>),
}

/// The position after a chunk of `size` bytes at `p` of which at least
/// `used` bytes were read, its pad byte included.
pub open spec fn aiff_next_chunk(p: int, size: int, used: int) -> int {
    p + 8 + (if size > used { size } else { used }) + size % 2
}

/// The chunk walk from `p`: `COMM` chunks set the format, `SSND` ends the
/// walk, other chunks are skipped.
pub open spec fn aiff_scan(d: Seq<u8>, p: int, aifc: bool, comm: Option<(int, int)>) -> AiffScan
    decreases d.len() - p,
{
    if p < 0 || p + 4 > d.len() {
        AiffScan::Ended(comm)
    } else if p + 8 > d.len() {
        AiffScan::Failed(ErrorKind::Eof)
    } else {
        let size = be32_of(d, p + 4) as int;
        if d.subrange(p, p + 4) == comm_tag() {
            if p + 26 > d.len() || (aifc && size >= 22 && p + 30 > d.len()) {
                AiffScan::Failed(ErrorKind::Eof)
            } else {
                let next = aiff_next_chunk(p, size, 18);
                if next + 4 > d.len() {
                    AiffScan::Ended(Some((p + 8, size)))
                } else {
                    aiff_scan(d, next, aifc, Some((p + 8, size)))
                }
            }
        } else if d.subrange(p, p + 4) == ssnd_tag() {
            match comm {
                None => AiffScan::Failed(ErrorKind::InvalidData),
                Some((q, cs)) => if p + 16 > d.len() {
                    AiffScan::Failed(ErrorKind::Eof)
                } else {
                    let off = be32_of(d, p + 8) as int;
                    AiffScan::Found(q, cs, p + 16 + off, (if size >= 8 + off { size - 8 - off } else { 0 }) as u64)
                },
            }
        } else {
            let next = aiff_next_chunk(p, size, 0);
            if next + 4 > d.len() {
                AiffScan::Ended(comm)
            } else {
                aiff_scan(d, next, aifc, comm)
            }
        }
    }
}

/// The compression type of the `COMM` at `q` of `size` bytes.
pub open spec fn comm_ct_at(d: Seq<u8>, q: int, size: int, aifc: bool) -> Option<Seq<u8>> {
    if aifc && size >= 22 { Some(d.subrange(q + 18, q + 22)) } else { None }
}

/// What opening an AIFF file at `p` leads to: whether it is AIFF-C, the
/// `COMM` position and size, the data offset and size, or the kind of
/// error.
pub open spec fn aiff_open_outcome(d: Seq<u8>, p: int) -> Result<(bool, int, int, int, u64), ErrorKind> {
    if p + 4 > d.len() {
        Err(ErrorKind::Eof)
    } else if d.subrange(p, p + 4) != form_tag() {
        Err(ErrorKind::InvalidData)
    } else if p + 12 > d.len() {
        Err(ErrorKind::Eof)
    } else if d.subrange(p + 8, p + 12) != aiff_tag() && d.subrange(p + 8, p + 12) != aifc_tag() {
        Err(ErrorKind::InvalidData)
    } else {
        let aifc = d.subrange(p + 8, p + 12) == aifc_tag();
        match aiff_scan(d, p + 12, aifc, None) {
            AiffScan::Found(q, cs, off, size) => match aiff_codec(be16_of(d, q + 6), comm_ct_at(d, q, cs, aifc)) {
                Some(_) => Ok((aifc, q, cs, off, size)),
                None => Err(ErrorKind::Unsupported),
            },
            AiffScan::Failed(k) => Err(k),
            AiffScan::Ended(_) => Err(ErrorKind::InvalidData),
        }
    }
}

/// Bytes per sample frame of a `COMM`: channels times bytes per sample,
/// kept to 16 bits.
pub open spec fn aiff_block_align(channels: u16, bits: u16) -> u16 {
    ((channels * (bits / 8)) % 0x1_0000) as u16
}

/// Whether `s` is the audio stream of the `COMM` at `q` (of `cs` bytes).
pub open spec fn aiff_stream_is(s: Stream, d: Seq<u8>, q: int, cs: int, aifc: bool) -> bool {
    let ch = be16_of(d, q);
    let frames = be32_of(d, q + 2);
    let bits = be16_of(d, q + 6);
    let rate = extended_rate(d.subrange(q + 8, q + 18));
    let codec = aiff_codec(bits, comm_ct_at(d, q, cs, aifc))->Some_0;
    &&& s.index == 0
    &&& s.media_type == MediaType::Audio
    &&& s.codec_id == codec
    &&& s.time_base == Rational::new_spec(1, rate as i32)
    &&& s.duration == frames as i64
    &&& s.start_time == 0
    &&& s.nb_frames == frames
    &&& s.extra_data@.len() == 0
    &&& s.metadata@.len() == 0
    &&& s.params matches StreamParams::Audio(a) && {
        &&& a.sample_rate == rate
        &&& a.channel_layout.channels == ch as u32
        &&& a.sample_format == aiff_sample_format(codec)
        &&& a.bit_rate == rate as int * ch as int * bits as int
        &&& a.frame_size == 0
    }
}

/// Reader of AIFF and AIFF-C files.
pub struct AiffDemuxer {
    streams: Vec<Stream>,
    data_offset: u64,
    data_size: u64,
    data_pos: u64,
    packet_size: usize,
    block_align: u16,
    sample_rate: u32,
    metadata: Vec<(String, String)>,
    is_aifc: bool,
}

impl AiffDemuxer {
    /// Offset of the sample data in the file.
    pub closed spec fn data_start(&self) -> u64 {
        self.data_offset
    }

    /// Size of the sample data.
    pub closed spec fn data_len(&self) -> u64 {
        self.data_size
    }

    /// Bytes of sample data already read.
    pub closed spec fn data_read(&self) -> u64 {
        self.data_pos
    }

    /// Bytes read per packet at most.
    pub closed spec fn packet_bytes(&self) -> usize {
        self.packet_size
    }

    /// Bytes per sample frame.
    pub closed spec fn frame_bytes(&self) -> u16 {
        self.block_align
    }

    /// Sample rate.
    pub closed spec fn rate(&self) -> u32 {
        self.sample_rate
    }

    /// Whether the file is AIFF-C.
    pub closed spec fn aifc(&self) -> bool {
        self.is_aifc
    }

    /// The streams.
    pub closed spec fn stream_list(&self) -> Seq<Stream> {
        self.streams@
    }

    /// Bounds that every state of the demuxer keeps.
    #[verifier::type_invariant]
    closed spec fn wf(&self) -> bool {
        &&& self.data_offset <= 0x20_0000_0000_0000
        &&& self.data_size <= 0xFFFF_FFFF
        &&& self.data_pos <= 0xFFFF_FFFF
        &&& self.packet_size > 0
        &&& self.metadata@.len() == 0
    }

    /// What `open` does: on a well-formed header, sets up the audio stream
    /// and leaves the cursor at the sample data; otherwise fails with the
    /// error kind `aiff_open_outcome` gives.
    pub open spec fn open_post(old_self: Self, new_self: Self, old_io: IoContext, new_io: IoContext, r: TaoResult<()>) -> bool {
        let d = old_io.contents();
        &&& new_io.contents() == d
        &&& match aiff_open_outcome(d, old_io.cursor() as int) {
            Ok((aifc, q, cs, off, size)) => {
                let ba = aiff_block_align(be16_of(d, q), be16_of(d, q + 6));
                &&& r is Ok
                &&& new_io.cursor() == off
                &&& new_self.stream_list().len() == 1
                &&& aiff_stream_is(new_self.stream_list()[0], d, q, cs, aifc)
                &&& new_self.aifc() == aifc
                &&& new_self.data_start() == off
                &&& new_self.data_len() == size
                &&& new_self.data_read() == 0
                &&& new_self.frame_bytes() == ba
                &&& new_self.rate() == extended_rate(d.subrange(q + 8, q + 18))
                &&& new_self.packet_bytes() == wav_packet_size(ba)
            },
            Err(k) => {
                &&& r matches Err(e) && e.kind() == k
                &&& new_self.stream_list() == old_self.stream_list()
                &&& new_self.data_read() == old_self.data_read()
            },
        }
    }

    /// What `read_packet` does: the next whole frames of sample data, at
    /// most `packet_bytes`, read at the cursor, with their timestamps.
    pub open spec fn read_post(old_self: Self, new_self: Self, old_io: IoContext, new_io: IoContext, r: TaoResult<Packet>) -> bool {
        let n = wav_chunk_len(old_self.data_len(), old_self.data_read(), old_self.packet_bytes(), old_self.frame_bytes());
        let ba = old_self.frame_bytes() as int;
        &&& new_self.stream_list() == old_self.stream_list()
        &&& new_self.data_start() == old_self.data_start()
        &&& new_self.data_len() == old_self.data_len()
        &&& new_self.frame_bytes() == old_self.frame_bytes()
        &&& new_self.rate() == old_self.rate()
        &&& new_self.packet_bytes() == old_self.packet_bytes()
        &&& new_io.contents() == old_io.contents()
        &&& if old_self.data_read() >= old_self.data_len() || n == 0 {
            r == Err::<Packet, TaoError>(TaoError::Eof) && new_self.data_read() == old_self.data_read() && new_io == old_io
        } else if !old_io.can_read(n) {
            r == Err::<Packet, TaoError>(TaoError::Eof) && new_self.data_read() == old_self.data_read()
                && IoContext::read_post(old_io, new_io, n, false)
        } else {
            &&& r matches Ok(pkt) && ({
                &&& pkt.payload() == bytes_at(old_io.contents(), old_io.cursor(), n)
                &&& pkt.stream_index == 0
                &&& pkt.pts == (if ba > 0 { old_self.data_read() as int / ba } else { 0 })
                &&& pkt.dts == pkt.pts
                &&& pkt.duration == (if ba > 0 { n as int / ba } else { 0 })
                &&& pkt.time_base == Rational::new_spec(1, old_self.rate() as i32)
                &&& pkt.is_keyframe
                &&& pkt.pos == old_self.data_start() + old_self.data_read()
            })
            &&& new_self.data_read() == old_self.data_read() + n
            &&& new_io.cursor() == old_io.cursor() + n
        }
    }

    /// What `seek` does: with a nonzero frame size, moves to the first byte
    /// of frame `timestamp`, clamped to the end of the data.
    pub open spec fn seek_post(old_self: Self, new_self: Self, old_io: IoContext, new_io: IoContext, timestamp: i64, r: TaoResult<()>) -> bool {
        let ba = old_self.frame_bytes() as int;
        let wanted = (if timestamp > 0 { timestamp as int } else { 0 }) * ba;
        let clamped = if wanted < old_self.data_len() { wanted } else { old_self.data_len() as int };
        let aligned = clamped / ba * ba;
        &&& new_self.stream_list() == old_self.stream_list()
        &&& new_self.data_start() == old_self.data_start()
        &&& new_self.data_len() == old_self.data_len()
        &&& new_self.frame_bytes() == old_self.frame_bytes()
        &&& new_self.rate() == old_self.rate()
        &&& new_self.packet_bytes() == old_self.packet_bytes()
        &&& new_io.contents() == old_io.contents()
        &&& if ba == 0 {
            r matches Err(e) && e.kind() == ErrorKind::InvalidData && new_self.data_read() == old_self.data_read()
                && new_io == old_io
        } else {
            &&& r is Ok
            &&& new_self.data_read() == aligned
            &&& new_io.cursor() == old_self.data_start() + aligned
        }
    }

    /// A demuxer before `open`.
    pub fn new() -> (r: Self)
        ensures
            r.stream_list().len() == 0,
            r.data_start() == 0,
            r.data_len() == 0,
            r.data_read() == 0,
            r.frame_bytes() == 0,
            r.rate() == 0,
            !r.aifc(),
    {
        AiffDemuxer {
            streams: Vec::new(),
            data_offset: 0,
            data_size: 0,
            data_pos: 0,
            packet_size: 4096,
            block_align: 0,
            sample_rate: 0,
            metadata: Vec::new(),
            is_aifc: false,
        }
    }

    /// A boxed demuxer, for a registry.
    pub fn create() -> (r: TaoResult<Box<dyn Demuxer>>)
        ensures
            r matches Ok(d) && d.format_kind() == FormatId::Aiff && d.stream_seq().len() == 0,
    {
        Ok(Box::new(AiffDemuxer::new()))
    }

    /// Codec of uncompressed big-endian PCM of a bit depth.
    fn resolve_uncompressed_codec(bits_per_sample: u16) -> (r: TaoResult<CodecId>)
        ensures
            match aiff_pcm_codec(bits_per_sample) {
                Some(c) => r == Ok::<CodecId, TaoError>(c),
                None => r matches Err(e) && e.kind() == ErrorKind::Unsupported,
            },
    {
        match bits_per_sample {
            8 => Ok(CodecId::PcmU8),
            16 => Ok(CodecId::PcmS16be),
            24 => Ok(CodecId::PcmS24le),
            32 => Ok(CodecId::PcmS32le),
            _ => Err(unsupported("AIFF bit depth not supported")),
        }
    }

    /// Codec of a bit depth and an optional AIFF-C compression type.
    fn resolve_codec_id(bits_per_sample: u16, compression_type: Option<[u8; 4]>) -> (r: TaoResult<CodecId>)
        ensures
            match aiff_codec(bits_per_sample, match compression_type { Some(t) => Some(t@), None => None }) {
                Some(c) => r == Ok::<CodecId, TaoError>(c),
                None => r matches Err(e) && e.kind() == ErrorKind::Unsupported,
            },
    {
        if let Some(ct) = compression_type {
            assert(seq![0x4Eu8, 0x4F, 0x4E, 0x45] =~= [0x4Eu8, 0x4F, 0x4E, 0x45]@);
            assert(seq![0x6Eu8, 0x6F, 0x6E, 0x65] =~= [0x6Eu8, 0x6F, 0x6E, 0x65]@);
            assert(seq![0x73u8, 0x6F, 0x77, 0x74] =~= [0x73u8, 0x6F, 0x77, 0x74]@);
            assert(seq![0x66u8, 0x6C, 0x33, 0x32] =~= [0x66u8, 0x6C, 0x33, 0x32]@);
            assert(seq![0x46u8, 0x4C, 0x33, 0x32] =~= [0x46u8, 0x4C, 0x33, 0x32]@);
            if tag_is(&ct, &[0x4E, 0x4F, 0x4E, 0x45]) || tag_is(&ct, &[0x6E, 0x6F, 0x6E, 0x65]) {
                return Self::resolve_uncompressed_codec(bits_per_sample);
            }
            if tag_is(&ct, &[0x73, 0x6F, 0x77, 0x74]) {
                return match bits_per_sample {
                    16 => Ok(CodecId::PcmS16le),
                    24 => Ok(CodecId::PcmS24le),
                    32 => Ok(CodecId::PcmS32le),
                    _ => Err(unsupported("sowt bit depth not supported")),
                };
            }
            if tag_is(&ct, &[0x66, 0x6C, 0x33, 0x32]) || tag_is(&ct, &[0x46, 0x4C, 0x33, 0x32]) {
                return Ok(CodecId::PcmF32le);
            }
            return Err(unsupported("AIFF-C compression type not supported"));
        }
        Self::resolve_uncompressed_codec(bits_per_sample)
    }

    /// Sample format of a PCM codec.
    fn resolve_sample_format(codec_id: CodecId) -> (r: SampleFormat)
        ensures
            r == aiff_sample_format(codec_id),
    {
        match codec_id {
            CodecId::PcmU8 => SampleFormat::U8,
            CodecId::PcmS16le | CodecId::PcmS16be => SampleFormat::S16,
            CodecId::PcmS24le | CodecId::PcmS32le => SampleFormat::S32,
            CodecId::PcmF32le => SampleFormat::F32,
            _ => SampleFormat::Unknown,
        }
    }

    /// Reads the `FORM` tag, the size and the form type; returns whether
    /// the file is AIFF-C.
    fn read_form_header(io: &mut IoContext) -> (r: TaoResult<bool>)
        ensures
            final(io).contents() == old(io).contents(),
            ({
                let d = old(io).contents();
                let p = old(io).cursor() as int;
                if p + 4 > d.len() {
                    r matches Err(e) && e.kind() == ErrorKind::Eof
                } else if d.subrange(p, p + 4) != form_tag() {
                    r matches Err(e) && e.kind() == ErrorKind::InvalidData
                } else if p + 12 > d.len() {
                    r matches Err(e) && e.kind() == ErrorKind::Eof
                } else if d.subrange(p + 8, p + 12) != aiff_tag() && d.subrange(p + 8, p + 12) != aifc_tag() {
                    r matches Err(e) && e.kind() == ErrorKind::InvalidData
                } else {
                    r == Ok::<bool, TaoError>(d.subrange(p + 8, p + 12) == aifc_tag()) && final(io).cursor() == p + 12
                }
            }),
    {
        let ghost d = io.contents();
        let ghost p = io.cursor() as int;
        let form = io.read_tag()?;
        assert(form@ =~= d.subrange(p, p + 4));
        assert(seq![0x46u8, 0x4F, 0x52, 0x4D] =~= form_tag());
        if !tag_is(&form, &[0x46u8, 0x4F, 0x52, 0x4D]) {
            return Err(invalid_data("not an IFF FORM file"));
        }
        let _file_size = io.read_u32_be()?;
        let kind = io.read_tag()?;
        assert(kind@ =~= d.subrange(p + 8, p + 12));
        assert(seq![0x41u8, 0x49, 0x46, 0x46] =~= aiff_tag());
        assert(seq![0x41u8, 0x49, 0x46, 0x43] =~= aifc_tag());
        if tag_is(&kind, &[0x41u8, 0x49, 0x46, 0x46]) {
            Ok(false)
        } else if tag_is(&kind, &[0x41u8, 0x49, 0x46, 0x43]) {
            Ok(true)
        } else {
            Err(invalid_data("not an AIFF or AIFF-C file"))
        }
    }

    /// Reads a `COMM` chunk of `chunk_size` bytes at the cursor, leaving the
    /// cursor after it (before any pad byte).
    fn read_comm(io: &mut IoContext, chunk_size: u64, aifc: bool) -> (r: TaoResult<AiffComm>)
        requires
            old(io).contents().len() <= 0x1_0000_0000_0000,
            old(io).cursor() <= old(io).contents().len(),
            0x40_0000_0000_0000 <= usize::MAX,
            chunk_size <= u32::MAX,
        ensures
            final(io).contents() == old(io).contents(),
            ({
                let d = old(io).contents();
                let q = old(io).cursor() as int;
                if q + 18 > d.len() || (aifc && chunk_size >= 22 && q + 22 > d.len()) {
                    r == Err::<AiffComm, TaoError>(TaoError::Eof)
                } else {
                    r matches Ok(c) && comm_is(c, d, q, chunk_size as int, aifc)
                        && final(io).cursor() == q + (if chunk_size > 18 { chunk_size as int } else { 18 })
                }
            }),
    {
        let ghost d = io.contents();
        let ghost q = io.cursor() as int;
        let channels = io.read_u16_be()?;
        let frames = io.read_u32_be()?;
        let bits = io.read_u16_be()?;
        let v = io.read_bytes(10)?;
        let b: [u8; 10] = [v[0], v[1], v[2], v[3], v[4], v[5], v[6], v[7], v[8], v[9]];
        assert(b@ =~= d.subrange(q + 8, q + 18));
        let rate = read_extended_rate(&b);
        let mut compression: Option<[u8; 4]> = None;
        if aifc && chunk_size >= 22 {
            let ct = io.read_tag()?;
            assert(ct@ =~= d.subrange(q + 18, q + 22));
            compression = Some(ct);
            let remaining = chunk_size - 22;
            if remaining > 0 {
                io.skip(remaining as usize)?;
            }
        } else if chunk_size > 18 {
            io.skip((chunk_size - 18) as usize)?;
        }
        Ok(AiffComm { channels, frames, bits, rate, compression })
    }

    /// Walks the chunks from the cursor up to the `SSND` chunk; returns the
    /// last `COMM` fields, the data offset and the data size.
    fn scan_chunks(io: &mut IoContext, aifc: bool) -> (r: TaoResult<(AiffComm, u64, u64)>)
        requires
            old(io).contents().len() <= 0x1_0000_0000_0000,
            old(io).cursor() <= old(io).contents().len(),
            0x40_0000_0000_0000 <= usize::MAX,
        ensures
            final(io).contents() == old(io).contents(),
            r matches Ok((c, off, size)) ==> size <= 0xFFFF_FFFF && off <= old(io).contents().len() + 0x1_0000_0000,
            match aiff_scan(old(io).contents(), old(io).cursor() as int, aifc, None) {
                AiffScan::Found(q, cs, off, size) => r matches Ok((c, o, sz)) && comm_is(c, old(io).contents(), q, cs, aifc)
                    && o == off && sz == size && final(io).cursor() == off,
                AiffScan::Failed(k) => r matches Err(e) && e.kind() == k,
                AiffScan::Ended(_) => r matches Err(e) && e.kind() == ErrorKind::InvalidData,
            },
    {
        let ghost d = io.contents();
        let ghost start = aiff_scan(d, io.cursor() as int, aifc, None);
        let ghost mut gcomm: Option<(int, int)> = None;
        let mut comm: Option<AiffComm> = None;
        loop
            invariant
                io.contents() == d,
                d == old(io).contents(),
                d.len() <= 0x1_0000_0000_0000,
                0x40_0000_0000_0000 <= usize::MAX,
                io.cursor() <= d.len() + 0x2_0000_0010,
                start == aiff_scan(d, old(io).cursor() as int, aifc, None),
                start == aiff_scan(d, io.cursor() as int, aifc, gcomm),
                comm is Some <==> gcomm is Some,
                comm matches Some(c) ==> comm_is(c, d, gcomm->Some_0.0, gcomm->Some_0.1, aifc),
            decreases d.len() + 8 - (if io.cursor() < d.len() + 8 { io.cursor() as int } else { d.len() + 8int }),
        {
            let ghost p = io.cursor() as int;
            let chunk_id = match io.read_tag() {
                Ok(t) => t,
                Err(_) => {
                    if comm.is_none() {
                        return Err(invalid_data("no COMM chunk"));
                    }
                    return Err(invalid_data("no SSND chunk"));
                },
            };
            let chunk_size = io.read_u32_be()? as u64;
            assert(chunk_id@ =~= d.subrange(p, p + 4));
            assert(seq![0x43u8, 0x4F, 0x4D, 0x4D] =~= comm_tag());
            assert(seq![0x53u8, 0x53, 0x4E, 0x44] =~= ssnd_tag());
            if tag_is(&chunk_id, &[0x43u8, 0x4F, 0x4D, 0x4D]) {
                let c = Self::read_comm(io, chunk_size, aifc)?;
                comm = Some(c);
                proof {
                    gcomm = Some((p + 8, chunk_size as int));
                }
            } else if tag_is(&chunk_id, &[0x53u8, 0x53, 0x4E, 0x44]) {
                let c = match comm {
                    Some(c) => c,
                    None => {
                        return Err(invalid_data("SSND chunk before COMM chunk"));
                    },
                };
                let ssnd_offset = io.read_u32_be()? as u64;
                let _block_size = io.read_u32_be()?;
                if ssnd_offset > 0 {
                    io.skip(ssnd_offset as usize)?;
                }
                let data_offset = io.position()?;
                let data_size = if chunk_size >= 8 + ssnd_offset {
                    chunk_size - 8 - ssnd_offset
                } else {
                    0
                };
                return Ok((c, data_offset, data_size));
            } else {
                io.skip(chunk_size as usize)?;
            }
            if chunk_size % 2 != 0 {
                io.skip(1)?;
            }
        }
    }

    /// Reads the FORM header and the chunks up to `SSND`, and sets up the
    /// audio stream.
    pub fn open_aiff(&mut self, io: &mut IoContext) -> (r: TaoResult<()>)
        requires
            io_in_range(*old(io)),
        ensures
            Self::open_post(*old(self), *final(self), *old(io), *final(io), r),
    {
        proof {
            use_type_invariant(&*self);
        }
        let ghost d = io.contents();
        let ghost p = io.cursor() as int;
        let aifc = Self::read_form_header(io)?;
        self.is_aifc = aifc;
        let (comm, data_offset, data_size) = Self::scan_chunks(io, aifc)?;
        self.data_offset = data_offset;
        self.data_size = data_size;
        let codec_id = Self::resolve_codec_id(comm.bits, comm.compression)?;
        let sample_format = Self::resolve_sample_format(codec_id);
        let channel_layout = ChannelLayout::from_channels(comm.channels as u32);
        let time_base = Rational::new(1, comm.rate as i32);
        assert(comm.channels as u32 * (comm.bits / 8) as u32 <= 0xFFFF_FFFF) by (nonlinear_arith)
            requires
                comm.channels <= 0xFFFF,
                comm.bits / 8 <= 0xFFFF,
        ;
        let block_align: u16 = ((comm.channels as u32 * (comm.bits / 8) as u32) % 0x1_0000) as u16;
        assert(comm.rate as u64 * comm.channels as u64 <= 0xFFFF_FFFF_FFFF_FFFF) by (nonlinear_arith)
            requires
                comm.rate <= 0xFFFF_FFFF,
                comm.channels <= 0xFFFF,
        ;
        assert(comm.rate as u64 * comm.channels as u64 * comm.bits as u64 <= 0xFFFF_FFFF_FFFF_FFFF) by (nonlinear_arith)
            requires
                comm.rate <= 0xFFFF_FFFF,
                comm.channels <= 0xFFFF,
                comm.bits <= 0xFFFF,
        ;
        let bit_rate = comm.rate as u64 * comm.channels as u64 * comm.bits as u64;
        let stream = Stream {
            index: 0,
            media_type: MediaType::Audio,
            codec_id,
            time_base,
            duration: comm.frames as i64,
            start_time: 0,
            nb_frames: comm.frames as u64,
            extra_data: Vec::new(),
            params: StreamParams::Audio(
                AudioStreamParams {
                    sample_rate: comm.rate,
                    channel_layout,
                    sample_format,
                    bit_rate,
                    frame_size: 0,
                },
            ),
            metadata: Vec::new(),
        };
        let mut streams: Vec<Stream> = Vec::new();
        streams.push(stream);
        self.streams = streams;
        self.block_align = block_align;
        self.sample_rate = comm.rate;
        self.data_pos = 0;
        let samples_per_packet: u32 = 4096;
        let mut packet_size = (block_align as u32 * samples_per_packet) as usize;
        if packet_size == 0 {
            packet_size = 4096;
        }
        self.packet_size = packet_size;
        Ok(())
    }

    /// Reads the next packet: up to `packet_bytes` of sample data, cut to
    /// whole sample frames, at the cursor.
    pub fn read_aiff_packet(&mut self, io: &mut IoContext) -> (r: TaoResult<Packet>)
        ensures
            Self::read_post(*old(self), *final(self), *old(io), *final(io), r),
    {
        proof {
            use_type_invariant(&*self);
        }
        if self.data_pos >= self.data_size {
            return Err(TaoError::Eof);
        }
        let remaining = (self.data_size - self.data_pos) as usize;
        let read_size = if self.packet_size < remaining {
            self.packet_size
        } else {
            remaining
        };
        let aligned_size = if self.block_align > 0 {
            let ba = self.block_align as usize;
            proof {
                lemma_round_down(read_size as int, ba as int);
            }
            (read_size / ba) * ba
        } else {
            read_size
        };
        if aligned_size == 0 {
            return Err(TaoError::Eof);
        }
        let data = io.read_bytes(aligned_size)?;
        let sample_offset: u64 = if self.block_align > 0 {
            self.data_pos / (self.block_align as u64)
        } else {
            0
        };
        let nb_samples: i64 = if self.block_align > 0 {
            aligned_size as i64 / (self.block_align as i64)
        } else {
            0
        };
        let mut pkt = Packet::from_vec(data);
        pkt.stream_index = 0;
        pkt.pts = sample_offset as i64;
        pkt.dts = pkt.pts;
        pkt.duration = nb_samples;
        pkt.time_base = Rational::new(1, self.sample_rate as i32);
        pkt.is_keyframe = true;
        pkt.pos = (self.data_offset + self.data_pos) as i64;
        self.data_pos = self.data_pos + aligned_size as u64;
        Ok(pkt)
    }

    /// Moves to sample frame `timestamp` (clamped to the data): the cursor
    /// goes to the frame's first byte.
    pub fn seek_aiff(&mut self, io: &mut IoContext, timestamp: i64) -> (r: TaoResult<()>)
        requires
            io_in_range(*old(io)),
            (if timestamp > 0 { timestamp as int } else { 0 }) * old(self).frame_bytes() <= u64::MAX,
        ensures
            Self::seek_post(*old(self), *final(self), *old(io), *final(io), timestamp, r),
    {
        proof {
            use_type_invariant(&*self);
        }
        if !io.is_seekable() {
            return Err(unsupported("seeking needs a seekable input"));
        }
        if self.block_align == 0 {
            return Err(invalid_data("block_align is 0"));
        }
        let sample: u64 = if timestamp > 0 {
            timestamp as u64
        } else {
            0
        };
        let byte_offset = sample * (self.block_align as u64);
        let byte_offset = if byte_offset < self.data_size {
            byte_offset
        } else {
            self.data_size
        };
        let ba = self.block_align as u64;
        proof {
            lemma_round_down(byte_offset as int, ba as int);
        }
        let aligned_offset = (byte_offset / ba) * ba;
        io.seek(SeekFrom::Start(self.data_offset + aligned_offset))?;
        self.data_pos = aligned_offset;
        Ok(())
    }
}

impl Demuxer for AiffDemuxer {
    open spec fn open_admits(&self, io: IoContext) -> bool {
        true
    }

    fn open_admitted(&self, io: &IoContext) -> (b: bool)
        ensures
            b == self.open_admits(*io),
    {
        true
    }

    open spec fn format_kind(&self) -> FormatId {
        FormatId::Aiff
    }

    open spec fn stream_seq(&self) -> Seq<Stream> {
        self.stream_list()
    }

    open spec fn seek_admits(&self, stream_index: usize, timestamp: i64) -> bool {
        (if timestamp > 0 { timestamp as int } else { 0 }) * self.frame_bytes() <= u64::MAX
    }

    open spec fn read_admits(&self) -> bool {
        true
    }

    fn read_admitted(&self) -> (b: bool)
        ensures
            b == self.read_admits(),
    {
        true
    }

    fn seek_admitted(&self, stream_index: usize, timestamp: i64) -> (b: bool)
        ensures
            b == self.seek_admits(stream_index, timestamp),
    {
        let t: u128 = if timestamp > 0 { timestamp as u128 } else { 0 };
        let f: u128 = self.block_align as u128;
        assert(t * f <= 0x8000_0000_0000_0000 * 0x10000) by (nonlinear_arith)
            requires
                t <= 0x8000_0000_0000_0000,
                f <= 0x10000,
        ;
        t * f <= u64::MAX as u128
    }


    fn format_id(&self) -> (r: FormatId)
        ensures
            r == FormatId::Aiff,
    {
        FormatId::Aiff
    }

    fn name(&self) -> (r: &'static str)
        ensures
            r@ == "aiff"@,
    {
        "aiff"
    }

    fn open(&mut self, io: &mut IoContext) -> (r: TaoResult<()>)
        ensures
            Self::open_post(*old(self), *final(self), *old(io), *final(io), r),
    {
        self.open_aiff(io)
    }

    fn streams(&self) -> (r: &[Stream])
        ensures
            r@ == self.stream_list(),
    {
        self.streams.as_slice()
    }

    fn read_packet(&mut self, io: &mut IoContext) -> (r: TaoResult<Packet>)
        ensures
            Self::read_post(*old(self), *final(self), *old(io), *final(io), r),
    {
        self.read_aiff_packet(io)
    }

    fn seek(&mut self, io: &mut IoContext, stream_index: usize, timestamp: i64, flags: SeekFlags) -> (r: TaoResult<()>)
        ensures
            Self::seek_post(*old(self), *final(self), *old(io), *final(io), timestamp, r),
    {
        self.seek_aiff(io, timestamp)
    }

    fn metadata(&self) -> (r: &[(String, String)])
        ensures
            r@.len() == 0,
    {
        proof {
            use_type_invariant(self);
        }
        self.metadata.as_slice()
    }
}

} // verus!
