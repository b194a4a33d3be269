//! Byte-order helpers: the integer a run of bytes denotes, and the bytes
//! that denote an integer.

use vstd::prelude::*;

verus! {

/// `init` followed by the `n` bytes of `s` at `i`, read big-endian.
pub open spec fn be_acc(init: nat, s: Seq<u8>, i: int, n: nat) -> nat
    decreases n,
{
    if n == 0 {
        init
    } else {
        be_acc(init, s, i, (n - 1) as nat) * 256 + s[i + n - 1] as nat
    }
}

/// 256 to the power `n`.
pub open spec fn pow256(n: nat) -> nat
    decreases n,
{
    if n == 0 {
        1
    } else {
        256 * pow256((n - 1) as nat)
    }
}

pub proof fn lemma_be_acc_bound(init: nat, s: Seq<u8>, i: int, n: nat)
    ensures
        be_acc(init, s, i, n) < (init + 1) * pow256(n),
    decreases n,
{
    if n == 0 {
        assert(pow256(0) == 1);
        assert((init + 1) * 1 == init + 1);
    } else {
        lemma_be_acc_bound(init, s, i, (n - 1) as nat);
        let a = be_acc(init, s, i, (n - 1) as nat);
        let b = s[i + n - 1] as nat;
        assert(be_acc(init, s, i, n) == a * 256 + b);
        assert(b < 256);
        let q = (init + 1) * pow256((n - 1) as nat);
        assert(a < q);
        assert(a * 256 + b < q * 256) by (nonlinear_arith)
            requires
                a < q,
                b < 256,
        ;
        assert(q * 256 == (init + 1) * pow256(n)) by (nonlinear_arith)
            requires
                q == (init + 1) * pow256((n - 1) as nat),
                pow256(n) == 256 * pow256((n - 1) as nat),
        ;
    }
}

pub proof fn lemma_pow256_mono(a: nat, b: nat)
    requires
        a <= b,
    ensures
        pow256(a) <= pow256(b),
    decreases b,
{
    if a < b {
        lemma_pow256_mono(a, (b - 1) as nat);
    }
}

pub proof fn lemma_pow256_small()
    ensures
        pow256(0) == 1,
        pow256(1) == 0x100,
        pow256(2) == 0x1_0000,
        pow256(3) == 0x100_0000,
        pow256(4) == 0x1_0000_0000,
        pow256(5) == 0x100_0000_0000,
        pow256(6) == 0x1_0000_0000_0000,
        pow256(7) == 0x100_0000_0000_0000,
        pow256(8) == 0x1_0000_0000_0000_0000,
{
    reveal_with_fuel(pow256, 9);
}

/// The 2-byte little-endian value of `b0 b1`.
pub open spec fn le16(b0: u8, b1: u8) -> int {
    b0 + 256 * b1
}

/// The 2-byte big-endian value of `b0 b1`.
pub open spec fn be16(b0: u8, b1: u8) -> int {
    b0 * 256 + b1
}

/// The 3-byte big-endian value of `b0 b1 b2`.
pub open spec fn be24(b0: u8, b1: u8, b2: u8) -> int {
    b0 * 65536 + b1 * 256 + b2
}

/// The 4-byte little-endian value of `b0 b1 b2 b3`.
pub open spec fn le32(b0: u8, b1: u8, b2: u8, b3: u8) -> int {
    b0 + 256 * b1 + 65536 * b2 + 16777216 * b3
}

/// The 4-byte big-endian value of `b0 b1 b2 b3`.
pub open spec fn be32(b0: u8, b1: u8, b2: u8, b3: u8) -> int {
    b0 * 16777216 + b1 * 65536 + b2 * 256 + b3
}

/// Builds a `u16` from two little-endian bytes.
pub fn u16_from_le(b0: u8, b1: u8) -> (r: u16)
    ensures
        r == le16(b0, b1),
{
    let r = ((b1 as u16) << 8u16) | (b0 as u16);
    assert(((b1 as u16) << 8u16) | (b0 as u16) == b0 + 256 * b1) by (bit_vector);
    r
}

/// Builds a `u16` from two big-endian bytes.
pub fn u16_from_be(b0: u8, b1: u8) -> (r: u16)
    ensures
        r == be16(b0, b1),
{
    let r = ((b0 as u16) << 8u16) | (b1 as u16);
    assert(((b0 as u16) << 8u16) | (b1 as u16) == b0 * 256 + b1) by (bit_vector);
    r
}

/// Builds a `u32` from three big-endian bytes.
pub fn u24_from_be(b0: u8, b1: u8, b2: u8) -> (r: u32)
    ensures
        r == be24(b0, b1, b2),
{
    let r = ((b0 as u32) << 16u32) | ((b1 as u32) << 8u32) | (b2 as u32);
    assert(((b0 as u32) << 16u32) | ((b1 as u32) << 8u32) | (b2 as u32) == b0 * 65536 + b1 * 256
        + b2) by (bit_vector);
    r
}

/// Builds a `u32` from four little-endian bytes.
pub fn u32_from_le(b0: u8, b1: u8, b2: u8, b3: u8) -> (r: u32)
    ensures
        r == le32(b0, b1, b2, b3),
{
    let r = ((b3 as u32) << 24u32) | ((b2 as u32) << 16u32) | ((b1 as u32) << 8u32) | (b0 as u32);
    assert(((b3 as u32) << 24u32) | ((b2 as u32) << 16u32) | ((b1 as u32) << 8u32) | (b0 as u32)
        == b0 + 256 * b1 + 65536 * b2 + 16777216 * b3) by (bit_vector);
    r
}

/// Builds a `u32` from four big-endian bytes.
pub fn u32_from_be(b0: u8, b1: u8, b2: u8, b3: u8) -> (r: u32)
    ensures
        r == be32(b0, b1, b2, b3),
{
    let r = ((b0 as u32) << 24u32) | ((b1 as u32) << 16u32) | ((b2 as u32) << 8u32) | (b3 as u32);
    assert(((b0 as u32) << 24u32) | ((b1 as u32) << 16u32) | ((b2 as u32) << 8u32) | (b3 as u32)
        == b0 * 16777216 + b1 * 65536 + b2 * 256 + b3) by (bit_vector);
    r
}

/// The two's complement `i16` of a `u16`.
pub fn i16_of(v: u16) -> (r: i16)
    ensures
        r == (if v >= 0x8000 { v - 0x10000 } else { v as int }),
{
    let r = v as i16;
    assert(v as i16 == (if v >= 0x8000 { v - 0x10000 } else { v as int })) by (bit_vector);
    r
}

/// The two's complement `i32` of a `u32`.
pub fn i32_of(v: u32) -> (r: i32)
    ensures
        r == (if v >= 0x8000_0000 { v - 0x1_0000_0000 } else { v as int }),
{
    let r = v as i32;
    assert(v as i32 == (if v >= 0x8000_0000 { v - 0x1_0000_0000 } else { v as int }))
        by (bit_vector);
    r
}

/// The two little-endian bytes of `v`.
pub open spec fn le16_bytes(v: u16) -> Seq<u8> {
    seq![(v % 256) as u8, (v / 256) as u8]
}

/// The two big-endian bytes of `v`.
pub open spec fn be16_bytes(v: u16) -> Seq<u8> {
    seq![(v / 256) as u8, (v % 256) as u8]
}

/// The four little-endian bytes of `v`.
pub open spec fn le32_bytes(v: u32) -> Seq<u8> {
    seq![(v % 256) as u8, ((v / 256) % 256) as u8, ((v / 65536) % 256) as u8, (v / 16777216) as u8]
}

/// The four big-endian bytes of `v`.
pub open spec fn be32_bytes(v: u32) -> Seq<u8> {
    seq![(v / 16777216) as u8, ((v / 65536) % 256) as u8, ((v / 256) % 256) as u8, (v % 256) as u8]
}

/// Reading back the bytes of an integer gives the integer.
pub proof fn lemma_bytes_read_back(v16: u16, v32: u32)
    ensures
        le16(le16_bytes(v16)[0], le16_bytes(v16)[1]) == v16,
        be16(be16_bytes(v16)[0], be16_bytes(v16)[1]) == v16,
        le32(le32_bytes(v32)[0], le32_bytes(v32)[1], le32_bytes(v32)[2], le32_bytes(v32)[3]) == v32,
        be32(be32_bytes(v32)[0], be32_bytes(v32)[1], be32_bytes(v32)[2], be32_bytes(v32)[3]) == v32,
{
}

/// Little-endian bytes of a `u16`.
pub fn u16_to_le(v: u16) -> (r: [u8; 2])
    ensures
        r@ == le16_bytes(v),
{
    let b0 = (v & 0xFF) as u8;
    let b1 = (v >> 8u16) as u8;
    assert((v & 0xFF) as u8 == v % 256 && (v >> 8u16) as u8 == v / 256) by (bit_vector);
    let r = [b0, b1];
    assert(r@ =~= le16_bytes(v));
    r
}

/// Big-endian bytes of a `u16`.
pub fn u16_to_be(v: u16) -> (r: [u8; 2])
    ensures
        r@ == be16_bytes(v),
{
    let b0 = (v >> 8u16) as u8;
    let b1 = (v & 0xFF) as u8;
    assert((v & 0xFF) as u8 == v % 256 && (v >> 8u16) as u8 == v / 256) by (bit_vector);
    let r = [b0, b1];
    assert(r@ =~= be16_bytes(v));
    r
}

/// Little-endian bytes of a `u32`.
pub fn u32_to_le(v: u32) -> (r: [u8; 4])
    ensures
        r@ == le32_bytes(v),
{
    let b0 = (v & 0xFF) as u8;
    let b1 = ((v >> 8u32) & 0xFF) as u8;
    let b2 = ((v >> 16u32) & 0xFF) as u8;
    let b3 = (v >> 24u32) as u8;
    assert((v & 0xFF) as u8 == v % 256 && ((v >> 8u32) & 0xFF) as u8 == (v / 256) % 256 && ((v
        >> 16u32) & 0xFF) as u8 == (v / 65536) % 256 && (v >> 24u32) as u8 == v / 16777216)
        by (bit_vector);
    let r = [b0, b1, b2, b3];
    assert(r@ =~= le32_bytes(v));
    r
}

/// Big-endian bytes of a `u32`.
pub fn u32_to_be(v: u32) -> (r: [u8; 4])
    ensures
        r@ == be32_bytes(v),
{
    let b0 = (v >> 24u32) as u8;
    let b1 = ((v >> 16u32) & 0xFF) as u8;
    let b2 = ((v >> 8u32) & 0xFF) as u8;
    let b3 = (v & 0xFF) as u8;
    assert((v & 0xFF) as u8 == v % 256 && ((v >> 8u32) & 0xFF) as u8 == (v / 256) % 256 && ((v
        >> 16u32) & 0xFF) as u8 == (v / 65536) % 256 && (v >> 24u32) as u8 == v / 16777216)
        by (bit_vector);
    let r = [b0, b1, b2, b3];
    assert(r@ =~= be32_bytes(v));
    r
}

/// The eight big-endian bytes of `v`.
pub open spec fn be64_bytes(v: u64) -> Seq<u8> {
    be32_bytes((v / 0x1_0000_0000) as u32) + be32_bytes((v % 0x1_0000_0000) as u32)
}

/// Big-endian bytes of a `u64`.
pub fn u64_to_be(v: u64) -> (r: [u8; 8])
    ensures
        r@ == be64_bytes(v),
{
    let hi = (v / 0x1_0000_0000) as u32;
    let lo = (v % 0x1_0000_0000) as u32;
    let h = u32_to_be(hi);
    let l = u32_to_be(lo);
    let r = [h[0], h[1], h[2], h[3], l[0], l[1], l[2], l[3]];
    assert(r@ =~= be64_bytes(v));
    r
}

/// Appends the little-endian bytes of a `u16`.
pub fn push_le16(buf: &mut Vec<u8>, v: u16)
    ensures
        final(buf)@ == old(buf)@ + le16_bytes(v),
{
    let b = u16_to_le(v);
    buf.push(b[0]);
    buf.push(b[1]);
    assert(buf@ =~= old(buf)@ + le16_bytes(v));
}

/// Appends the little-endian bytes of a `u32`.
pub fn push_le32(buf: &mut Vec<u8>, v: u32)
    ensures
        final(buf)@ == old(buf)@ + le32_bytes(v),
{
    let b = u32_to_le(v);
    buf.push(b[0]);
    buf.push(b[1]);
    buf.push(b[2]);
    buf.push(b[3]);
    assert(buf@ =~= old(buf)@ + le32_bytes(v));
}

/// Appends the big-endian bytes of a `u16`.
pub fn push_be16(buf: &mut Vec<u8>, v: u16)
    ensures
        final(buf)@ == old(buf)@ + be16_bytes(v),
{
    let b = u16_to_be(v);
    buf.push(b[0]);
    buf.push(b[1]);
    assert(buf@ =~= old(buf)@ + be16_bytes(v));
}

/// Appends the big-endian bytes of a `u32`.
pub fn push_be32(buf: &mut Vec<u8>, v: u32)
    ensures
        final(buf)@ == old(buf)@ + be32_bytes(v),
{
    let b = u32_to_be(v);
    buf.push(b[0]);
    buf.push(b[1]);
    buf.push(b[2]);
    buf.push(b[3]);
    assert(buf@ =~= old(buf)@ + be32_bytes(v));
}

/// Appends four bytes.
pub fn push_tag(buf: &mut Vec<u8>, tag: &[u8; 4])
    ensures
        final(buf)@ == old(buf)@ + tag@,
{
    buf.push(tag[0]);
    buf.push(tag[1]);
    buf.push(tag[2]);
    buf.push(tag[3]);
    assert(buf@ =~= old(buf)@ + tag@);
}

/// A copy of the bytes of `v`.
pub fn copy_bytes(v: &[u8]) -> (r: Vec<u8>)
    ensures
        r@ == v@,
{
    let mut r: Vec<u8> = Vec::new();
    let mut i: usize = 0;
    while i < v.len()
        invariant
            i <= v@.len(),
            r@ == v@.subrange(0, i as int),
        decreases v.len() - i,
    {
        r.push(v[i]);
        i = i + 1;
        assert(r@ =~= v@.subrange(0, i as int));
    }
    assert(v@.subrange(0, v@.len() as int) =~= v@);
    r
}

/// Appends the bytes of `src`.
pub fn push_all(buf: &mut Vec<u8>, src: &[u8])
    ensures
        final(buf)@ == old(buf)@ + src@,
{
    let mut i: usize = 0;
    while i < src.len()
        invariant
            i <= src@.len(),
            buf@ == old(buf)@ + src@.subrange(0, i as int),
        decreases src.len() - i,
    {
        buf.push(src[i]);
        i = i + 1;
        assert(buf@ =~= old(buf)@ + src@.subrange(0, i as int));
    }
    assert(src@.subrange(0, i as int) =~= src@);
}

} // verus!
