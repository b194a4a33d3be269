//! CRC-32 computed most significant bit first, as MPEG-2 sections and Ogg
//! pages use it (generator 0x04C11DB7).

use vstd::prelude::*;
use crate::endian::be32_bytes;

verus! {

/// One step of the CRC register over a bit, with generator `poly`.
pub open spec fn crc_step(c: u32, poly: u32) -> u32 {
    if c & 0x8000_0000 != 0 {
        ((c << 1u32) ^ poly) as u32
    } else {
        (c << 1u32) as u32
    }
}

/// The CRC register after `k` bit steps.
pub open spec fn crc_steps(c: u32, poly: u32, k: nat) -> u32
    decreases k,
{
    if k == 0 {
        c
    } else {
        crc_step(crc_steps(c, poly, (k - 1) as nat), poly)
    }
}

/// MSB-first CRC-32 of `data` with generator `poly` and initial register
/// `init`, without final inversion.
pub open spec fn crc32_msb(init: u32, poly: u32, data: Seq<u8>) -> u32
    decreases data.len(),
{
    if data.len() == 0 {
        init
    } else {
        crc_steps(crc32_msb(init, poly, data.drop_last()) ^ ((data.last() as u32) << 24u32), poly, 8)
    }
}

/// MSB-first CRC-32 of `data` with generator `poly`.
pub fn crc32_msb_first(init: u32, poly: u32, data: &[u8]) -> (r: u32)
    ensures
        r == crc32_msb(init, poly, data@),
{
    let mut crc = init;
    let mut i: usize = 0;
    while i < data.len()
        invariant
            i <= data@.len(),
            crc == crc32_msb(init, poly, data@.subrange(0, i as int)),
        decreases data.len() - i,
    {
        let ghost prefix = data@.subrange(0, i as int + 1);
        assert(prefix.drop_last() =~= data@.subrange(0, i as int));
        crc = crc ^ ((data[i] as u32) << 24u32);
        let ghost start = crc;
        let mut k: u32 = 0;
        while k < 8
            invariant
                k <= 8,
                crc == crc_steps(start, poly, k as nat),
            decreases 8 - k,
        {
            if crc & 0x8000_0000 != 0 {
                crc = (crc << 1u32) ^ poly;
            } else {
                crc = crc << 1u32;
            }
            k = k + 1;
        }
        i = i + 1;
    }
    assert(data@.subrange(0, data@.len() as int) =~= data@);
    crc
}

/// One step of the 8-bit CRC register over a bit (generator 0x07).
pub open spec fn crc8_step(c: u8) -> u8 {
    if c & 0x80 != 0 {
        ((c << 1u8) ^ 0x07) as u8
    } else {
        (c << 1u8) as u8
    }
}

/// The 8-bit CRC register after `k` bit steps.
pub open spec fn crc8_steps(c: u8, k: nat) -> u8
    decreases k,
{
    if k == 0 {
        c
    } else {
        crc8_step(crc8_steps(c, (k - 1) as nat))
    }
}

/// CRC-8 of `data`, generator 0x07, register starting at 0, MSB first (the
/// FLAC frame header check).
pub open spec fn crc8_of(data: Seq<u8>) -> u8
    decreases data.len(),
{
    if data.len() == 0 {
        0
    } else {
        crc8_steps(crc8_of(data.drop_last()) ^ data.last(), 8)
    }
}

/// CRC-8 of `data` (generator 0x07, initial 0).
pub fn crc8(data: &[u8]) -> (r: u8)
    ensures
        r == crc8_of(data@),
{
    let mut crc: u8 = 0;
    let mut i: usize = 0;
    while i < data.len()
        invariant
            i <= data@.len(),
            crc == crc8_of(data@.subrange(0, i as int)),
        decreases data.len() - i,
    {
        let ghost prefix = data@.subrange(0, i as int + 1);
        assert(prefix.drop_last() =~= data@.subrange(0, i as int));
        crc = crc ^ data[i];
        let ghost start = crc;
        let mut k: u32 = 0;
        while k < 8
            invariant
                k <= 8,
                crc == crc8_steps(start, k as nat),
            decreases 8 - k,
        {
            if crc & 0x80 != 0 {
                crc = (crc << 1u8) ^ 0x07;
            } else {
                crc = crc << 1u8;
            }
            k = k + 1;
        }
        i = i + 1;
    }
    assert(data@.subrange(0, data@.len() as int) =~= data@);
    crc
}

/// A register whose top bit is clear shifts left without the generator.
proof fn lemma_step_clear(x: u32, poly: u32)
    requires
        x < 0x8000_0000,
    ensures
        crc_step(x, poly) == (x << 1u32) as u32,
{
    assert(x & 0x8000_0000 == 0) by (bit_vector)
        requires
            x < 0x8000_0000,
    ;
}

/// Feeding the register's own top byte clears it: eight steps over a
/// register whose top byte is zero shift it left by eight.
proof fn lemma_feed_top_byte(c: u32, b: u8, poly: u32)
    requires
        b as u32 == c >> 24u32,
    ensures
        crc_steps(c ^ ((b as u32) << 24u32), poly, 8) == (c << 8u32) as u32,
{
    let bb = b as u32;
    let x0 = c ^ (bb << 24u32);
    let x1 = (x0 << 1u32) as u32;
    let x2 = (x1 << 1u32) as u32;
    let x3 = (x2 << 1u32) as u32;
    let x4 = (x3 << 1u32) as u32;
    let x5 = (x4 << 1u32) as u32;
    let x6 = (x5 << 1u32) as u32;
    let x7 = (x6 << 1u32) as u32;
    let x8 = (x7 << 1u32) as u32;
    assert(x0 < 0x100_0000u32 && x1 < 0x200_0000u32 && x2 < 0x400_0000u32 && x3 < 0x800_0000u32
        && x4 < 0x1000_0000u32 && x5 < 0x2000_0000u32 && x6 < 0x4000_0000u32 && x7 < 0x8000_0000u32
        && x8 == (c << 8u32) as u32) by (bit_vector)
        requires
            bb == c >> 24u32,
            x0 == c ^ (bb << 24u32),
            x1 == (x0 << 1u32) as u32,
            x2 == (x1 << 1u32) as u32,
            x3 == (x2 << 1u32) as u32,
            x4 == (x3 << 1u32) as u32,
            x5 == (x4 << 1u32) as u32,
            x6 == (x5 << 1u32) as u32,
            x7 == (x6 << 1u32) as u32,
            x8 == (x7 << 1u32) as u32,
    ;
    lemma_step_clear(x0, poly);
    lemma_step_clear(x1, poly);
    lemma_step_clear(x2, poly);
    lemma_step_clear(x3, poly);
    lemma_step_clear(x4, poly);
    lemma_step_clear(x5, poly);
    lemma_step_clear(x6, poly);
    lemma_step_clear(x7, poly);
    reveal_with_fuel(crc_steps, 9);
}

/// The CRC of `a` followed by `b` continues from the CRC of `a`.
pub proof fn lemma_crc32_concat(init: u32, poly: u32, a: Seq<u8>, b: Seq<u8>)
    ensures
        crc32_msb(init, poly, a + b) == crc32_msb(crc32_msb(init, poly, a), poly, b),
    decreases b.len(),
{
    if b.len() == 0 {
        assert(a + b =~= a);
    } else {
        lemma_crc32_concat(init, poly, a, b.drop_last());
        assert((a + b).drop_last() =~= a + b.drop_last());
        assert((a + b).last() == b.last());
    }
}

/// A message followed by its CRC, most significant byte first, leaves a
/// zero register: the check a reader makes over a section and its CRC.
pub proof fn law_crc32_residue(init: u32, poly: u32, d: Seq<u8>)
    ensures
        crc32_msb(init, poly, d + be32_bytes(crc32_msb(init, poly, d))) == 0,
{
    let c = crc32_msb(init, poly, d);
    let t = be32_bytes(c);
    lemma_crc32_concat(init, poly, d, t);
    let c1 = (c << 8u32) as u32;
    let c2 = (c1 << 8u32) as u32;
    let c3 = (c2 << 8u32) as u32;
    let (t0, t1, t2, t3) = (t[0], t[1], t[2], t[3]);
    let (u0, u1, u2, u3) = (t0 as u32, t1 as u32, t2 as u32, t3 as u32);
    assert(u0 == c / 16777216 && u1 == (c / 65536) % 256 && u2 == (c / 256) % 256 && u3 == c % 256);
    assert(u0 == c >> 24u32 && u1 == c1 >> 24u32 && u2 == c2 >> 24u32 && u3 == c3 >> 24u32 && (c3
        << 8u32) as u32 == 0u32) by (bit_vector)
        requires
            u0 == c / 16777216u32,
            u1 == (c / 65536u32) % 256u32,
            u2 == (c / 256u32) % 256u32,
            u3 == c % 256u32,
            c1 == (c << 8u32) as u32,
            c2 == (c1 << 8u32) as u32,
            c3 == (c2 << 8u32) as u32,
    ;
    lemma_feed_top_byte(c, t0, poly);
    lemma_feed_top_byte(c1, t1, poly);
    lemma_feed_top_byte(c2, t2, poly);
    lemma_feed_top_byte(c3, t3, poly);
    reveal_with_fuel(crc32_msb, 5);
    assert(t.subrange(0, 1).drop_last() =~= Seq::<u8>::empty());
    assert(t.subrange(0, 2).drop_last() =~= t.subrange(0, 1));
    assert(t.subrange(0, 3).drop_last() =~= t.subrange(0, 2));
    assert(t.drop_last() =~= t.subrange(0, 3));
    assert(crc32_msb(c, poly, t.subrange(0, 1)) == c1);
    assert(crc32_msb(c, poly, t.subrange(0, 2)) == c2);
    assert(crc32_msb(c, poly, t.subrange(0, 3)) == c3);
}

} // verus!
