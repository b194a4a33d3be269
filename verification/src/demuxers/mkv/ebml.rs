//! EBML (Extensible Binary Meta Language) reading.
//!
//! Element IDs and sizes are variable-length integers (VINTs): the number
//! of leading zero bits of the first byte, plus one, is the length in bytes.
//! An ID keeps its marker bit; a size has it cleared, and a size whose data
//! bits are all set means "unknown".

use vstd::prelude::*;
use crate::error::{ErrorKind, TaoError, TaoResult, invalid_data};
use crate::io::{IoContext, bytes_at};
use crate::endian::{be_acc, pow256, lemma_be_acc_bound, lemma_pow256_mono, lemma_pow256_small};
use crate::text::{utf8_lossy, utf8_lossy_chars};

verus! {

/// Size value that stands for "unknown size".
pub const EBML_UNKNOWN_SIZE: u64 = 0xFFFF_FFFF_FFFF_FFFF;

/// Width in bytes of a VINT whose first byte is `b`: one more than its
/// leading zero bits (9 for a zero byte, which no VINT starts with).
pub open spec fn vint_width(b: u8) -> nat {
    if b >= 0x80 {
        1
    } else if b >= 0x40 {
        2
    } else if b >= 0x20 {
        3
    } else if b >= 0x10 {
        4
    } else if b >= 0x08 {
        5
    } else if b >= 0x04 {
        6
    } else if b >= 0x02 {
        7
    } else if b >= 0x01 {
        8
    } else {
        9
    }
}

/// Value of the marker bit of a VINT of width `w` (1 to 8): 2^(8-w).
pub open spec fn vint_marker(w: nat) -> nat {
    if w == 1 {
        128
    } else if w == 2 {
        64
    } else if w == 3 {
        32
    } else if w == 4 {
        16
    } else if w == 5 {
        8
    } else if w == 6 {
        4
    } else if w == 7 {
        2
    } else {
        1
    }
}

/// The value of a size VINT of width `w` with all 7w data bits set.
pub open spec fn vint_all_ones(w: nat) -> nat {
    if w == 1 {
        0x7F
    } else if w == 2 {
        0x3FFF
    } else if w == 3 {
        0x1F_FFFF
    } else if w == 4 {
        0xFFF_FFFF
    } else if w == 5 {
        0x7_FFFF_FFFF
    } else if w == 6 {
        0x3FF_FFFF_FFFF
    } else if w == 7 {
        0x1_FFFF_FFFF_FFFF
    } else {
        0xFF_FFFF_FFFF_FFFF
    }
}

/// Element ID of width `w` at `p`: its bytes, marker bit included.
pub open spec fn ebml_id_value(d: Seq<u8>, p: int, w: nat) -> nat {
    be_acc(d[p] as nat, d, p + 1, (w - 1) as nat)
}

/// Element size of width `w` at `p`: marker bit cleared; all data bits set
/// reads as `EBML_UNKNOWN_SIZE`.
pub open spec fn ebml_size_value(d: Seq<u8>, p: int, w: nat) -> u64 {
    let v = be_acc((d[p] as nat % vint_marker(w)) as nat, d, p + 1, (w - 1) as nat);
    if v == vint_all_ones(w) {
        EBML_UNKNOWN_SIZE
    } else {
        v as u64
    }
}

/// Width of the VINT whose first byte is `b` (9 for a zero byte).
fn vint_len(b: u8) -> (r: u8)
    ensures
        r == vint_width(b),
{
    if b >= 0x80 {
        1
    } else if b >= 0x40 {
        2
    } else if b >= 0x20 {
        3
    } else if b >= 0x10 {
        4
    } else if b >= 0x08 {
        5
    } else if b >= 0x04 {
        6
    } else if b >= 0x02 {
        7
    } else if b >= 0x01 {
        8
    } else {
        9
    }
}

/// Reads an element ID: a VINT of at most 4 bytes, kept with its marker bit.
/// Returns the ID and its width.
pub fn read_element_id(io: &mut IoContext) -> (r: TaoResult<(u32, u8)>)
    ensures
        final(io).contents() == old(io).contents(),
        !old(io).can_read(1) ==> r == Err::<(u32, u8), TaoError>(TaoError::Eof)
            && final(io).cursor() == old(io).cursor(),
        old(io).can_read(1) ==> ({
            let w = vint_width(old(io).ahead(0));
            if w > 4 {
                (r matches Err(TaoError::InvalidData(_)) && final(io).cursor() == old(io).cursor() + 1)
            } else if old(io).can_read(w) {
                r == Ok::<(u32, u8), TaoError>(
                    (
                        ebml_id_value(old(io).contents(), old(io).cursor() as int, w) as u32,
                        w as u8,
                    ),
                ) && final(io).cursor() == old(io).cursor() + w
            } else {
                r == Err::<(u32, u8), TaoError>(TaoError::Eof) && final(io).cursor()
                    == old(io).contents().len()
            }
        }),
{
    let ghost d = io.contents();
    let ghost p = io.cursor();
    let first = io.read_u8()?;
    let len = vint_len(first);
    if first == 0 {
        return Err(invalid_data("EBML: invalid element ID"));
    }
    if len > 4 {
        return Err(invalid_data("EBML: element ID longer than 4 bytes"));
    }
    let mut id: u32 = first as u32;
    let mut i: u8 = 1;
    while i < len
        invariant
            1 <= i <= len,
            len <= 4,
            len == vint_width(first),
            first == d[p as int],
            p + i <= d.len(),
            io.contents() == d,
            d == old(io).contents(),
            p == old(io).cursor(),
            io.cursor() == p + i,
            id == be_acc(first as nat, d, p + 1int, (i - 1) as nat),
        decreases len - i,
    {
        let b = io.read_u8()?;
        proof {
            lemma_be_acc_bound(first as nat, d, p + 1int, (i - 1) as nat);
            lemma_pow256_mono((i - 1) as nat, 2);
            lemma_pow256_small();
            assert((first as nat + 1) * pow256((i - 1) as nat) <= 256 * 0x1_0000) by (nonlinear_arith)
                requires
                    first < 256,
                    pow256((i - 1) as nat) <= 0x1_0000,
            ;
        }
        id = id * 256 + b as u32;
        i = i + 1;
    }
    Ok((id, len))
}

/// Reads an element size: a VINT of at most 8 bytes with its marker bit
/// cleared. Returns the size, or `EBML_UNKNOWN_SIZE` when all its data bits
/// are set, and its width.
pub fn read_element_size(io: &mut IoContext) -> (r: TaoResult<(u64, u8)>)
    ensures
        final(io).contents() == old(io).contents(),
        !old(io).can_read(1) ==> r == Err::<(u64, u8), TaoError>(TaoError::Eof)
            && final(io).cursor() == old(io).cursor(),
        old(io).can_read(1) ==> ({
            let w = vint_width(old(io).ahead(0));
            if w > 8 {
                (r matches Err(TaoError::InvalidData(_)) && final(io).cursor() == old(io).cursor() + 1)
            } else if old(io).can_read(w) {
                r == Ok::<(u64, u8), TaoError>(
                    (ebml_size_value(old(io).contents(), old(io).cursor() as int, w), w as u8),
                ) && final(io).cursor() == old(io).cursor() + w
            } else {
                r == Err::<(u64, u8), TaoError>(TaoError::Eof) && final(io).cursor()
                    == old(io).contents().len()
            }
        }),
{
    let ghost d = io.contents();
    let ghost p = io.cursor();
    let first = io.read_u8()?;
    let len = vint_len(first);
    if first == 0 {
        return Err(invalid_data("EBML: invalid element size"));
    }
    let marker: u8 = match len {
        1 => 128,
        2 => 64,
        3 => 32,
        4 => 16,
        5 => 8,
        6 => 4,
        7 => 2,
        _ => 1,
    };
    let mut size: u64 = (first % marker) as u64;
    let mut i: u8 = 1;
    while i < len
        invariant
            1 <= i <= len,
            len <= 8,
            len == vint_width(first),
            first == d[p as int],
            marker as nat == vint_marker(len as nat),
            p + i <= d.len(),
            io.contents() == d,
            d == old(io).contents(),
            p == old(io).cursor(),
            io.cursor() == p + i,
            size == be_acc((first % marker) as nat, d, p + 1int, (i - 1) as nat),
        decreases len - i,
    {
        let b = io.read_u8()?;
        proof {
            let init = (first % marker) as nat;
            lemma_be_acc_bound(init, d, p + 1int, (i - 1) as nat);
            lemma_pow256_mono((i - 1) as nat, 6);
            lemma_pow256_small();
            assert((init + 1) * pow256((i - 1) as nat) <= 256 * 0x1_0000_0000_0000) by (nonlinear_arith)
                requires
                    init < 256,
                    pow256((i - 1) as nat) <= 0x1_0000_0000_0000,
            ;
        }
        size = size * 256 + b as u64;
        i = i + 1;
    }
    let all_ones: u64 = match len {
        1 => 0x7F,
        2 => 0x3FFF,
        3 => 0x1F_FFFF,
        4 => 0xFFF_FFFF,
        5 => 0x7_FFFF_FFFF,
        6 => 0x3FF_FFFF_FFFF,
        7 => 0x1_FFFF_FFFF_FFFF,
        _ => 0xFF_FFFF_FFFF_FFFF,
    };
    if size == all_ones {
        return Ok((EBML_UNKNOWN_SIZE, len));
    }
    Ok((size, len))
}

/// What reading an element header at `p` gives.
pub enum Hdr {
    /// The ID, the size and where the content starts.
    Got(u32, u64, int),
    /// The error met, and where the cursor is left.
    Bad(ErrorKind, int),
}

/// The element header at `p`: an ID of at most 4 bytes, then a size of at
/// most 8; a zero first byte, or a longer VINT, is invalid data, and bytes
/// running out is `Eof`.
pub open spec fn hdr_at(d: Seq<u8>, p: int) -> Hdr {
    if p >= d.len() {
        Hdr::Bad(ErrorKind::Eof, p)
    } else {
        let w1 = vint_width(d[p]);
        let q = p + w1;
        if w1 > 4 {
            Hdr::Bad(ErrorKind::InvalidData, p + 1)
        } else if q > d.len() {
            Hdr::Bad(ErrorKind::Eof, d.len() as int)
        } else if q >= d.len() {
            Hdr::Bad(ErrorKind::Eof, q)
        } else {
            let w2 = vint_width(d[q]);
            if w2 > 8 {
                Hdr::Bad(ErrorKind::InvalidData, q + 1)
            } else if q + w2 > d.len() {
                Hdr::Bad(ErrorKind::Eof, d.len() as int)
            } else {
                Hdr::Got(ebml_id_value(d, p, w1) as u32, ebml_size_value(d, q, w2), q + w2)
            }
        }
    }
}

/// Reads an element header: its ID and its size. Returns the ID, the size
/// and the width of the two together.
pub fn read_element_header(io: &mut IoContext) -> (r: TaoResult<(u32, u64, u8)>)
    ensures
        final(io).contents() == old(io).contents(),
        match hdr_at(old(io).contents(), old(io).cursor() as int) {
            Hdr::Got(id, size, c) => r == Ok::<(u32, u64, u8), TaoError>((id, size, (c - old(io).cursor()) as u8))
                && final(io).cursor() == c,
            Hdr::Bad(k, q) => r is Err && r->Err_0.kind() == k && final(io).cursor() == q,
        },
        r matches Ok((id, size, n)) ==> ({
            let d = old(io).contents();
            let p = old(io).cursor();
            let w1 = vint_width(d[p as int]);
            let w2 = vint_width(d[p + w1 as int]);
            &&& w1 <= 4 && w2 <= 8
            &&& old(io).can_read(w1 + w2)
            &&& id == ebml_id_value(d, p as int, w1) as u32
            &&& size == ebml_size_value(d, p + w1 as int, w2)
            &&& n == w1 + w2
            &&& final(io).cursor() == p + w1 + w2
        }),
        r is Err ==> (r matches Err(TaoError::Eof) || r matches Err(TaoError::InvalidData(_))),
        old(io).can_read(1) && vint_width(old(io).ahead(0)) <= 4 && old(io).can_read(
            vint_width(old(io).ahead(0)) + 1,
        ) && vint_width(old(io).ahead(vint_width(old(io).ahead(0)) as int)) <= 8 && old(
            io,
        ).can_read(
            vint_width(old(io).ahead(0)) + vint_width(
                old(io).ahead(vint_width(old(io).ahead(0)) as int),
            ),
        ) ==> r is Ok,
{
    let (id, id_len) = read_element_id(io)?;
    let (size, size_len) = read_element_size(io)?;
    Ok((id, size, id_len + size_len))
}

/// Reads an unsigned big-endian integer of `size` bytes (1 to 8).
pub fn read_uint(io: &mut IoContext, size: u64) -> (r: TaoResult<u64>)
    ensures
        final(io).contents() == old(io).contents(),
        (size == 0 || size > 8) ==> (r matches Err(TaoError::InvalidData(_)) && final(io).cursor()
            == old(io).cursor()),
        1 <= size <= 8 ==> (if old(io).can_read(size as nat) {
            r == Ok::<u64, TaoError>(
                be_acc(0, old(io).contents(), old(io).cursor() as int, size as nat) as u64,
            ) && final(io).cursor() == old(io).cursor() + size
        } else {
            r == Err::<u64, TaoError>(TaoError::Eof) && final(io).cursor() == (if old(io).cursor()
                >= old(io).contents().len() {
                old(io).cursor()
            } else {
                old(io).contents().len()
            })
        }),
{
    if size == 0 || size > 8 {
        return Err(invalid_data("EBML: invalid uint size"));
    }
    let ghost d = io.contents();
    let ghost p = io.cursor();
    let mut val: u64 = 0;
    let mut i: u64 = 0;
    while i < size
        invariant
            i <= size,
            1 <= size <= 8,
            io.contents() == d,
            d == old(io).contents(),
            p == old(io).cursor(),
            i > 0 ==> p + i <= d.len(),
            io.cursor() == p + i,
            val == be_acc(0, d, p as int, i as nat),
        decreases size - i,
    {
        let b = io.read_u8()?;
        proof {
            lemma_be_acc_bound(0, d, p as int, i as nat);
            lemma_pow256_mono(i as nat, 7);
            lemma_pow256_small();
            assert((0 + 1) * pow256(i as nat) == pow256(i as nat)) by (nonlinear_arith);
            assert(val < 0x100_0000_0000_0000);
        }
        val = val * 256 + b as u64;
        i = i + 1;
    }
    Ok(val)
}

/// Two's complement reading of the `n`-byte unsigned value `u`.
pub open spec fn sign_extend(u: nat, n: nat) -> int {
    if u >= pow256(n) / 2 {
        u - pow256(n)
    } else {
        u as int
    }
}

/// Reads a signed big-endian integer of `size` bytes (1 to 8), sign
/// extended (two's complement).
pub fn read_sint(io: &mut IoContext, size: u64) -> (r: TaoResult<i64>)
    ensures
        final(io).contents() == old(io).contents(),
        (size == 0 || size > 8) ==> (r matches Err(TaoError::InvalidData(_)) && final(io).cursor()
            == old(io).cursor()),
        1 <= size <= 8 ==> (if old(io).can_read(size as nat) {
            r == Ok::<i64, TaoError>(
                sign_extend(
                    be_acc(0, old(io).contents(), old(io).cursor() as int, size as nat),
                    size as nat,
                ) as i64,
            ) && final(io).cursor() == old(io).cursor() + size
        } else {
            r == Err::<i64, TaoError>(TaoError::Eof)
        }),
{
    let ghost d = io.contents();
    let ghost p = io.cursor();
    let u = read_uint(io, size)?;
    proof {
        lemma_be_acc_bound(0, d, p as int, size as nat);
        lemma_pow256_mono(size as nat, 8);
        lemma_pow256_small();
        assert((0 + 1) * pow256(size as nat) == pow256(size as nat)) by (nonlinear_arith);
    }
    let half: u64 = match size {
        1 => 0x80,
        2 => 0x8000,
        3 => 0x80_0000,
        4 => 0x8000_0000,
        5 => 0x80_0000_0000,
        6 => 0x8000_0000_0000,
        7 => 0x80_0000_0000_0000,
        _ => 0x8000_0000_0000_0000,
    };
    if u >= half {
        if size == 8 {
            let m = (u64::MAX - u) as i64;
            return Ok(0 - m - 1);
        }
        let full = half * 2;
        let neg = (full - u) as i64;
        Ok(0 - neg)
    } else {
        Ok(u as i64)
    }
}


/// The prefix of `b` before its first zero byte.
pub open spec fn before_nul(b: Seq<u8>) -> Seq<u8>
    decreases b.len(),
{
    if b.len() == 0 {
        b
    } else if b[0] == 0 {
        Seq::empty()
    } else {
        seq![b[0]] + before_nul(b.drop_first())
    }
}

/// Reads a UTF-8 string of `size` bytes; it ends at the first zero byte,
/// and invalid sequences are replaced.
pub fn read_string(io: &mut IoContext, size: u64) -> (r: TaoResult<String>)
    ensures
        IoContext::read_post(*old(io), *final(io), size as usize as nat, r is Ok),
        r is Err ==> r == Err::<String, TaoError>(TaoError::Eof),
        r matches Ok(s) ==> s@ == utf8_lossy_chars(
            before_nul(bytes_at(old(io).contents(), old(io).cursor(), size as usize as nat)),
        ),
{
    let data = io.read_bytes(size as usize)?;
    let mut end: usize = 0;
    while end < data.len() && data[end] != 0
        invariant
            end <= data@.len(),
            forall|k: int| 0 <= k < end ==> data@[k] != 0,
        decreases data.len() - end,
    {
        end = end + 1;
    }
    proof {
        lemma_before_nul(data@, end as int);
    }
    Ok(utf8_lossy(&data.as_slice()[0..end]))
}

proof fn lemma_before_nul(b: Seq<u8>, end: int)
    requires
        0 <= end <= b.len(),
        forall|k: int| 0 <= k < end ==> b[k] != 0,
        end == b.len() || b[end] == 0,
    ensures
        before_nul(b) == b.subrange(0, end),
    decreases b.len(),
{
    if b.len() == 0 {
        assert(b.subrange(0, end) =~= b);
    } else if end == 0 {
        assert(b.subrange(0, 0) =~= Seq::<u8>::empty());
    } else {
        lemma_before_nul(b.drop_first(), end - 1);
        assert(seq![b[0]] + b.drop_first().subrange(0, end - 1) =~= b.subrange(0, end));
    }
}

/// Reads `size` bytes of binary data.
pub fn read_binary(io: &mut IoContext, size: u64) -> (r: TaoResult<Vec<u8>>)
    ensures
        IoContext::read_post(*old(io), *final(io), size as usize as nat, r is Ok),
        r is Err ==> r == Err::<Vec<u8>, TaoError>(TaoError::Eof),
        r matches Ok(v) ==> v@ == bytes_at(old(io).contents(), old(io).cursor(), size as usize as nat),
{
    io.read_bytes(size as usize)
}

/// EBML header element.
pub const EBML_HEADER: u32 = 0x1A45_DFA3;
/// Document type in the EBML header.
pub const EBML_DOC_TYPE: u32 = 0x4282;
/// Segment: the top-level element holding everything else.
pub const SEGMENT: u32 = 0x1853_8067;
/// Segment information.
pub const SEGMENT_INFO: u32 = 0x1549_A966;
/// Timestamp scale, in nanoseconds per tick.
pub const INFO_TIMESCALE: u32 = 0x002A_D7B1;
/// Duration, in ticks (a float).
pub const INFO_DURATION: u32 = 0x4489;
/// Title.
pub const INFO_TITLE: u32 = 0x7BA9;
/// Muxing application.
pub const INFO_MUXING_APP: u32 = 0x4D80;
/// Writing application.
pub const INFO_WRITING_APP: u32 = 0x5741;
/// Track list.
pub const TRACKS: u32 = 0x1654_AE6B;
/// One track.
pub const TRACK_ENTRY: u32 = 0xAE;
/// Track number.
pub const TRACK_NUMBER: u32 = 0xD7;
/// Track UID.
pub const TRACK_UID: u32 = 0x73C5;
/// Track type.
pub const TRACK_TYPE: u32 = 0x83;
/// Codec ID string.
pub const TRACK_CODEC_ID: u32 = 0x86;
/// Codec private data.
pub const TRACK_CODEC_PRIVATE: u32 = 0x63A2;
/// Default frame duration, in nanoseconds.
pub const TRACK_DEFAULT_DURATION: u32 = 0x0023_E383;
/// Video settings.
pub const VIDEO_SETTINGS: u32 = 0xE0;
/// Pixel width.
pub const VIDEO_PIXEL_WIDTH: u32 = 0xB0;
/// Pixel height.
pub const VIDEO_PIXEL_HEIGHT: u32 = 0xBA;
/// Display width.
pub const VIDEO_DISPLAY_WIDTH: u32 = 0x54B0;
/// Display height.
pub const VIDEO_DISPLAY_HEIGHT: u32 = 0x54BA;
/// Audio settings.
pub const AUDIO_SETTINGS: u32 = 0xE1;
/// Sampling frequency (a float).
pub const AUDIO_SAMPLING_FREQ: u32 = 0xB5;
/// Channel count.
pub const AUDIO_CHANNELS: u32 = 0x9F;
/// Bit depth.
pub const AUDIO_BIT_DEPTH: u32 = 0x6264;
/// Cluster of blocks.
pub const CLUSTER: u32 = 0x1F43_B675;
/// Cluster timestamp.
pub const CLUSTER_TIMESTAMP: u32 = 0xE7;
/// Simple block.
pub const SIMPLE_BLOCK: u32 = 0xA3;
/// Block group.
pub const BLOCK_GROUP: u32 = 0xA0;
/// Block inside a block group.
pub const BLOCK: u32 = 0xA1;
/// Cue points (index).
pub const CUES: u32 = 0x1C53_BB6B;
/// Seek head.
pub const SEEK_HEAD: u32 = 0x114D_9B74;
/// Tags.
pub const TAGS: u32 = 0x1254_C367;

} // verus!
