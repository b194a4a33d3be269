//! Blocks inside Clusters: a block holds its track number (a size VINT), a
//! 16-bit signed timestamp relative to the Cluster's, a flags byte (bit 7:
//! keyframe) and the frame data. A BlockGroup holds a Block.

use vstd::prelude::*;
use crate::error::{ErrorKind, TaoResult, invalid_data};
use crate::io::{IoContext, bytes_at};
use crate::demuxers::mkv::ebml::{
    Hdr, hdr_at, vint_width, ebml_size_value, read_element_header, read_element_size, read_uint, BLOCK, CLUSTER_TIMESTAMP, SIMPLE_BLOCK, BLOCK_GROUP,
};
use crate::demuxers::mkv::segment::{ELEMENT_END_LIMIT, Step, uint_at, walkable};

verus! {

/// A block: track number, presentation time in milliseconds, keyframe flag
/// and data.
pub struct BlockView {
    pub track: u64,
    pub pts: i64,
    pub key: bool,
    pub data: Seq<u8>,
}

/// The size VINT at `c` and its width.
pub open spec fn size_vint_at(d: Seq<u8>, c: int) -> Result<(u64, nat), ErrorKind> {
    if c >= d.len() {
        Err(ErrorKind::Eof)
    } else {
        let w = vint_width(d[c]);
        if w > 8 {
            Err(ErrorKind::InvalidData)
        } else if c + w > d.len() {
            Err(ErrorKind::Eof)
        } else {
            Ok((ebml_size_value(d, c, w), w))
        }
    }
}

/// Integer division truncating toward zero.
pub open spec fn div_trunc(a: int, b: int) -> int {
    if a >= 0 {
        a / b
    } else {
        -((-a) / b)
    }
}

/// The block of `size` bytes at `c` in a Cluster whose timestamp is `cts`,
/// with `ts` ns per tick: its time is (cts + relative) × ts / 10^6 ms.
/// A block too short for its header, or whose time leaves 64 bits, is
/// invalid data.
pub open spec fn block_at(d: Seq<u8>, c: int, size: u64, cts: i64, ts: u64) -> Result<BlockView, ErrorKind> {
    if size < 4 {
        Err(ErrorKind::InvalidData)
    } else {
        match size_vint_at(d, c) {
            Err(k) => Err(k),
            Ok((tn, w)) => {
                let q = c + w;
                if q + 3 > d.len() {
                    Err(ErrorKind::Eof)
                } else if w + 3 > size {
                    Err(ErrorKind::InvalidData)
                } else {
                    let u = d[q] * 256 + d[q + 1];
                    let rel = if u >= 0x8000 { u - 0x1_0000 } else { u };
                    let n = size - (w + 3);
                    let abs = cts + rel;
                    let prod = abs * (ts as i64);
                    if n > 0 && q + 3 + n > d.len() {
                        Err(ErrorKind::Eof)
                    } else if abs < i64::MIN || abs > i64::MAX || prod < i64::MIN || prod > i64::MAX {
                        Err(ErrorKind::InvalidData)
                    } else {
                        Ok(
                            BlockView {
                                track: tn,
                                pts: div_trunc(prod, 1_000_000) as i64,
                                key: d[q + 2] >= 0x80,
                                data: bytes_at(d, (q + 3) as nat, n as nat),
                            },
                        )
                    }
                }
            },
        }
    }
}

/// A block as read.
pub struct Block {
    pub track: u64,
    pub pts: i64,
    pub key: bool,
    pub data: Vec<u8>,
}

impl View for Block {
    type V = BlockView;

    open spec fn view(&self) -> BlockView {
        BlockView { track: self.track, pts: self.pts, key: self.key, data: self.data@ }
    }
}

/// Reads a block of `size` bytes (see `block_at`); on success the cursor is
/// at the block's end.
pub fn parse_simple_block(io: &mut IoContext, size: u64, cts: i64, ts: u64) -> (r: TaoResult<Block>)
    requires
        walkable(*old(io)),
    ensures
        final(io).contents() == old(io).contents(),
        match block_at(old(io).contents(), old(io).cursor() as int, size, cts, ts) {
            Ok(b) => r matches Ok(v) && v@ == b && final(io).cursor() == old(io).cursor() + size,
            Err(k) => r is Err && r->Err_0.kind() == k,
        },
{
    if size < 4 {
        return Err(invalid_data("MKV: SimpleBlock too small"));
    }
    let (track, w) = read_element_size(io)?;
    let hi = io.read_u8()?;
    let lo = io.read_u8()?;
    let flags = io.read_u8()?;
    let consumed = w as u64 + 3;
    if consumed > size {
        return Err(invalid_data("MKV: SimpleBlock header longer than the block"));
    }
    let u = hi as i64 * 256 + lo as i64;
    let rel: i64 = if u >= 0x8000 { u - 0x1_0000 } else { u };
    let data = io.read_bytes((size - consumed) as usize)?;
    let abs = cts as i128 + rel as i128;
    if abs < i64::MIN as i128 || abs > i64::MAX as i128 {
        return Err(invalid_data("MKV: block timestamp out of range"));
    }
    let tsi = (ts as i64) as i128;
    assert(-0x8000_0000_0000_0000_0000_0000_0000_0000 < abs * tsi < 0x8000_0000_0000_0000_0000_0000_0000_0000)
        by (nonlinear_arith)
        requires
            -0x8000_0000_0000_0000 <= abs <= 0x8000_0000_0000_0000,
            -0x8000_0000_0000_0000 <= tsi <= 0x8000_0000_0000_0000,
    {
        assert(abs * tsi <= 0x8000_0000_0000_0000 * 0x8000_0000_0000_0000);
        assert(abs * tsi >= -(0x8000_0000_0000_0000 * 0x8000_0000_0000_0000));
    }
    let prod = abs * tsi;
    if prod < i64::MIN as i128 || prod > i64::MAX as i128 {
        return Err(invalid_data("MKV: block timestamp out of range"));
    }
    let pts: i64 = if prod >= 0 {
        (prod / 1_000_000) as i64
    } else {
        0 - (((0 - prod) / 1_000_000) as i64)
    };
    Ok(Block { track, pts, key: flags >= 0x80, data })
}

/// The walk over a BlockGroup's children: the last Block is the group's.
pub open spec fn group_walk(res: Option<BlockView>, cts: i64, ts: u64, d: Seq<u8>, p: int, end: int) -> (
    Option<BlockView>,
    int,
    Step,
)
    decreases ELEMENT_END_LIMIT - p,
{
    if p >= end {
        (res, p, None)
    } else {
        match hdr_at(d, p) {
            Hdr::Bad(k, q) => (res, q, Some(k)),
            Hdr::Got(id, size, c) => if id == BLOCK {
                match block_at(d, c, size, cts, ts) {
                    Err(k) => (res, c, Some(k)),
                    Ok(b) => if c <= p || c + size >= ELEMENT_END_LIMIT {
                        (res, c, Some(ErrorKind::InvalidData))
                    } else {
                        group_walk(Some(b), cts, ts, d, c + size, end)
                    },
                }
            } else if c <= p || c + size >= ELEMENT_END_LIMIT {
                (res, c, Some(ErrorKind::InvalidData))
            } else {
                group_walk(res, cts, ts, d, c + size, end)
            },
        }
    }
}

/// Reads a BlockGroup of `size` bytes: its last Block, if any.
pub fn parse_block_group(io: &mut IoContext, size: u64, cts: i64, ts: u64) -> (r: TaoResult<Option<Block>>)
    requires
        walkable(*old(io)),
        old(io).cursor() + size < ELEMENT_END_LIMIT,
    ensures
        final(io).contents() == old(io).contents(),
        ({
            let w = group_walk(None, cts, ts, old(io).contents(), old(io).cursor() as int, old(io).cursor() + size);
            match w.2 {
                None => r matches Ok(v) && (match v {
                    Some(b) => w.0 == Some(b@),
                    None => w.0 is None,
                }) && final(io).cursor() == w.1,
                Some(k) => r is Err && r->Err_0.kind() == k,
            }
        }),
{
    let ghost d = io.contents();
    let ghost p0 = io.cursor() as int;
    let end = io.tell() as u64 + size;
    let mut result: Option<Block> = None;
    while (io.tell() as u64) < end
        invariant
            io.contents() == d,
            d == old(io).contents(),
            p0 == old(io).cursor(),
            end == old(io).cursor() + size,
            walkable(*io),
            end < ELEMENT_END_LIMIT,
            group_walk(None, cts, ts, d, p0, end as int) == group_walk(
                match result {
                    Some(b) => Some(b@),
                    None => None,
                },
                cts,
                ts,
                d,
                io.cursor() as int,
                end as int,
            ),
        decreases ELEMENT_END_LIMIT - io.cursor(),
    {
        let p = io.tell() as u64;
        let (eid, esize, _) = read_element_header(io)?;
        let c = io.tell() as u64;
        if eid == BLOCK {
            let b = parse_simple_block(io, esize, cts, ts)?;
            if c <= p || esize >= ELEMENT_END_LIMIT - c {
                return Err(invalid_data("MKV: element size out of range"));
            }
            result = Some(b);
        } else {
            if c <= p || esize >= ELEMENT_END_LIMIT - c {
                return Err(invalid_data("MKV: element size out of range"));
            }
            io.skip(esize as usize)?;
        }
    }
    Ok(result)
}

/// What reading in a Cluster gives: a block, nothing more in this Cluster
/// (the reader leaves it), or an error.
pub type ClusterOut = Option<Result<BlockView, ErrorKind>>;

/// The walk over a Cluster's children from `p`, with `rem` bytes of the
/// Cluster left and its timestamp `cts`: a Timestamp element sets it, a
/// SimpleBlock or a BlockGroup's Block is the next block, and an element
/// that does not fit in what is left ends the Cluster. A header that cannot
/// be read ends the Cluster too. Gives the bytes left, the timestamp, the
/// cursor and the outcome.
pub open spec fn cluster_walk(rem: u64, cts: i64, ts: u64, d: Seq<u8>, p: int) -> (u64, i64, int, ClusterOut)
    decreases ELEMENT_END_LIMIT - p,
{
    if rem == 0 {
        (rem, cts, p, None)
    } else {
        match hdr_at(d, p) {
            Hdr::Bad(_, q) => (rem, cts, q, None),
            Hdr::Got(id, size, c) => {
                let taken = (c - p) + size;
                if taken > u64::MAX {
                    (rem, cts, c, Some(Err(ErrorKind::InvalidData)))
                } else if taken > rem {
                    (0, cts, c, None)
                } else {
                    let rem2 = (rem - taken) as u64;
                    if id == CLUSTER_TIMESTAMP {
                        match uint_at(d, c, size) {
                            Err(k) => (rem2, cts, c, Some(Err(k))),
                            Ok(v) => if c <= p || c + size >= ELEMENT_END_LIMIT {
                                (rem2, v as i64, c, Some(Err(ErrorKind::InvalidData)))
                            } else {
                                cluster_walk(rem2, v as i64, ts, d, c + size)
                            },
                        }
                    } else if id == SIMPLE_BLOCK {
                        match block_at(d, c, size, cts, ts) {
                            Err(k) => (rem2, cts, c, Some(Err(k))),
                            Ok(b) => (rem2, cts, c + size, Some(Ok(b))),
                        }
                    } else if c <= p || c + size >= ELEMENT_END_LIMIT {
                        (rem2, cts, c, Some(Err(ErrorKind::InvalidData)))
                    } else if id == BLOCK_GROUP {
                        let (res, q, s) = group_walk(None, cts, ts, d, c, c + size);
                        match s {
                            Some(k) => (rem2, cts, q, Some(Err(k))),
                            None => match res {
                                Some(b) => (rem2, cts, q, Some(Ok(b))),
                                None => (rem2, cts, q, None),
                            },
                        }
                    } else {
                        cluster_walk(rem2, cts, ts, d, c + size)
                    }
                }
            },
        }
    }
}

/// Reads in a Cluster (see `cluster_walk`) from the cursor; `rem` and
/// `cts` are the bytes left and the Cluster's timestamp, updated.
pub fn read_in_cluster(io: &mut IoContext, rem: &mut u64, cts: &mut i64, ts: u64) -> (r: TaoResult<Option<Block>>)
    requires
        walkable(*old(io)),
    ensures
        final(io).contents() == old(io).contents(),
        ({
            let w = cluster_walk(*old(rem), *old(cts), ts, old(io).contents(), old(io).cursor() as int);
            match w.3 {
                None => r matches Ok(None) && *final(rem) == w.0 && *final(cts) == w.1 && final(io).cursor() == w.2,
                Some(Ok(b)) => r matches Ok(Some(v)) && v@ == b && *final(rem) == w.0 && *final(cts) == w.1
                    && final(io).cursor() == w.2,
                Some(Err(k)) => r is Err && r->Err_0.kind() == k,
            }
        }),
{
    let ghost d = io.contents();
    let ghost w = cluster_walk(*rem, *cts, ts, d, io.cursor() as int);
    while *rem > 0
        invariant
            io.contents() == d,
            d == old(io).contents(),
            walkable(*io),
            w == cluster_walk(*old(rem), *old(cts), ts, d, old(io).cursor() as int),
            w == cluster_walk(*rem, *cts, ts, d, io.cursor() as int),
        decreases ELEMENT_END_LIMIT - io.cursor(),
    {
        let p = io.tell() as u64;
        let (eid, esize, hl) = match read_element_header(io) {
            Ok(v) => v,
            Err(_) => {
                return Ok(None);
            },
        };
        let c = io.tell() as u64;
        if esize > u64::MAX - hl as u64 {
            return Err(invalid_data("MKV: element size out of range"));
        }
        let taken = hl as u64 + esize;
        if taken > *rem {
            *rem = 0;
            return Ok(None);
        }
        *rem = *rem - taken;
        if eid == CLUSTER_TIMESTAMP {
            let v = read_uint(io, esize)?;
            *cts = v as i64;
            if c <= p {
                return Err(invalid_data("MKV: element size out of range"));
            }
        } else if eid == SIMPLE_BLOCK {
            let b = parse_simple_block(io, esize, *cts, ts)?;
            return Ok(Some(b));
        } else {
            if c <= p || esize >= ELEMENT_END_LIMIT - c {
                return Err(invalid_data("MKV: element size out of range"));
            }
            if eid == BLOCK_GROUP {
                return parse_block_group(io, esize, *cts, ts);
            }
            io.skip(esize as usize)?;
        }
    }
    Ok(None)
}

} // verus!
