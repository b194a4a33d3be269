//! MP4 sample tables (`stbl`): the codec description (`stsd`), decoding
//! times (`stts`), sample-to-chunk runs (`stsc`), sample sizes (`stsz`),
//! chunk offsets (`stco`/`co64`), sync samples (`stss`) and composition
//! offsets (`ctts`); and, from them, each sample's size, file offset,
//! presentation time and keyframe flag.
//!
//! The parsers read the box content at offset `p` of the file's bytes.
//! Each table box is a version byte, three flag bytes, an entry count and
//! the entries; entries are appended as they are read, so a box cut short
//! keeps the entries read before the end and fails with `Eof`.

use vstd::prelude::*;
use crate::error::{TaoError, TaoResult};
use crate::endian::{be16, be32, u16_from_be, u32_from_be};
use crate::media::{CodecId, MediaType, codec_media_type};
use crate::demuxers::mp4::boxes::be32_at;

verus! {

/// A run of samples with the same duration.
#[derive(Clone, Copy, PartialEq, Eq, Structural)]
pub struct SttsEntry {
    /// Number of samples.
    pub count: u32,
    /// Duration of each, in the track's time scale.
    pub delta: u32,
}

/// A run of chunks with the same number of samples.
#[derive(Clone, Copy, PartialEq, Eq, Structural)]
pub struct StscEntry {
    /// First chunk of the run, from 1.
    pub first_chunk: u32,
    /// Samples in each chunk.
    pub samples_per_chunk: u32,
    /// Sample description index.
    pub sample_desc_idx: u32,
}

/// A run of samples with the same composition offset.
#[derive(Clone, Copy, PartialEq, Eq, Structural)]
pub struct CttsEntry {
    /// Number of samples.
    pub count: u32,
    /// Composition offset.
    pub offset: i32,
}

/// The content of a sample table as plain values.
pub struct TableModel {
    pub codec_id: CodecId,
    pub extra: Seq<u8>,
    pub width: u32,
    pub height: u32,
    pub sample_rate: u32,
    pub channel_count: u32,
    pub stts: Seq<SttsEntry>,
    pub stsc: Seq<StscEntry>,
    pub default_size: u32,
    pub sizes: Seq<u32>,
    pub total: u32,
    pub chunks: Seq<u64>,
    pub sync: Seq<u32>,
    pub has_stss: bool,
    pub ctts: Seq<CttsEntry>,
}

/// A track's sample table.
pub struct SampleTable {
    /// Codec, from the first sample description.
    pub codec_id: CodecId,
    /// Codec private data (`avcC`, `hvcC`, `esds` ...).
    pub extra_data: Vec<u8>,
    /// Video width.
    pub width: u32,
    /// Video height.
    pub height: u32,
    /// Audio sample rate.
    pub sample_rate: u32,
    /// Audio channel count.
    pub channel_count: u32,
    stts_entries: Vec<SttsEntry>,
    stsc_entries: Vec<StscEntry>,
    default_sample_size: u32,
    sample_sizes: Vec<u32>,
    total_samples: u32,
    chunk_offsets: Vec<u64>,
    sync_samples: Vec<u32>,
    has_stss: bool,
    ctts_entries: Vec<CttsEntry>,
}

impl View for SampleTable {
    type V = TableModel;

    closed spec fn view(&self) -> TableModel {
        TableModel {
            codec_id: self.codec_id,
            extra: self.extra_data@,
            width: self.width,
            height: self.height,
            sample_rate: self.sample_rate,
            channel_count: self.channel_count,
            stts: self.stts_entries@,
            stsc: self.stsc_entries@,
            default_size: self.default_sample_size,
            sizes: self.sample_sizes@,
            total: self.total_samples,
            chunks: self.chunk_offsets@,
            sync: self.sync_samples@,
            has_stss: self.has_stss,
            ctts: self.ctts_entries@,
        }
    }
}

/// An empty table.
pub open spec fn empty_table() -> TableModel {
    TableModel {
        codec_id: CodecId::Unknown,
        extra: seq![],
        width: 0,
        height: 0,
        sample_rate: 0,
        channel_count: 0,
        stts: seq![],
        stsc: seq![],
        default_size: 0,
        sizes: seq![],
        total: 0,
        chunks: seq![],
        sync: seq![],
        has_stss: false,
        ctts: seq![],
    }
}

/// Number of whole records of `w` bytes, at most `n`, that data of `len`
/// bytes holds from `q` on.
pub open spec fn records(len: int, q: int, w: int, n: int) -> nat {
    let avail = if q > len { 0 } else { (len - q) / w };
    (if avail < n { avail } else { n }) as nat
}

/// The `stts` entries at `q`.
pub open spec fn stts_at(d: Seq<u8>, q: int, k: nat) -> Seq<SttsEntry> {
    Seq::new(k, |j: int| SttsEntry { count: be32_at(d, q + 8 * j) as u32, delta: be32_at(d, q + 8 * j + 4) as u32 })
}

/// The `stsc` entries at `q`.
pub open spec fn stsc_at(d: Seq<u8>, q: int, k: nat) -> Seq<StscEntry> {
    Seq::new(
        k,
        |j: int|
            StscEntry {
                first_chunk: be32_at(d, q + 12 * j) as u32,
                samples_per_chunk: be32_at(d, q + 12 * j + 4) as u32,
                sample_desc_idx: be32_at(d, q + 12 * j + 8) as u32,
            },
    )
}

/// The `ctts` entries at `q` (the offset is the 32 bits as signed, for
/// either version).
pub open spec fn ctts_at(d: Seq<u8>, q: int, k: nat) -> Seq<CttsEntry> {
    Seq::new(k, |j: int| CttsEntry { count: be32_at(d, q + 8 * j) as u32, offset: be32_at(d, q + 8 * j + 4) as i32 })
}

/// `k` 32-bit values at `q`.
pub open spec fn u32s_at(d: Seq<u8>, q: int, k: nat) -> Seq<u32> {
    Seq::new(k, |j: int| be32_at(d, q + 4 * j) as u32)
}

/// `k` chunk offsets at `q`, 8 bytes each when `wide`, else 4.
pub open spec fn offsets_at(d: Seq<u8>, q: int, k: nat, wide: bool) -> Seq<u64> {
    Seq::new(
        k,
        |j: int|
            if wide {
                (be32_at(d, q + 8 * j) * 0x1_0000_0000 + be32_at(d, q + 8 * j + 4)) as u64
            } else {
                be32_at(d, q + 4 * j) as u64
            },
    )
}

/// The table after an `stts` box at `p`, and whether it was whole.
pub open spec fn stts_parsed(t: TableModel, d: Seq<u8>, p: int) -> (TableModel, bool) {
    if p + 8 > d.len() {
        (t, false)
    } else {
        let n = be32_at(d, p + 4);
        let k = records(d.len() as int, p + 8, 8, n);
        (TableModel { stts: t.stts + stts_at(d, p + 8, k), ..t }, k == n)
    }
}

/// The table after an `stsc` box at `p`, and whether it was whole.
pub open spec fn stsc_parsed(t: TableModel, d: Seq<u8>, p: int) -> (TableModel, bool) {
    if p + 8 > d.len() {
        (t, false)
    } else {
        let n = be32_at(d, p + 4);
        let k = records(d.len() as int, p + 8, 12, n);
        (TableModel { stsc: t.stsc + stsc_at(d, p + 8, k), ..t }, k == n)
    }
}

/// The table after a `ctts` box at `p`, and whether it was whole.
pub open spec fn ctts_parsed(t: TableModel, d: Seq<u8>, p: int) -> (TableModel, bool) {
    if p + 8 > d.len() {
        (t, false)
    } else {
        let n = be32_at(d, p + 4);
        let k = records(d.len() as int, p + 8, 8, n);
        (TableModel { ctts: t.ctts + ctts_at(d, p + 8, k), ..t }, k == n)
    }
}

/// The table after an `stss` box at `p` (which marks the table as having
/// sync samples once its count is read), and whether it was whole.
pub open spec fn stss_parsed(t: TableModel, d: Seq<u8>, p: int) -> (TableModel, bool) {
    if p + 8 > d.len() {
        (t, false)
    } else {
        let n = be32_at(d, p + 4);
        let k = records(d.len() as int, p + 8, 4, n);
        (TableModel { has_stss: true, sync: t.sync + u32s_at(d, p + 8, k), ..t }, k == n)
    }
}

/// The table after an `stco` (4 byte) or `co64` (8 byte) box at `p`, and
/// whether it was whole.
pub open spec fn stco_parsed(t: TableModel, d: Seq<u8>, p: int, wide: bool) -> (TableModel, bool) {
    if p + 8 > d.len() {
        (t, false)
    } else {
        let n = be32_at(d, p + 4);
        let k = records(d.len() as int, p + 8, if wide { 8 } else { 4 }, n);
        (TableModel { chunks: t.chunks + offsets_at(d, p + 8, k, wide), ..t }, k == n)
    }
}

/// The table after an `stsz` box at `p`: the default size, the sample
/// count, then, with no default size, one size per sample; and whether it
/// was whole.
pub open spec fn stsz_parsed(t: TableModel, d: Seq<u8>, p: int) -> (TableModel, bool) {
    if p + 8 > d.len() {
        (t, false)
    } else if p + 12 > d.len() {
        (TableModel { default_size: be32_at(d, p + 4) as u32, ..t }, false)
    } else {
        let def = be32_at(d, p + 4) as u32;
        let n = be32_at(d, p + 8);
        if def == 0 {
            let k = records(d.len() as int, p + 12, 4, n);
            (TableModel { default_size: def, total: n as u32, sizes: t.sizes + u32s_at(d, p + 12, k), ..t }, k == n)
        } else {
            (TableModel { default_size: def, total: n as u32, ..t }, true)
        }
    }
}

/// Reads the 32-bit big-endian value at `q`.
fn u32_at(d: &[u8], q: usize) -> (r: u32)
    requires
        q + 4 <= d@.len(),
    ensures
        r == be32_at(d@, q as int),
{
    u32_from_be(d[q], d[q + 1], d[q + 2], d[q + 3])
}

/// The records of width `w` readable at `q`, at most `n`, computed.
fn count_records(len: usize, q: usize, w: usize, n: u32) -> (r: usize)
    requires
        w > 0,
    ensures
        r == records(len as int, q as int, w as int, n as int),
        q + r * w <= len || r == 0,
{
    let avail = if q > len {
        0
    } else {
        (len - q) / w
    };
    proof {
        if q <= len {
            assert(((len - q) / w as int) * w <= len - q) by (nonlinear_arith)
                requires
                    w > 0,
                    len >= q,
            ;
        }
    }
    let r = if avail < n as usize {
        avail
    } else {
        n as usize
    };
    proof {
        if q <= len && r > 0 {
            assert(r * w <= avail * w) by (nonlinear_arith)
                requires
                    r <= avail,
                    w > 0,
            ;
        }
    }
    r
}

impl SampleTable {
    /// The codec of the first sample description.
    pub fn codec(&self) -> (r: CodecId)
        ensures
            r == self@.codec_id,
    {
        self.codec_id
    }

    /// The codec private data.
    pub fn extra(&self) -> (r: &[u8])
        ensures
            r@ == self@.extra,
    {
        self.extra_data.as_slice()
    }

    /// Width and height of the sample entry (video).
    pub fn entry_size(&self) -> (r: (u32, u32))
        ensures
            r == (self@.width, self@.height),
    {
        (self.width, self.height)
    }

    /// Sample rate and channel count of the sample entry (audio).
    pub fn entry_audio(&self) -> (r: (u32, u32))
        ensures
            r == (self@.sample_rate, self@.channel_count),
    {
        (self.sample_rate, self.channel_count)
    }

    /// An empty table.
    pub fn new() -> (r: Self)
        ensures
            r@ == empty_table(),
    {
        SampleTable {
            codec_id: CodecId::Unknown,
            extra_data: Vec::new(),
            width: 0,
            height: 0,
            sample_rate: 0,
            channel_count: 0,
            stts_entries: Vec::new(),
            stsc_entries: Vec::new(),
            default_sample_size: 0,
            sample_sizes: Vec::new(),
            total_samples: 0,
            chunk_offsets: Vec::new(),
            sync_samples: Vec::new(),
            has_stss: false,
            ctts_entries: Vec::new(),
        }
    }

    /// Parses an `stts` box at `p`.
    pub fn parse_stts(&mut self, d: &[u8], p: usize) -> (r: TaoResult<()>)
        requires
            p <= d@.len(),
        ensures
            final(self)@ == stts_parsed(old(self)@, d@, p as int).0,
            r is Ok <==> stts_parsed(old(self)@, d@, p as int).1,
            r is Err ==> r == Err::<(), TaoError>(TaoError::Eof),
    {
        if d.len() - p < 8 {
            return Err(TaoError::Eof);
        }
        let n = u32_at(d, p + 4);
        let k = count_records(d.len(), p + 8, 8, n);
                let ghost s0 = self.stts_entries@;
        let mut j: usize = 0;
        while j < k
            invariant
                j <= k,
                d@.len() <= usize::MAX,
                p + 8 + k * 8 <= d@.len() || k == 0,
                self.stts_entries@ == s0 + stts_at(d@, p + 8, j as nat),
                self@ == (TableModel { stts: self.stts_entries@, ..old(self)@ }),
            decreases k - j,
        {
            assert(p + 8 + 8 * j + 8 <= d@.len()) by (nonlinear_arith)
                requires
                    j < k,
                    p + 8 + k * 8 <= d@.len(),
            ;
            let q = p + 8 + 8 * j;
            let e = SttsEntry { count: u32_at(d, q), delta: u32_at(d, q + 4) };
            self.stts_entries.push(e);
            j = j + 1;
            assert(self.stts_entries@ =~= s0 + stts_at(d@, p + 8, j as nat));
        }
        if k < n as usize {
            Err(TaoError::Eof)
        } else {
            Ok(())
        }
    }

    /// Parses an `stsc` box at `p`.
    pub fn parse_stsc(&mut self, d: &[u8], p: usize) -> (r: TaoResult<()>)
        requires
            p <= d@.len(),
        ensures
            final(self)@ == stsc_parsed(old(self)@, d@, p as int).0,
            r is Ok <==> stsc_parsed(old(self)@, d@, p as int).1,
            r is Err ==> r == Err::<(), TaoError>(TaoError::Eof),
    {
        if d.len() - p < 8 {
            return Err(TaoError::Eof);
        }
        let n = u32_at(d, p + 4);
        let k = count_records(d.len(), p + 8, 12, n);
        let ghost s0 = self.stsc_entries@;
        let ghost t0 = self@;
        let mut j: usize = 0;
        while j < k
            invariant
                j <= k,
                d@.len() <= usize::MAX,
                p + 8 + k * 12 <= d@.len() || k == 0,
                self.stsc_entries@ == s0 + stsc_at(d@, p + 8, j as nat),
                self@ == (TableModel { stsc: self.stsc_entries@, ..t0 }),
            decreases k - j,
        {
            assert(p + 8 + 12 * j + 12 <= d@.len()) by (nonlinear_arith)
                requires
                    j < k,
                    p + 8 + k * 12 <= d@.len(),
            ;
            let q = p + 8 + 12 * j;
            let e = StscEntry { first_chunk: u32_at(d, q), samples_per_chunk: u32_at(d, q + 4), sample_desc_idx: u32_at(d, q + 8) };
            self.stsc_entries.push(e);
            j = j + 1;
            assert(self.stsc_entries@ =~= s0 + stsc_at(d@, p + 8, j as nat));
        }
        if k < n as usize {
            Err(TaoError::Eof)
        } else {
            Ok(())
        }
    }

    /// Parses an `ctts` box at `p`.
    pub fn parse_ctts(&mut self, d: &[u8], p: usize) -> (r: TaoResult<()>)
        requires
            p <= d@.len(),
        ensures
            final(self)@ == ctts_parsed(old(self)@, d@, p as int).0,
            r is Ok <==> ctts_parsed(old(self)@, d@, p as int).1,
            r is Err ==> r == Err::<(), TaoError>(TaoError::Eof),
    {
        if d.len() - p < 8 {
            return Err(TaoError::Eof);
        }
        let n = u32_at(d, p + 4);
        let k = count_records(d.len(), p + 8, 8, n);
        let ghost s0 = self.ctts_entries@;
        let ghost t0 = self@;
        let mut j: usize = 0;
        while j < k
            invariant
                j <= k,
                d@.len() <= usize::MAX,
                p + 8 + k * 8 <= d@.len() || k == 0,
                self.ctts_entries@ == s0 + ctts_at(d@, p + 8, j as nat),
                self@ == (TableModel { ctts: self.ctts_entries@, ..t0 }),
            decreases k - j,
        {
            assert(p + 8 + 8 * j + 8 <= d@.len()) by (nonlinear_arith)
                requires
                    j < k,
                    p + 8 + k * 8 <= d@.len(),
            ;
            let q = p + 8 + 8 * j;
            let e = CttsEntry { count: u32_at(d, q), offset: u32_at(d, q + 4) as i32 };
            self.ctts_entries.push(e);
            j = j + 1;
            assert(self.ctts_entries@ =~= s0 + ctts_at(d@, p + 8, j as nat));
        }
        if k < n as usize {
            Err(TaoError::Eof)
        } else {
            Ok(())
        }
    }

    /// Parses an `stss` box at `p`.
    pub fn parse_stss(&mut self, d: &[u8], p: usize) -> (r: TaoResult<()>)
        requires
            p <= d@.len(),
        ensures
            final(self)@ == stss_parsed(old(self)@, d@, p as int).0,
            r is Ok <==> stss_parsed(old(self)@, d@, p as int).1,
            r is Err ==> r == Err::<(), TaoError>(TaoError::Eof),
    {
        if d.len() - p < 8 {
            return Err(TaoError::Eof);
        }
        let n = u32_at(d, p + 4);
        let k = count_records(d.len(), p + 8, 4, n);
        self.has_stss = true;
        let ghost s0 = self.sync_samples@;
        let ghost t0 = self@;
        let mut j: usize = 0;
        while j < k
            invariant
                j <= k,
                d@.len() <= usize::MAX,
                p + 8 + k * 4 <= d@.len() || k == 0,
                self.sync_samples@ == s0 + u32s_at(d@, p + 8, j as nat),
                self@ == (TableModel { sync: self.sync_samples@, ..t0 }),
            decreases k - j,
        {
            assert(p + 8 + 4 * j + 4 <= d@.len()) by (nonlinear_arith)
                requires
                    j < k,
                    p + 8 + k * 4 <= d@.len(),
            ;
            let q = p + 8 + 4 * j;
            let e = u32_at(d, q);
            self.sync_samples.push(e);
            j = j + 1;
            assert(self.sync_samples@ =~= s0 + u32s_at(d@, p + 8, j as nat));
        }
        if k < n as usize {
            Err(TaoError::Eof)
        } else {
            Ok(())
        }
    }

    /// Parses an `stco` box (4 byte offsets) or, when `is_64bit`, a `co64`
    /// box (8 byte offsets) at `p`.
    pub fn parse_stco(&mut self, d: &[u8], p: usize, is_64bit: bool) -> (r: TaoResult<()>)
        requires
            p <= d@.len(),
        ensures
            final(self)@ == stco_parsed(old(self)@, d@, p as int, is_64bit).0,
            r is Ok <==> stco_parsed(old(self)@, d@, p as int, is_64bit).1,
            r is Err ==> r == Err::<(), TaoError>(TaoError::Eof),
    {
        if d.len() - p < 8 {
            return Err(TaoError::Eof);
        }
        let n = u32_at(d, p + 4);
        let w: usize = if is_64bit {
            8
        } else {
            4
        };
        let k = count_records(d.len(), p + 8, w, n);
        let ghost s0 = self.chunk_offsets@;
        let ghost t0 = self@;
        let mut j: usize = 0;
        while j < k
            invariant
                j <= k,
                w == (if is_64bit { 8usize } else { 4usize }),
                d@.len() <= usize::MAX,
                p + 8 + k * w <= d@.len() || k == 0,
                self.chunk_offsets@ == s0 + offsets_at(d@, p + 8, j as nat, is_64bit),
                self@ == (TableModel { chunks: self.chunk_offsets@, ..t0 }),
            decreases k - j,
        {
            assert(p + 8 + w * j + w <= d@.len()) by (nonlinear_arith)
                requires
                    j < k,
                    p + 8 + k * w <= d@.len(),
            ;
            let q = p + 8 + w * j;
            let e: u64 = if is_64bit {
                let hi = u32_at(d, q) as u64;
                let lo = u32_at(d, q + 4) as u64;
                hi * 0x1_0000_0000 + lo
            } else {
                u32_at(d, q) as u64
            };
            self.chunk_offsets.push(e);
            j = j + 1;
            assert(self.chunk_offsets@ =~= s0 + offsets_at(d@, p + 8, j as nat, is_64bit));
        }
        if k < n as usize {
            Err(TaoError::Eof)
        } else {
            Ok(())
        }
    }

    /// Parses an `stsz` box at `p`.
    pub fn parse_stsz(&mut self, d: &[u8], p: usize) -> (r: TaoResult<()>)
        requires
            p <= d@.len(),
        ensures
            final(self)@ == stsz_parsed(old(self)@, d@, p as int).0,
            r is Ok <==> stsz_parsed(old(self)@, d@, p as int).1,
            r is Err ==> r == Err::<(), TaoError>(TaoError::Eof),
    {
        if d.len() - p < 8 {
            return Err(TaoError::Eof);
        }
        self.default_sample_size = u32_at(d, p + 4);
        if d.len() - p < 12 {
            return Err(TaoError::Eof);
        }
        let n = u32_at(d, p + 8);
        self.total_samples = n;
        if self.default_sample_size != 0 {
            return Ok(());
        }
        let k = count_records(d.len(), p + 12, 4, n);
        let ghost s0 = self.sample_sizes@;
        let ghost t0 = self@;
        let mut j: usize = 0;
        while j < k
            invariant
                j <= k,
                d@.len() <= usize::MAX,
                p + 12 + k * 4 <= d@.len() || k == 0,
                self.sample_sizes@ == s0 + u32s_at(d@, p + 12, j as nat),
                self@ == (TableModel { sizes: self.sample_sizes@, ..t0 }),
            decreases k - j,
        {
            assert(p + 12 + 4 * j + 4 <= d@.len()) by (nonlinear_arith)
                requires
                    j < k,
                    p + 12 + k * 4 <= d@.len(),
            ;
            let q = p + 12 + 4 * j;
            self.sample_sizes.push(u32_at(d, q));
            j = j + 1;
            assert(self.sample_sizes@ =~= s0 + u32s_at(d@, p + 12, j as nat));
        }
        if k < n as usize {
            Err(TaoError::Eof)
        } else {
            Ok(())
        }
    }
}

/// Whether `x` fits in an `i64`.
pub open spec fn in_i64(x: int) -> bool {
    i64::MIN <= x <= i64::MAX
}

/// Number of samples: the `stsz` count, or the number of sizes when it is
/// 0.
pub open spec fn sample_count_of(t: TableModel) -> u32 {
    if t.total > 0 {
        t.total
    } else {
        t.sizes.len() as u32
    }
}

/// Size of sample `i`: the default size, else its own size, else 0.
pub open spec fn sample_size_of(t: TableModel, i: int) -> u32 {
    if t.default_size > 0 {
        t.default_size
    } else if 0 <= i < t.sizes.len() {
        t.sizes[i]
    } else {
        0
    }
}

/// Decoding time of the sample `rem` samples into the runs from `k` on,
/// `acc` being the time of the runs before; `None` when a product or a sum
/// leaves 64 bits.
pub open spec fn stts_time(e: Seq<SttsEntry>, k: nat, rem: int, acc: int) -> Option<int>
    decreases e.len() - k,
{
    if k >= e.len() {
        Some(acc)
    } else if rem < e[k as int].count {
        let step = rem * e[k as int].delta;
        if in_i64(step) && in_i64(acc + step) {
            Some(acc + step)
        } else {
            None
        }
    } else {
        let step = e[k as int].count * e[k as int].delta;
        if in_i64(step) && in_i64(acc + step) {
            stts_time(e, k + 1, rem - e[k as int].count, acc + step)
        } else {
            None
        }
    }
}

/// Composition offset of the sample `rem` samples into the runs from `k`
/// on; 0 past the last run.
pub open spec fn ctts_offset(c: Seq<CttsEntry>, k: nat, rem: int) -> i32
    decreases c.len() - k,
{
    if k >= c.len() {
        0
    } else if rem < c[k as int].count {
        c[k as int].offset
    } else {
        ctts_offset(c, k + 1, rem - c[k as int].count)
    }
}

/// Presentation time of sample `i`: its decoding time plus, when the table
/// has composition offsets, its offset; `None` on overflow.
pub open spec fn sample_pts_of(t: TableModel, i: u32) -> Option<int> {
    match stts_time(t.stts, 0, i as int, 0) {
        None => None,
        Some(v) => if t.ctts.len() > 0 {
            let w = v + ctts_offset(t.ctts, 0, i as int);
            if in_i64(w) {
                Some(w)
            } else {
                None
            }
        } else {
            Some(v)
        },
    }
}

/// The product of two 32-bit values.
fn mul32(a: u32, b: u32) -> (r: u64)
    ensures
        r == a * b,
{
    assert(a * b <= 0xFFFF_FFFE_0000_0001) by (nonlinear_arith)
        requires
            a <= 0xFFFF_FFFFu32,
            b <= 0xFFFF_FFFFu32,
    ;
    a as u64 * b as u64
}

impl SampleTable {
    /// Number of samples.
    pub fn sample_count(&self) -> (r: u32)
        ensures
            r == sample_count_of(self@),
    {
        if self.total_samples > 0 {
            self.total_samples
        } else {
            self.sample_sizes.len() as u32
        }
    }

    /// Size of sample `sample_idx`.
    pub fn sample_size(&self, sample_idx: u32) -> (r: u32)
        ensures
            r == sample_size_of(self@, sample_idx as int),
    {
        if self.default_sample_size > 0 {
            self.default_sample_size
        } else if (sample_idx as usize) < self.sample_sizes.len() {
            self.sample_sizes[sample_idx as usize]
        } else {
            0
        }
    }

    /// Composition offset of sample `sample_idx`.
    fn cts_offset(&self, sample_idx: u32) -> (r: i32)
        ensures
            r == ctts_offset(self@.ctts, 0, sample_idx as int),
    {
        let mut remaining = sample_idx;
        let mut k: usize = 0;
        while k < self.ctts_entries.len()
            invariant
                k <= self.ctts_entries@.len(),
                ctts_offset(self@.ctts, 0, sample_idx as int) == ctts_offset(self@.ctts, k as nat, remaining as int),
            decreases self.ctts_entries.len() - k,
        {
            let e = self.ctts_entries[k];
            if remaining < e.count {
                return e.offset;
            }
            remaining = remaining - e.count;
            k = k + 1;
        }
        0
    }

    /// Presentation time of sample `sample_idx`, or `None` where the sum
    /// would leave 64 bits.
    pub fn checked_sample_pts(&self, sample_idx: u32) -> (r: Option<i64>)
        ensures
            match sample_pts_of(self@, sample_idx) {
                Some(v) => r matches Some(x) && x as int == v,
                None => r is None,
            },
    {
        let mut pts: i64 = 0;
        let mut remaining = sample_idx;
        let mut k: usize = 0;
        let mut done = false;
        while k < self.stts_entries.len() && !done
            invariant
                k <= self.stts_entries@.len(),
                pts >= 0,
                !done ==> stts_time(self@.stts, 0, sample_idx as int, 0) == stts_time(
                    self@.stts,
                    k as nat,
                    remaining as int,
                    pts as int,
                ),
                done ==> stts_time(self@.stts, 0, sample_idx as int, 0) == Some(pts as int),
            decreases self.stts_entries.len() - k, if done { 0int } else { 1int },
        {
            let e = self.stts_entries[k];
            if remaining < e.count {
                let step = mul32(remaining, e.delta);
                if step > i64::MAX as u64 || pts as u64 + step > i64::MAX as u64 {
                    return None;
                }
                pts = pts + step as i64;
                done = true;
            } else {
                let step = mul32(e.count, e.delta);
                if step > i64::MAX as u64 || pts as u64 + step > i64::MAX as u64 {
                    return None;
                }
                pts = pts + step as i64;
                remaining = remaining - e.count;
                k = k + 1;
            }
        }
        if self.ctts_entries.len() > 0 {
            let c = self.cts_offset(sample_idx);
            if c < 0 || pts as u64 + (c as u64) <= i64::MAX as u64 {
                Some(pts + c as i64)
            } else {
                None
            }
        } else {
            Some(pts)
        }
    }

    /// Presentation time of sample `sample_idx`.
    pub fn sample_pts(&self, sample_idx: u32) -> (r: i64)
        requires
            sample_pts_of(self@, sample_idx) is Some,
        ensures
            r as int == sample_pts_of(self@, sample_idx)->Some_0,
    {
        match self.checked_sample_pts(sample_idx) {
            Some(v) => v,
            None => 0,
        }
    }
}

/// The 0-based first chunk of run `k`, `None` for a first chunk of 0.
pub open spec fn run_first(t: TableModel, k: int) -> Option<int> {
    if t.stsc[k].first_chunk == 0 {
        None
    } else {
        Some(t.stsc[k].first_chunk - 1)
    }
}

/// The 0-based first chunk after run `k`: the next run's, or the number of
/// chunks (as 32 bits) after the last.
pub open spec fn run_next(t: TableModel, k: int) -> Option<int> {
    if k + 1 < t.stsc.len() {
        run_first(t, k + 1)
    } else {
        Some(t.chunks.len() as u32 as int)
    }
}

/// Chunk and place in the chunk of sample `i`, scanning the runs from `k`
/// with `count` samples before them; (0, 0) past the runs; `None` when a
/// step would leave 32 bits or go below 0.
pub open spec fn stc_from(t: TableModel, i: int, k: nat, count: int) -> Option<(u32, u32)>
    decreases t.stsc.len() - k,
{
    if k >= t.stsc.len() {
        Some((0u32, 0u32))
    } else {
        match (run_first(t, k as int), run_next(t, k as int)) {
            (Some(first), Some(next)) => {
                let spc = t.stsc[k as int].samples_per_chunk;
                if next < first || (next - first) * spc > u32::MAX || count + (next - first) * spc > u32::MAX {
                    None
                } else if i < count + (next - first) * spc {
                    Some(((first + (i - count) / (spc as int)) as u32, ((i - count) % (spc as int)) as u32))
                } else {
                    stc_from(t, i, k + 1, count + (next - first) * spc)
                }
            },
            _ => None,
        }
    }
}

/// Chunk and place in the chunk of sample `i`; (0, 0) without runs or
/// chunks.
pub open spec fn sample_chunk_of(t: TableModel, i: int) -> Option<(u32, u32)> {
    if t.stsc.len() == 0 || t.chunks.len() == 0 {
        Some((0u32, 0u32))
    } else {
        stc_from(t, i, 0, 0)
    }
}

/// First sample of chunk `c`, scanning the runs from `k` with `count`
/// samples before them; `None` on 32-bit overflow or a step below 0.
pub open spec fn cs_from(t: TableModel, c: int, k: nat, count: int) -> Option<u32>
    decreases t.stsc.len() - k,
{
    if k >= t.stsc.len() {
        Some(count as u32)
    } else {
        match (run_first(t, k as int), run_next(t, k as int)) {
            (Some(first), Some(next)) => {
                let spc = t.stsc[k as int].samples_per_chunk;
                if c < next {
                    if c < first || (c - first) * spc > u32::MAX || count + (c - first) * spc > u32::MAX {
                        None
                    } else {
                        Some((count + (c - first) * spc) as u32)
                    }
                } else if next < first || (next - first) * spc > u32::MAX || count + (next - first) * spc
                    > u32::MAX {
                    None
                } else {
                    cs_from(t, c, k + 1, count + (next - first) * spc)
                }
            },
            _ => None,
        }
    }
}

/// First sample of chunk `c`; 0 without runs.
pub open spec fn chunk_start_of(t: TableModel, c: int) -> Option<u32> {
    if t.stsc.len() == 0 {
        Some(0u32)
    } else {
        cs_from(t, c, 0, 0)
    }
}

/// Sum of the sizes of samples `a` to `b - 1`.
pub open spec fn size_sum(t: TableModel, a: int, b: int) -> int
    decreases b - a,
{
    if a >= b {
        0
    } else {
        size_sum(t, a, b - 1) + sample_size_of(t, b - 1)
    }
}

/// File offset of sample `i`: its chunk's offset (0 past the offsets)
/// plus the sizes of the samples before it in the chunk; `None` on
/// overflow.
pub open spec fn sample_offset_of(t: TableModel, i: u32) -> Option<u64> {
    match sample_chunk_of(t, i as int) {
        None => None,
        Some((chunk, _)) => {
            let co: int = if (chunk as int) < t.chunks.len() {
                t.chunks[chunk as int] as int
            } else {
                0
            };
            match chunk_start_of(t, chunk as int) {
                None => None,
                Some(st) => if co + size_sum(t, st as int, i as int) > u64::MAX {
                    None
                } else {
                    Some((co + size_sum(t, st as int, i as int)) as u64)
                },
            }
        },
    }
}

/// Whether a slice is in ascending order.
pub open spec fn ascending(s: Seq<u32>) -> bool {
    forall|a: int, b: int| 0 <= a <= b < s.len() ==> s[a] <= s[b]
}

/// What the standard binary search reports of `x` in `s` (found or not).
pub uninterp spec fn binary_search_finds(s: Seq<u32>, x: u32) -> bool;

/// `<[u32]>::binary_search`: it reports whether `x` is in `s` when `s` is
/// sorted in ascending order; on an unsorted slice its documentation leaves
/// the result unspecified, so only its name is stated.
#[verifier::external_body]
fn binary_search_u32(s: &[u32], x: u32) -> (r: bool)
    ensures
        r == binary_search_finds(s@, x),
        ascending(s@) ==> (r <==> s@.contains(x)),
{
    s.binary_search(&x).is_ok()
}

/// Whether sample `i` is a keyframe: every sample is without an `stss`,
/// else the samples it lists (from 1), as the binary search finds them.
pub open spec fn is_sync_of(t: TableModel, i: u32) -> bool {
    !t.has_stss || binary_search_finds(t.sync, (i + 1) as u32)
}

impl SampleTable {
    /// Chunk and place in the chunk of a sample.
    fn checked_sample_to_chunk(&self, sample_idx: u32) -> (r: Option<(u32, u32)>)
        ensures
            r == sample_chunk_of(self@, sample_idx as int),
    {
        if self.stsc_entries.len() == 0 || self.chunk_offsets.len() == 0 {
            return Some((0, 0));
        }
        let total_chunks = self.chunk_offsets.len() as u32;
        let mut sample_count: u32 = 0;
        let mut k: usize = 0;
        while k < self.stsc_entries.len()
            invariant
                k <= self.stsc_entries@.len(),
                total_chunks == self@.chunks.len() as u32,
                self@.stsc.len() > 0 && self@.chunks.len() > 0,
                sample_count <= sample_idx,
                sample_chunk_of(self@, sample_idx as int) == stc_from(self@, sample_idx as int, k as nat, sample_count as int),
            decreases self.stsc_entries.len() - k,
        {
            let e = self.stsc_entries[k];
            if e.first_chunk == 0 {
                return None;
            }
            let first_chunk = e.first_chunk - 1;
            let next_first = if k + 1 < self.stsc_entries.len() {
                let f = self.stsc_entries[k + 1].first_chunk;
                if f == 0 {
                    return None;
                }
                f - 1
            } else {
                total_chunks
            };
            if next_first < first_chunk {
                return None;
            }
            let chunks_in_run = next_first - first_chunk;
            let sir = mul32(chunks_in_run, e.samples_per_chunk);
            if sir > u32::MAX as u64 || sample_count as u64 + sir > u32::MAX as u64 {
                return None;
            }
            let samples_in_run = sir as u32;
            if sample_idx < sample_count + samples_in_run {
                let offset = sample_idx - sample_count;
                let chunk_in_run = offset / e.samples_per_chunk;
                let sample_in_chunk = offset % e.samples_per_chunk;
                assert(chunk_in_run < chunks_in_run) by (nonlinear_arith)
                    requires
                        offset < chunks_in_run * e.samples_per_chunk,
                        chunk_in_run == offset / e.samples_per_chunk,
                        e.samples_per_chunk > 0,
                ;
                return Some((first_chunk + chunk_in_run, sample_in_chunk));
            }
            sample_count = sample_count + samples_in_run;
            k = k + 1;
        }
        Some((0, 0))
    }

    /// First sample of a chunk.
    fn checked_chunk_start_sample(&self, chunk_idx: u32) -> (r: Option<u32>)
        ensures
            r == chunk_start_of(self@, chunk_idx as int),
    {
        if self.stsc_entries.len() == 0 {
            return Some(0);
        }
        let total_chunks = self.chunk_offsets.len() as u32;
        let mut sample_count: u32 = 0;
        let mut k: usize = 0;
        while k < self.stsc_entries.len()
            invariant
                k <= self.stsc_entries@.len(),
                total_chunks == self@.chunks.len() as u32,
                self@.stsc.len() > 0,
                chunk_start_of(self@, chunk_idx as int) == cs_from(self@, chunk_idx as int, k as nat, sample_count as int),
            decreases self.stsc_entries.len() - k,
        {
            let e = self.stsc_entries[k];
            if e.first_chunk == 0 {
                return None;
            }
            let first_chunk = e.first_chunk - 1;
            let next_first = if k + 1 < self.stsc_entries.len() {
                let f = self.stsc_entries[k + 1].first_chunk;
                if f == 0 {
                    return None;
                }
                f - 1
            } else {
                total_chunks
            };
            if chunk_idx < next_first {
                if chunk_idx < first_chunk {
                    return None;
                }
                let v = mul32(chunk_idx - first_chunk, e.samples_per_chunk);
                if v > u32::MAX as u64 || sample_count as u64 + v > u32::MAX as u64 {
                    return None;
                }
                return Some(sample_count + v as u32);
            }
            if next_first < first_chunk {
                return None;
            }
            let sir = mul32(next_first - first_chunk, e.samples_per_chunk);
            if sir > u32::MAX as u64 || sample_count as u64 + sir > u32::MAX as u64 {
                return None;
            }
            sample_count = sample_count + sir as u32;
            k = k + 1;
        }
        Some(sample_count)
    }

    /// File offset of a sample, or `None` where the arithmetic would
    /// overflow.
    pub fn checked_sample_offset(&self, sample_idx: u32) -> (r: Option<u64>)
        ensures
            r == sample_offset_of(self@, sample_idx),
    {
        let (chunk_idx, _) = match self.checked_sample_to_chunk(sample_idx) {
            Some(v) => v,
            None => return None,
        };
        let chunk_offset: u64 = if (chunk_idx as usize) < self.chunk_offsets.len() {
            self.chunk_offsets[chunk_idx as usize]
        } else {
            0
        };
        let start = match self.checked_chunk_start_sample(chunk_idx) {
            Some(v) => v,
            None => return None,
        };
        let mut byte_offset: u64 = 0;
        let mut i = start;
        while i < sample_idx
            invariant
                start <= i <= sample_idx || (i == start && start >= sample_idx),
                byte_offset == size_sum(self@, start as int, i as int),
                sample_chunk_of(self@, sample_idx as int) matches Some((c, _)) && c == chunk_idx,
                chunk_start_of(self@, chunk_idx as int) == Some(start),
                chunk_offset as int == (if (chunk_idx as int) < self@.chunks.len() {
                    self@.chunks[chunk_idx as int] as int
                } else {
                    0
                }),
            decreases sample_idx - i,
        {
            let sz = self.sample_size(i) as u64;
            if byte_offset > u64::MAX - sz {
                proof {
                    assert(size_sum(self@, start as int, i + 1) == byte_offset + sz);
                    lemma_size_sum_mono(self@, start as int, (i + 1) as int, sample_idx as int);
                }
                return None;
            }
            byte_offset = byte_offset + sz;
            i = i + 1;
        }
        proof {
            if start >= sample_idx {
                assert(size_sum(self@, start as int, sample_idx as int) == 0);
            }
        }
        if chunk_offset > u64::MAX - byte_offset {
            return None;
        }
        Some(chunk_offset + byte_offset)
    }

    /// The chunk a sample lies in (from 0) and its place in the chunk.
    pub fn sample_to_chunk(&self, sample_idx: u32) -> (r: (u32, u32))
        requires
            sample_chunk_of(self@, sample_idx as int) is Some,
        ensures
            r == sample_chunk_of(self@, sample_idx as int)->Some_0,
    {
        match self.checked_sample_to_chunk(sample_idx) {
            Some(v) => v,
            None => (0, 0),
        }
    }

    /// File offset of a sample.
    pub fn sample_offset(&self, sample_idx: u32) -> (r: u64)
        requires
            sample_offset_of(self@, sample_idx) is Some,
        ensures
            r == sample_offset_of(self@, sample_idx)->Some_0,
    {
        match self.checked_sample_offset(sample_idx) {
            Some(v) => v,
            None => 0,
        }
    }

    /// Whether a sample is a keyframe.
    pub fn is_sync_sample(&self, sample_idx: u32) -> (r: bool)
        requires
            sample_idx < u32::MAX,
        ensures
            r == is_sync_of(self@, sample_idx),
            self@.has_stss && ascending(self@.sync) ==> (r <==> self@.sync.contains((sample_idx + 1) as u32)),
    {
        if !self.has_stss {
            return true;
        }
        binary_search_u32(self.sync_samples.as_slice(), sample_idx + 1)
    }
}

/// Sums of sizes grow with the range.
proof fn lemma_size_sum_mono(t: TableModel, a: int, b: int, c: int)
    requires
        a <= b <= c,
    ensures
        size_sum(t, a, b) <= size_sum(t, a, c),
    decreases c - b,
{
    if b < c {
        lemma_size_sum_mono(t, a, b, c - 1);
    }
}

/// The codec of a sample entry's FourCC (big-endian value `v`): `avc1`,
/// `avc3`, `h264`, `hvc1`, `hev1`, `vp08`, `vp09`, `av01`, `mp4v`, `mjpa`,
/// `mjpb`, `mp4a`, `Opus`, `fLaC`, `alac`, `ac-3`, `ec-3`, `.mp3`.
pub open spec fn fourcc_codec(v: int) -> CodecId {
    if v == 0x61766331 {
        CodecId::H264
    } else if v == 0x61766333 {
        CodecId::H264
    } else if v == 0x68323634 {
        CodecId::H264
    } else if v == 0x68766331 {
        CodecId::H265
    } else if v == 0x68657631 {
        CodecId::H265
    } else if v == 0x76703038 {
        CodecId::Vp8
    } else if v == 0x76703039 {
        CodecId::Vp9
    } else if v == 0x61763031 {
        CodecId::Av1
    } else if v == 0x6D703476 {
        CodecId::Mpeg4
    } else if v == 0x6D6A7061 {
        CodecId::Mjpeg
    } else if v == 0x6D6A7062 {
        CodecId::Mjpeg
    } else if v == 0x6D703461 {
        CodecId::Aac
    } else if v == 0x4F707573 {
        CodecId::Opus
    } else if v == 0x664C6143 {
        CodecId::Flac
    } else if v == 0x616C6163 {
        CodecId::Alac
    } else if v == 0x61632D33 {
        CodecId::Ac3
    } else if v == 0x65632D33 {
        CodecId::Eac3
    } else if v == 0x2E6D7033 {
        CodecId::Mp3
    } else {
        CodecId::Unknown
    }
}

/// The codec of a sample entry's FourCC.
pub fn fourcc_to_codec_id(fourcc: &[u8; 4]) -> (r: CodecId)
    ensures
        r == fourcc_codec(be32(fourcc@[0], fourcc@[1], fourcc@[2], fourcc@[3])),
{
    let v = u32_from_be(fourcc[0], fourcc[1], fourcc[2], fourcc[3]);
    match v {
        0x61766331 | 0x61766333 | 0x68323634 => CodecId::H264,
        0x68766331 | 0x68657631 => CodecId::H265,
        0x76703038 => CodecId::Vp8,
        0x76703039 => CodecId::Vp9,
        0x61763031 => CodecId::Av1,
        0x6D703476 => CodecId::Mpeg4,
        0x6D6A7061 | 0x6D6A7062 => CodecId::Mjpeg,
        0x6D703461 => CodecId::Aac,
        0x4F707573 => CodecId::Opus,
        0x664C6143 => CodecId::Flac,
        0x616C6163 => CodecId::Alac,
        0x61632D33 => CodecId::Ac3,
        0x65632D33 => CodecId::Eac3,
        0x2E6D7033 => CodecId::Mp3,
        _ => CodecId::Unknown,
    }
}

/// The length of an MPEG-4 descriptor: up to four bytes from `q`, seven
/// bits each, the high bit marking that another follows; the length and
/// where the payload starts, `None` when the data ends first.
pub open spec fn desc_len(s: Seq<u8>, q: int, i: nat, acc: nat) -> Option<(nat, int)>
    decreases 4 - i,
{
    if i >= 4 {
        Some((acc, q))
    } else if q < 0 || q >= s.len() {
        None
    } else {
        let b = s[q];
        let acc2 = acc * 128 + (b % 128) as nat;
        if b < 128 {
            Some((acc2, q + 1))
        } else {
            desc_len(s, q + 1, i + 1, acc2)
        }
    }
}

pub proof fn lemma_desc_len(s: Seq<u8>, q: int, i: nat, acc: nat)
    requires
        i < 4,
    ensures
        desc_len(s, q, i, acc) matches Some((l, q2)) ==> q < q2 <= s.len() && q2 <= q + 4 - i,
    decreases 4 - i,
{
    if q >= 0 && q < s.len() && s[q] >= 128 {
        if i + 1 < 4 {
            lemma_desc_len(s, q + 1, i + 1, acc * 128 + (s[q] % 128) as nat);
        } else {
            assert(desc_len(s, q + 1, i + 1, acc * 128 + (s[q] % 128) as nat) == Some(
                (acc * 128 + (s[q] % 128) as nat, q + 1),
            ));
        }
    }
}

/// The fixed header of a descriptor's payload before its children: an
/// ES descriptor (tag 3) has 3 bytes, 2 more with a dependency, a URL
/// (length byte and text) with the URL flag, 2 more with an OCR stream; a
/// decoder configuration (tag 4) has 13; others none.
pub open spec fn desc_header_size(tag: u8, pl: Seq<u8>) -> int {
    if tag == 3 {
        if pl.len() < 3 {
            pl.len() as int
        } else {
            let f = pl[2];
            let s1: int = if f & 0x80 != 0 { 5 } else { 3 };
            let s2: int = if f & 0x40 != 0 {
                if s1 < pl.len() { s1 + 1 + pl[s1] } else { s1 }
            } else {
                s1
            };
            s2 + if f & 0x20 != 0 { 2int } else { 0int }
        }
    } else if tag == 4 {
        13
    } else {
        0
    }
}

/// The payload of the first descriptor with tag `target` among the
/// descriptors of `s` from `pos` on and, depth first, among their
/// children.
pub open spec fn desc_search(s: Seq<u8>, pos: int, target: u8) -> Option<Seq<u8>>
    decreases s.len(), s.len() - pos,
{
    if pos < 0 || pos >= s.len() {
        None
    } else {
        match desc_len(s, pos + 1, 0, 0) {
            None => None,
            Some((len, q)) => {
                proof {
                    lemma_desc_len(s, pos + 1, 0, 0);
                }
                let de = if q + len < s.len() { q + len } else { s.len() as int };
                if s[pos] == target {
                    Some(s.subrange(q, de))
                } else {
                    let h = q + desc_header_size(s[pos], s.subrange(q, de));
                    let cs = if h < de { h } else { de };
                    let child = if cs < de { desc_search(s.subrange(cs, de), 0, target) } else { None };
                    if child is Some {
                        child
                    } else {
                        desc_search(s, de, target)
                    }
                }
            },
        }
    }
}

/// The AudioSpecificConfig in an `esds` box: the payload of the first
/// descriptor with tag 5 after the version and flags.
pub open spec fn decoder_specific_info(e: Seq<u8>) -> Option<Seq<u8>> {
    if e.len() < 4 {
        None
    } else {
        desc_search(e.subrange(4, e.len() as int), 0, 5)
    }
}

/// Size of a descriptor's fixed header, computed.
fn descriptor_header_size(tag: u8, d: &[u8], lo: usize, hi: usize) -> (r: usize)
    requires
        lo <= hi <= d@.len(),
    ensures
        r == desc_header_size(tag, d@.subrange(lo as int, hi as int)),
{
    let n = hi - lo;
    if tag == 3 {
        if n < 3 {
            return n;
        }
        let f = d[lo + 2];
        let mut skip: usize = 3;
        if f & 0x80 != 0 {
            skip = skip + 2;
        }
        if f & 0x40 != 0 {
            if skip < n {
                skip = skip + 1 + d[lo + skip] as usize;
            }
        }
        if f & 0x20 != 0 {
            skip = skip + 2;
        }
        skip
    } else if tag == 4 {
        13
    } else {
        0
    }
}

/// Searches the descriptors of `d[lo..hi]`, and their children, for the
/// first with tag `target`.
fn search_descriptor(d: &[u8], lo: usize, hi: usize, target: u8) -> (r: Option<Vec<u8>>)
    requires
        lo <= hi <= d@.len(),
        d@.len() < 0x1_0000_0000_0000,
        0x40_0000_0000_0000 <= usize::MAX,
    ensures
        match desc_search(d@.subrange(lo as int, hi as int), 0, target) {
            Some(v) => r matches Some(x) && x@ == v,
            None => r is None,
        },
    decreases hi - lo,
{
    let ghost s = d@.subrange(lo as int, hi as int);
    let mut pos: usize = 0;
    let n = hi - lo;
    while pos < n
        invariant
            lo <= hi <= d@.len(),
            n == hi - lo,
            s == d@.subrange(lo as int, hi as int),
            pos <= n,
            d@.len() < 0x1_0000_0000_0000,
            0x40_0000_0000_0000 <= usize::MAX,
            desc_search(s, 0, target) == desc_search(s, pos as int, target),
        decreases n - pos,
    {
        let tag = d[lo + pos];
        let mut q = pos + 1;
        let mut len: usize = 0;
        let mut i: usize = 0;
        let mut ended = false;
        proof {
            lemma_desc_len(s, pos + 1, 0, 0);
        }
        while i < 4 && !ended
            invariant
                lo <= hi <= d@.len(),
                n == hi - lo,
                s == d@.subrange(lo as int, hi as int),
                pos < n,
                i <= 4,
                q <= pos + 5,
                d@.len() < 0x1_0000_0000_0000,
                0x40_0000_0000_0000 <= usize::MAX,
                desc_search(s, 0, target) == desc_search(s, pos as int, target),
                len < 0x1000_0000,
                !ended ==> (i == 0 ==> len == 0) && (i == 1 ==> len < 128) && (i == 2 ==> len < 16384) && (i
                    == 3 ==> len < 2097152),
                !ended ==> q == pos + 1 + i,
                !ended ==> desc_len(s, pos + 1, 0, 0) == desc_len(s, q as int, i as nat, len as nat),
                ended ==> desc_len(s, pos + 1, 0, 0) == Some((len as nat, q as int)),
            decreases 4 - i, if ended { 0int } else { 1int },
        {
            if q >= n {
                return None;
            }
            let b = d[lo + q];
            assert(b & 0x7F == b % 128 && ((b & 0x80 == 0) == (b < 128))) by (bit_vector);
            len = len * 128 + (b & 0x7F) as usize;
            q = q + 1;
            if b & 0x80 == 0 {
                ended = true;
            } else {
                i = i + 1;
                if i == 4 {
                    ended = true;
                }
            }
        }
        let de = if q + len < n {
            q + len
        } else {
            n
        };
        if tag == target {
            let mut out: Vec<u8> = Vec::new();
            let mut j = lo + q;
            let stop = lo + de;
            while j < stop
                invariant
                    lo + q <= j <= stop,
                    stop == lo + de,
                    stop <= d@.len(),
                    out@ == d@.subrange((lo + q) as int, j as int),
                decreases stop - j,
            {
                out.push(d[j]);
                j = j + 1;
                assert(out@ =~= d@.subrange((lo + q) as int, j as int));
            }
            assert(out@ =~= s.subrange(q as int, de as int));
            return Some(out);
        }
        let h = q + descriptor_header_size(tag, d, lo + q, lo + de);
        assert(d@.subrange((lo + q) as int, (lo + de) as int) =~= s.subrange(q as int, de as int));
        let cs = if h < de {
            h
        } else {
            de
        };
        if cs < de {
            let child = search_descriptor(d, lo + cs, lo + de, target);
            assert(d@.subrange((lo + cs) as int, (lo + de) as int) =~= s.subrange(cs as int, de as int));
            if child.is_some() {
                return child;
            }
        }
        pos = de;
    }
    None
}

/// Whether a codec configuration box type (big-endian FourCC value) is
/// `avcC`, `hvcC`, `av1C`, `vpcC` or `dOps`, whose whole content is the
/// codec private data.
pub open spec fn is_config_box(tag: int) -> bool {
    tag == 0x6176_6343 || tag == 0x6876_6343 || tag == 0x6176_3143 || tag == 0x7670_6343 || tag == 0x644F_7073
}

/// The table after the codec configuration boxes of a sample entry, from
/// `pos` up to `end`: an `esds` box gives its AudioSpecificConfig (or its
/// whole content when it has none), the boxes of `is_config_box` their
/// content; a box smaller than its header ends the walk. The flag is false
/// when the data ends inside a box header or inside a content read.
pub open spec fn config_walk(t: TableModel, d: Seq<u8>, pos: int, end: int) -> (TableModel, bool)
    decreases (if 0 <= pos <= d.len() { d.len() - pos + 1 } else { 0 }),
{
    if pos + 8 > end {
        (t, true)
    } else if pos < 0 || pos + 8 > d.len() {
        (t, false)
    } else {
        let size = be32_at(d, pos);
        let tag = be32_at(d, pos + 4);
        if size < 8 {
            (t, true)
        } else {
            let cs = size - 8;
            let esds = tag == 0x6573_6473;
            if (esds || is_config_box(tag)) && pos + 8 + cs > d.len() {
                (t, false)
            } else {
                let t2 = if esds {
                    let data = d.subrange(pos + 8, pos + 8 + cs);
                    TableModel {
                        extra: match decoder_specific_info(data) {
                            Some(x) => x,
                            None => data,
                        },
                        ..t
                    }
                } else if is_config_box(tag) {
                    TableModel { extra: d.subrange(pos + 8, pos + 8 + cs), ..t }
                } else {
                    t
                };
                if pos + size > d.len() {
                    (t2, pos + size + 8 > end)
                } else {
                    config_walk(t2, d, pos + size, end)
                }
            }
        }
    }
}

/// The table after an `stsd` box at `p`: with at least one entry, the
/// codec of the first entry's FourCC, then for video its width and height
/// (16 bits each, at 40 and 42 bytes in), for audio its channel count (16
/// bits at 32) and the integer part of its 16.16 sample rate (at 40), then
/// its codec configuration boxes, up to the entry's end. Fields are set as
/// they are read; the flag is false when the data ends first.
pub open spec fn stsd_parsed(t: TableModel, d: Seq<u8>, p: int) -> (TableModel, bool) {
    let len = d.len();
    if p + 8 > len {
        (t, false)
    } else if be32_at(d, p + 4) == 0 {
        (t, true)
    } else if p + 16 > len {
        (t, false)
    } else {
        let entry_end = p + 8 + be32_at(d, p + 8);
        let t1 = TableModel { codec_id: fourcc_codec(be32_at(d, p + 12)), ..t };
        if p + 24 > len {
            (t1, false)
        } else {
            match codec_media_type(t1.codec_id) {
                MediaType::Video => {
                    let t2 = TableModel {
                        width: if p + 42 <= len { be16(d[p + 40], d[p + 41]) as u32 } else { t1.width },
                        height: if p + 44 <= len { be16(d[p + 42], d[p + 43]) as u32 } else { t1.height },
                        ..t1
                    };
                    if p + 94 > len {
                        (t2, false)
                    } else {
                        config_walk(t2, d, p + 94, entry_end)
                    }
                },
                MediaType::Audio => {
                    let t2 = TableModel {
                        channel_count: if p + 34 <= len { be16(d[p + 32], d[p + 33]) as u32 } else { t1.channel_count },
                        sample_rate: if p + 44 <= len { (be32_at(d, p + 40) / 0x1_0000) as u32 } else { t1.sample_rate },
                        ..t1
                    };
                    if p + 44 > len {
                        (t2, false)
                    } else {
                        config_walk(t2, d, p + 44, entry_end)
                    }
                },
                _ => (t1, true),
            }
        }
    }
}

/// A copy of `d[a..b]`.
fn copy_range(d: &[u8], a: usize, b: usize) -> (r: Vec<u8>)
    requires
        a <= b <= d@.len(),
    ensures
        r@ == d@.subrange(a as int, b as int),
{
    let mut out: Vec<u8> = Vec::new();
    let mut j = a;
    while j < b
        invariant
            a <= j <= b <= d@.len(),
            out@ == d@.subrange(a as int, j as int),
        decreases b - j,
    {
        out.push(d[j]);
        j = j + 1;
        assert(out@ =~= d@.subrange(a as int, j as int));
    }
    out
}

impl SampleTable {
    /// Reads the codec configuration boxes of a sample entry.
    fn parse_codec_config_boxes(&mut self, d: &[u8], start: usize, end: u64) -> (r: TaoResult<()>)
        requires
            start <= d@.len() < 0x1_0000_0000_0000,
            0x40_0000_0000_0000 <= usize::MAX,
        ensures
            final(self)@ == config_walk(old(self)@, d@, start as int, end as int).0,
            r is Ok <==> config_walk(old(self)@, d@, start as int, end as int).1,
            r is Err ==> r == Err::<(), TaoError>(TaoError::Eof),
    {
        let len = d.len() as u64;
        let mut pos: u64 = start as u64;
        loop
            invariant
                pos <= len < 0x1_0000_0000_0000,
                len == d@.len(),
                0x40_0000_0000_0000 <= usize::MAX,
                config_walk(old(self)@, d@, start as int, end as int) == config_walk(self@, d@, pos as int, end as int),
            decreases len - pos,
        {
            if end < 8 || pos > end - 8 {
                return Ok(());
            }
            if len - pos < 8 {
                return Err(TaoError::Eof);
            }
            let p = pos as usize;
            let size = u32_at(d, p) as u64;
            let tag = u32_at(d, p + 4);
            if size < 8 {
                return Ok(());
            }
            let cs = size - 8;
            let esds = tag == 0x6573_6473;
            let cfg = tag == 0x6176_6343 || tag == 0x6876_6343 || tag == 0x6176_3143 || tag == 0x7670_6343 || tag
                == 0x644F_7073;
            if esds || cfg {
                if cs > len - pos - 8 {
                    return Err(TaoError::Eof);
                }
                let data = copy_range(d, p + 8, p + 8 + cs as usize);
                if esds {
                    let info = if data.len() < 4 {
                        None
                    } else {
                        search_descriptor(data.as_slice(), 4, data.len(), 5)
                    };
                    self.extra_data = match info {
                        Some(x) => x,
                        None => data,
                    };
                } else {
                    self.extra_data = data;
                }
            }
            if pos + size > len {
                return if pos + size + 8 > end {
                    Ok(())
                } else {
                    Err(TaoError::Eof)
                };
            }
            pos = pos + size;
        }
    }

    /// Parses an `stsd` box at `p` (its first sample entry).
    pub fn parse_stsd(&mut self, d: &[u8], p: usize) -> (r: TaoResult<()>)
        requires
            p <= d@.len() < 0x1_0000_0000_0000,
            0x40_0000_0000_0000 <= usize::MAX,
        ensures
            final(self)@ == stsd_parsed(old(self)@, d@, p as int).0,
            r is Ok <==> stsd_parsed(old(self)@, d@, p as int).1,
            r is Err ==> r == Err::<(), TaoError>(TaoError::Eof),
    {
        let len = d.len();
        if len - p < 8 {
            return Err(TaoError::Eof);
        }
        if u32_at(d, p + 4) == 0 {
            return Ok(());
        }
        if len - p < 16 {
            return Err(TaoError::Eof);
        }
        let entry_end = (p as u64) + 8 + u32_at(d, p + 8) as u64;
        let fourcc: [u8; 4] = [d[p + 12], d[p + 13], d[p + 14], d[p + 15]];
        self.codec_id = fourcc_to_codec_id(&fourcc);
        if len - p < 24 {
            return Err(TaoError::Eof);
        }
        match self.codec_id.media_type() {
            MediaType::Video => {
                if len - p >= 42 {
                    self.width = u16_from_be(d[p + 40], d[p + 41]) as u32;
                }
                if len - p >= 44 {
                    self.height = u16_from_be(d[p + 42], d[p + 43]) as u32;
                }
                if len - p < 94 {
                    return Err(TaoError::Eof);
                }
                self.parse_codec_config_boxes(d, p + 94, entry_end)
            },
            MediaType::Audio => {
                if len - p >= 34 {
                    self.channel_count = u16_from_be(d[p + 32], d[p + 33]) as u32;
                }
                if len - p < 44 {
                    return Err(TaoError::Eof);
                }
                let v = u32_at(d, p + 40);
                assert(v >> 16u32 == v / 0x1_0000) by (bit_vector);
                self.sample_rate = v >> 16u32;
                self.parse_codec_config_boxes(d, p + 44, entry_end)
            },
            _ => Ok(()),
        }
    }
}

} // verus!
