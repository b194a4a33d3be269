//! The walk over an MP4 file's boxes: top-level boxes (`ftyp`, `moov`,
//! `mdat`), the `moov` children (`mvhd`, `trak`) and, inside a `trak`, the
//! track header, media header, handler and sample table boxes, descending
//! into `mdia`, `minf` and `stbl`.
//!
//! Each box is read at its offset in the file's bytes; after it the walk
//! goes on at the box's end. A box whose header cannot be read ends the
//! walk at its level. A box size smaller than its header, or a box end
//! past 64 bits, is a malformed file the walk does not accept (`Fault`).

use vstd::prelude::*;
use crate::error::{ErrorKind, TaoError, TaoResult};
use crate::endian::{be32, u32_from_be};
use crate::demuxers::mp4::boxes::{be32_at, box_header_readable, box_header_sizes, ftyp_brand_count};
use crate::media::{
    AudioStreamParams, ChannelLayout, CodecId, MediaType, PixelFormat, Rational, SampleFormat, Stream, StreamParams,
    VideoStreamParams,
};
use crate::endian::copy_bytes;
use crate::demuxers::mp4::sample_table::{
    SampleTable, TableModel, empty_table, sample_count_of, stsd_parsed, stts_parsed, stsc_parsed, stsz_parsed, stco_parsed,
    stss_parsed, ctts_parsed,
};

verus! {

/// How a walk ends.
#[derive(PartialEq, Eq, Structural)]
pub enum Flow {
    /// Went on to its end.
    Go,
    /// Failed with an error of this kind.
    Fail(ErrorKind),
    /// Met a malformed box size.
    Fault,
}

/// What a `trak` gives: its header fields, media header, handler type (the
/// FourCC as a big-endian value, 0 without `hdlr`) and sample table.
pub struct TrackModel {
    pub track_id: u32,
    pub width: u32,
    pub height: u32,
    pub timescale: u32,
    pub duration: u64,
    pub handler: u32,
    pub table: TableModel,
}

/// A track before its boxes are read.
pub open spec fn empty_track() -> TrackModel {
    TrackModel { track_id: 0, width: 0, height: 0, timescale: 0, duration: 0, handler: 0, table: empty_table() }
}

/// The FourCC values of the boxes the walk reads.
pub open spec fn fourcc(a: u8, b: u8, c: u8, e: u8) -> int {
    be32(a, b, c, e)
}

/// Track id, width and height of a `tkhd` at `p` (version 0 or 1; the
/// 16.16 width and height keep their integer part); `None` when the data
/// ends first.
pub open spec fn tkhd_fields(d: Seq<u8>, p: int) -> Option<(u32, u32, u32)> {
    if p + 1 > d.len() {
        None
    } else if d[p] == 0 {
        if p + 84 > d.len() {
            None
        } else {
            Some((be32_at(d, p + 12) as u32, (be32_at(d, p + 76) / 0x1_0000) as u32, (be32_at(d, p + 80)
                / 0x1_0000) as u32))
        }
    } else if p + 96 > d.len() {
        None
    } else {
        Some((be32_at(d, p + 20) as u32, (be32_at(d, p + 88) / 0x1_0000) as u32, (be32_at(d, p + 92)
            / 0x1_0000) as u32))
    }
}

/// Time scale and duration of an `mdhd` or `mvhd` at `p` (version 0: 32
/// bits each at 12 and 16; else 32-bit scale at 20 and 64-bit duration at
/// 24); `None` when the data ends first.
pub open spec fn header_times(d: Seq<u8>, p: int) -> Option<(u32, u64)> {
    if p + 1 > d.len() {
        None
    } else if d[p] == 0 {
        if p + 20 > d.len() {
            None
        } else {
            Some((be32_at(d, p + 12) as u32, be32_at(d, p + 16) as u64))
        }
    } else if p + 32 > d.len() {
        None
    } else {
        Some((be32_at(d, p + 20) as u32, (be32_at(d, p + 24) * 0x1_0000_0000 + be32_at(d, p + 28)) as u64))
    }
}

/// Whether a box type is one of the containers the track walk descends
/// into: `mdia`, `minf`, `stbl`.
pub open spec fn is_track_container(ty: int) -> bool {
    ty == 0x6D64_6961 || ty == 0x6D69_6E66 || ty == 0x7374_626C
}

/// The track after a leaf box of type `ty` whose content starts at `c`.
pub open spec fn trak_leaf(t: TrackModel, d: Seq<u8>, ty: int, c: int) -> (TrackModel, Flow) {
    let eof = Flow::Fail(ErrorKind::Eof);
    if ty == 0x746B_6864 {
        match tkhd_fields(d, c) {
            None => (t, eof),
            Some((id, w, h)) => (TrackModel { track_id: id, width: w, height: h, ..t }, Flow::Go),
        }
    } else if ty == 0x6D64_6864 {
        match header_times(d, c) {
            None => (t, eof),
            Some((ts, dur)) => (TrackModel { timescale: ts, duration: dur, ..t }, Flow::Go),
        }
    } else if ty == 0x6864_6C72 {
        if c + 12 > d.len() {
            (t, eof)
        } else {
            (TrackModel { handler: be32_at(d, c + 8) as u32, ..t }, Flow::Go)
        }
    } else {
        let r = if ty == 0x7374_7364 {
            stsd_parsed(t.table, d, c)
        } else if ty == 0x7374_7473 {
            stts_parsed(t.table, d, c)
        } else if ty == 0x7374_7363 {
            stsc_parsed(t.table, d, c)
        } else if ty == 0x7374_737A {
            stsz_parsed(t.table, d, c)
        } else if ty == 0x7374_636F {
            stco_parsed(t.table, d, c, false)
        } else if ty == 0x636F_3634 {
            stco_parsed(t.table, d, c, true)
        } else if ty == 0x7374_7373 {
            stss_parsed(t.table, d, c)
        } else if ty == 0x6374_7473 {
            ctts_parsed(t.table, d, c)
        } else {
            (t.table, true)
        };
        (TrackModel { table: r.0, ..t }, if r.1 { Flow::Go } else { eof })
    }
}

/// The measure of the walks: the bytes left from `pos`.
pub open spec fn left(d: Seq<u8>, pos: int) -> int {
    if 0 <= pos <= d.len() {
        d.len() - pos + 1
    } else {
        0
    }
}

/// The track after its boxes from `pos` up to `end`.
pub open spec fn trak_walk(t: TrackModel, d: Seq<u8>, pos: int, end: int) -> (TrackModel, Flow)
    decreases left(d, pos),
{
    if pos >= end || pos < 0 || !box_header_readable(d, pos as nat) {
        (t, Flow::Go)
    } else {
        let (size, hs) = box_header_sizes(d, pos as nat);
        if size < hs || pos + size > u64::MAX {
            (t, Flow::Fault)
        } else {
            let c = pos + hs;
            let be = pos + size;
            let ty = be32_at(d, pos + 4);
            let r = if is_track_container(ty) {
                trak_walk(t, d, c, be)
            } else {
                trak_leaf(t, d, ty, c)
            };
            if r.1 != Flow::Go {
                r
            } else if be > i64::MAX {
                (r.0, Flow::Fail(ErrorKind::Io))
            } else if be > d.len() {
                (r.0, Flow::Go)
            } else {
                trak_walk(r.0, d, be, end)
            }
        }
    }
}

/// What the walk of a file collects: its tracks in order, the last `mdat`
/// (content offset and size) and the last movie duration with a nonzero
/// time scale.
pub struct ParseModel {
    pub tracks: Seq<TrackModel>,
    pub mdat: Option<(u64, u64)>,
    pub duration: Option<(u64, u32)>,
}

/// Nothing collected.
pub open spec fn empty_parse() -> ParseModel {
    ParseModel { tracks: seq![], mdat: None, duration: None }
}

/// The collection after the `moov` children from `pos` up to `end`: an
/// `mvhd` gives the duration, a `trak` whose walk goes through adds a
/// track; a track that fails ends the walk with its failure.
pub open spec fn moov_walk(m: ParseModel, d: Seq<u8>, pos: int, end: int) -> (ParseModel, Flow)
    decreases left(d, pos),
{
    if pos >= end || pos < 0 || !box_header_readable(d, pos as nat) {
        (m, Flow::Go)
    } else {
        let (size, hs) = box_header_sizes(d, pos as nat);
        if size < hs || pos + size > u64::MAX {
            (m, Flow::Fault)
        } else {
            let c = pos + hs;
            let be = pos + size;
            let ty = be32_at(d, pos + 4);
            let r = if ty == 0x6D76_6864 {
                match header_times(d, c) {
                    None => (m, Flow::Fail(ErrorKind::Eof)),
                    Some((ts, dur)) => (
                        if ts > 0 {
                            ParseModel { duration: Some((dur, ts)), ..m }
                        } else {
                            m
                        },
                        Flow::Go,
                    ),
                }
            } else if ty == 0x7472_616B {
                let (tr, f) = trak_walk(empty_track(), d, c, be);
                if f == Flow::Go {
                    (ParseModel { tracks: m.tracks.push(tr), ..m }, Flow::Go)
                } else {
                    (m, f)
                }
            } else {
                (m, Flow::Go)
            };
            if r.1 != Flow::Go {
                r
            } else if be > i64::MAX {
                (r.0, Flow::Fail(ErrorKind::Io))
            } else if be > d.len() {
                (r.0, Flow::Go)
            } else {
                moov_walk(r.0, d, be, end)
            }
        }
    }
}

/// The collection after the top-level boxes from `pos` on: an `ftyp` must
/// hold its brands, a `moov` is walked, an `mdat` is noted; a box of size
/// 0 runs to the end of the file.
pub open spec fn top_walk(m: ParseModel, d: Seq<u8>, pos: int) -> (ParseModel, Flow)
    decreases left(d, pos),
{
    if pos >= d.len() || pos < 0 || !box_header_readable(d, pos as nat) {
        (m, Flow::Go)
    } else {
        let (size, hs) = box_header_sizes(d, pos as nat);
        if size != 0 && (size < hs || pos + size > u64::MAX) {
            (m, Flow::Fault)
        } else {
            let c = pos + hs;
            let be: int = if size == 0 { d.len() as int } else { pos + size };
            let content: u64 = if size == 0 { u64::MAX } else { (size - hs) as u64 };
            let ty = be32_at(d, pos + 4);
            let r = if ty == 0x6674_7970 {
                if c + 8 + 4 * ftyp_brand_count(content) > d.len() {
                    (m, Flow::Fail(ErrorKind::Eof))
                } else {
                    (m, Flow::Go)
                }
            } else if ty == 0x6D6F_6F76 {
                moov_walk(m, d, c, be)
            } else if ty == 0x6D64_6174 {
                (ParseModel { mdat: Some((c as u64, (be - c) as u64)), ..m }, Flow::Go)
            } else {
                (m, Flow::Go)
            };
            if r.1 != Flow::Go {
                r
            } else if be > i64::MAX {
                (r.0, Flow::Fail(ErrorKind::Io))
            } else if be >= d.len() {
                (r.0, Flow::Go)
            } else {
                top_walk(r.0, d, be)
            }
        }
    }
}

/// A track as the walk fills it.
pub struct TrackState {
    pub track_id: u32,
    pub width: u32,
    pub height: u32,
    pub timescale: u32,
    pub duration: u64,
    pub handler: u32,
    pub table: SampleTable,
}

impl View for TrackState {
    type V = TrackModel;

    open spec fn view(&self) -> TrackModel {
        TrackModel {
            track_id: self.track_id,
            width: self.width,
            height: self.height,
            timescale: self.timescale,
            duration: self.duration,
            handler: self.handler,
            table: self.table@,
        }
    }
}

/// Reads the header of the box at `pos`: size, header size and type.
fn box_at(d: &[u8], pos: u64) -> (r: Option<(u64, u64, u32)>)
    requires
        d@.len() < 0x1_0000_0000_0000,
    ensures
        r is Some <==> (pos <= d@.len() && box_header_readable(d@, pos as nat)),
        r matches Some((s, h, ty)) ==> (s, h) == box_header_sizes(d@, pos as nat) && ty == be32_at(d@, pos + 4),
{
    let len = d.len() as u64;
    if pos > len || len - pos < 8 {
        return None;
    }
    let p = pos as usize;
    let size32 = u32_from_be(d[p], d[p + 1], d[p + 2], d[p + 3]);
    let ty = u32_from_be(d[p + 4], d[p + 5], d[p + 6], d[p + 7]);
    if size32 == 1 {
        if len - pos < 16 {
            return None;
        }
        let hi = u32_from_be(d[p + 8], d[p + 9], d[p + 10], d[p + 11]) as u64;
        let lo = u32_from_be(d[p + 12], d[p + 13], d[p + 14], d[p + 15]) as u64;
        Some((hi * 0x1_0000_0000 + lo, 16, ty))
    } else {
        Some((size32 as u64, 8, ty))
    }
}

/// The 32-bit value at `q`.
fn be32_of(d: &[u8], q: usize) -> (r: u32)
    requires
        q + 4 <= d@.len(),
    ensures
        r == be32_at(d@, q as int),
{
    u32_from_be(d[q], d[q + 1], d[q + 2], d[q + 3])
}

/// Reads the times of an `mdhd` or `mvhd` at `c`.
fn read_header_times(d: &[u8], c: usize) -> (r: Option<(u32, u64)>)
    requires
        c <= d@.len(),
    ensures
        r == header_times(d@, c as int),
{
    let len = d.len();
    if len - c < 1 {
        return None;
    }
    if d[c] == 0 {
        if len - c < 20 {
            return None;
        }
        Some((be32_of(d, c + 12), be32_of(d, c + 16) as u64))
    } else {
        if len - c < 32 {
            return None;
        }
        let hi = be32_of(d, c + 24) as u64;
        let lo = be32_of(d, c + 28) as u64;
        Some((be32_of(d, c + 20), hi * 0x1_0000_0000 + lo))
    }
}

/// Reads a leaf box of a track.
fn trak_leaf_exec(d: &[u8], ty: u32, c: usize, t: &mut TrackState) -> (f: Flow)
    requires
        c <= d@.len() < 0x1_0000_0000_0000,
        0x40_0000_0000_0000 <= usize::MAX,
    ensures
        (final(t)@, f) == trak_leaf(old(t)@, d@, ty as int, c as int),
{
    let len = d.len();
    if ty == 0x746B_6864 {
        if len - c < 1 {
            return Flow::Fail(ErrorKind::Eof);
        }
        let (off_id, off_w) = if d[c] == 0 {
            (12usize, 76usize)
        } else {
            (20usize, 88usize)
        };
        if len - c < off_w + 8 {
            return Flow::Fail(ErrorKind::Eof);
        }
        let w = be32_of(d, c + off_w);
        let h = be32_of(d, c + off_w + 4);
        assert(w >> 16u32 == w / 0x1_0000 && h >> 16u32 == h / 0x1_0000) by (bit_vector);
        t.track_id = be32_of(d, c + off_id);
        t.width = w >> 16u32;
        t.height = h >> 16u32;
        Flow::Go
    } else if ty == 0x6D64_6864 {
        match read_header_times(d, c) {
            None => Flow::Fail(ErrorKind::Eof),
            Some((ts, dur)) => {
                t.timescale = ts;
                t.duration = dur;
                Flow::Go
            },
        }
    } else if ty == 0x6864_6C72 {
        if len - c < 12 {
            return Flow::Fail(ErrorKind::Eof);
        }
        t.handler = be32_of(d, c + 8);
        Flow::Go
    } else {
        let r = if ty == 0x7374_7364 {
            t.table.parse_stsd(d, c)
        } else if ty == 0x7374_7473 {
            t.table.parse_stts(d, c)
        } else if ty == 0x7374_7363 {
            t.table.parse_stsc(d, c)
        } else if ty == 0x7374_737A {
            t.table.parse_stsz(d, c)
        } else if ty == 0x7374_636F {
            t.table.parse_stco(d, c, false)
        } else if ty == 0x636F_3634 {
            t.table.parse_stco(d, c, true)
        } else if ty == 0x7374_7373 {
            t.table.parse_stss(d, c)
        } else if ty == 0x6374_7473 {
            t.table.parse_ctts(d, c)
        } else {
            Ok(())
        };
        match r {
            Ok(()) => Flow::Go,
            Err(_) => Flow::Fail(ErrorKind::Eof),
        }
    }
}

/// Walks the boxes of a track from `pos` up to `end`.
fn walk_trak(d: &[u8], pos: u64, end: u64, t: &mut TrackState) -> (f: Flow)
    requires
        d@.len() < 0x1_0000_0000_0000,
        0x40_0000_0000_0000 <= usize::MAX,
    ensures
        (final(t)@, f) == trak_walk(old(t)@, d@, pos as int, end as int),
    decreases left(d@, pos as int),
{
    let mut cur = pos;
    loop
        invariant
            d@.len() < 0x1_0000_0000_0000,
            0x40_0000_0000_0000 <= usize::MAX,
            pos <= cur,
            cur == pos || cur <= d@.len(),
            trak_walk(old(t)@, d@, pos as int, end as int) == trak_walk(t@, d@, cur as int, end as int),
        decreases left(d@, cur as int),
    {
        if cur >= end {
            return Flow::Go;
        }
        let (size, hs, ty) = match box_at(d, cur) {
            Some(v) => v,
            None => {
                return Flow::Go;
            },
        };
        if size < hs || size > u64::MAX - cur {
            return Flow::Fault;
        }
        let c = cur + hs;
        let be = cur + size;
        let container = ty == 0x6D64_6961 || ty == 0x6D69_6E66 || ty == 0x7374_626C;
        let f = if container {
            walk_trak(d, c, be, t)
        } else {
            trak_leaf_exec(d, ty, c as usize, t)
        };
        match f {
            Flow::Go => {},
            _ => {
                return f;
            },
        }
        if be > i64::MAX as u64 {
            return Flow::Fail(ErrorKind::Io);
        }
        if be > d.len() as u64 {
            return Flow::Go;
        }
        cur = be;
    }
}

/// Media type, codec and parameters of a track: by its handler, video
/// (`vide`: the sample entry's size, else the track header's), audio
/// (`soun`: the sample entry's rate and channels, as 32-bit float), or
/// data.
pub open spec fn track_kind(tr: TrackModel) -> (MediaType, CodecId, StreamParams) {
    let t = tr.table;
    if tr.handler == 0x7669_6465 {
        (
            MediaType::Video,
            t.codec_id,
            StreamParams::Video(
                VideoStreamParams {
                    width: if t.width > 0 { t.width } else { tr.width },
                    height: if t.height > 0 { t.height } else { tr.height },
                    pixel_format: PixelFormat::Yuv420p,
                    frame_rate: Rational { num: 0, den: 1 },
                    sample_aspect_ratio: Rational { num: 1, den: 1 },
                    bit_rate: 0,
                },
            ),
        )
    } else if tr.handler == 0x736F_756E {
        (
            MediaType::Audio,
            t.codec_id,
            StreamParams::Audio(
                AudioStreamParams {
                    sample_rate: t.sample_rate,
                    channel_layout: ChannelLayout { channels: t.channel_count },
                    sample_format: SampleFormat::F32,
                    bit_rate: 0,
                    frame_size: 0,
                },
            ),
        )
    } else {
        (MediaType::Data, CodecId::Unknown, StreamParams::Other)
    }
}

/// Whether `s` is the stream of track `tr` at `index`: its kind, a time
/// base of one over the media time scale (1/1000 without one), the media
/// duration (-1 without a time scale), its sample count and codec private
/// data.
pub open spec fn stream_is(s: Stream, tr: TrackModel, index: nat) -> bool {
    let (mt, codec, params) = track_kind(tr);
    &&& s.index == index
    &&& s.media_type == mt
    &&& s.codec_id == codec
    &&& s.params == params
    &&& s.time_base == (if tr.timescale > 0 {
        Rational { num: 1, den: tr.timescale as i32 }
    } else {
        Rational { num: 1, den: 1000 }
    })
    &&& s.duration == (if tr.timescale > 0 { tr.duration as i64 } else { -1i64 })
    &&& s.start_time == 0
    &&& s.nb_frames == sample_count_of(tr.table) as u64
    &&& s.extra_data@ == tr.table.extra
    &&& s.metadata@.len() == 0
}

/// The stream of a track.
fn make_stream(tr: &TrackState, index: usize) -> (s: Stream)
    ensures
        stream_is(s, tr@, index as nat),
{
    let t = &tr.table;
    let (tw, th) = t.entry_size();
    let (sr, ch) = t.entry_audio();
    let (media_type, codec_id, params) = if tr.handler == 0x7669_6465 {
        (
            MediaType::Video,
            t.codec(),
            StreamParams::Video(
                VideoStreamParams {
                    width: if tw > 0 { tw } else { tr.width },
                    height: if th > 0 { th } else { tr.height },
                    pixel_format: PixelFormat::Yuv420p,
                    frame_rate: Rational::new(0, 1),
                    sample_aspect_ratio: Rational::new(1, 1),
                    bit_rate: 0,
                },
            ),
        )
    } else if tr.handler == 0x736F_756E {
        (
            MediaType::Audio,
            t.codec(),
            StreamParams::Audio(
                AudioStreamParams {
                    sample_rate: sr,
                    channel_layout: ChannelLayout::from_channels(ch),
                    sample_format: SampleFormat::F32,
                    bit_rate: 0,
                    frame_size: 0,
                },
            ),
        )
    } else {
        (MediaType::Data, CodecId::Unknown, StreamParams::Other)
    };
    let time_base = if tr.timescale > 0 {
        Rational::new(1, tr.timescale as i32)
    } else {
        Rational::new(1, 1000)
    };
    let duration: i64 = if tr.timescale > 0 {
        tr.duration as i64
    } else {
        -1
    };
    Stream {
        index,
        media_type,
        codec_id,
        time_base,
        duration,
        start_time: 0,
        nb_frames: t.sample_count() as u64,
        extra_data: copy_bytes(t.extra()),
        params,
        metadata: Vec::new(),
    }
}

/// What the walk collects, as it runs.
pub struct Mp4Parse {
    pub tracks: Ghost<Seq<TrackModel>>,
    pub streams: Vec<Stream>,
    pub tables: Vec<SampleTable>,
    pub mdat: Option<(u64, u64)>,
    pub duration: Option<(u64, u32)>,
}

impl Mp4Parse {
    /// The collection as plain values.
    pub open spec fn model(&self) -> ParseModel {
        ParseModel { tracks: self.tracks@, mdat: self.mdat, duration: self.duration }
    }

    /// Each track has its stream (numbered from `base`) and its table.
    pub open spec fn wf(&self, base: nat) -> bool {
        &&& self.streams@.len() == self.tracks@.len()
        &&& self.tables@.len() == self.tracks@.len()
        &&& forall|i: int| 0 <= i < self.tracks@.len() ==> (#[trigger] self.tables@[i])@ == self.tracks@[i].table
        &&& forall|i: int| 0 <= i < self.tracks@.len() ==> stream_is(#[trigger] self.streams@[i], self.tracks@[i], (base + i) as nat)
    }

    /// Nothing collected.
    pub fn new() -> (r: Self)
        ensures
            r.model() == empty_parse(),
            r.wf(0),
    {
        Mp4Parse { tracks: Ghost(Seq::empty()), streams: Vec::new(), tables: Vec::new(), mdat: None, duration: None }
    }
}

/// The bytes of `[pos, end)` inside data of `len` bytes.
pub open spec fn span(pos: int, end: int, len: int) -> int {
    let top = if end < len { end } else { len };
    if pos < top { top - pos } else { 0 }
}

/// Walks the children of a `moov` from `pos` up to `end`.
#[verifier::rlimit(30)]
fn walk_moov(d: &[u8], pos: u64, end: u64, out: &mut Mp4Parse, base: usize) -> (f: Flow)
    requires
        d@.len() < 0x1_0000_0000_0000,
        0x40_0000_0000_0000 <= usize::MAX,
        old(out).wf(base as nat),
        base + old(out).tracks@.len() + span(pos as int, end as int, d@.len() as int) < usize::MAX,
    ensures
        (final(out).model(), f) == moov_walk(old(out).model(), d@, pos as int, end as int),
        final(out).wf(base as nat),
        final(out).tracks@.len() <= old(out).tracks@.len() + span(pos as int, end as int, d@.len() as int),
{
    let mut cur = pos;
    let ghost n0 = out.tracks@.len();
    loop
        invariant
            d@.len() < 0x1_0000_0000_0000,
            0x40_0000_0000_0000 <= usize::MAX,
            pos <= cur,
            cur == pos || cur <= d@.len(),
            out.wf(base as nat),
            n0 == old(out).tracks@.len(),
            out.tracks@.len() <= n0 + span(pos as int, (if cur < end { cur } else { end }) as int, d@.len() as int),
            base + n0 + span(pos as int, end as int, d@.len() as int) < usize::MAX,
            moov_walk(old(out).model(), d@, pos as int, end as int) == moov_walk(out.model(), d@, cur as int, end as int),
        decreases left(d@, cur as int),
    {
        if cur >= end {
            return Flow::Go;
        }
        let (size, hs, ty) = match box_at(d, cur) {
            Some(v) => v,
            None => {
                return Flow::Go;
            },
        };
        if size < hs || size > u64::MAX - cur {
            return Flow::Fault;
        }
        let c = cur + hs;
        let be = cur + size;
        if ty == 0x6D76_6864 {
            match read_header_times(d, c as usize) {
                None => {
                    return Flow::Fail(ErrorKind::Eof);
                },
                Some((ts, dur)) => {
                    if ts > 0 {
                        out.duration = Some((dur, ts));
                    }
                },
            }
        } else if ty == 0x7472_616B {
            let mut tr = TrackState {
                track_id: 0,
                width: 0,
                height: 0,
                timescale: 0,
                duration: 0,
                handler: 0,
                table: SampleTable::new(),
            };
            let f = walk_trak(d, c, be, &mut tr);
            match f {
                Flow::Go => {},
                _ => {
                    return f;
                },
            }
            let index = base + out.streams.len();
            let st = make_stream(&tr, index);
            let ghost trm = tr@;
            out.streams.push(st);
            out.tables.push(tr.table);
            proof {
                out.tracks@ = out.tracks@.push(trm);
            }
            assert(out.wf(base as nat)) by {
                assert forall|i: int| 0 <= i < out.tracks@.len() implies (#[trigger] out.tables@[i])@
                    == out.tracks@[i].table by {}
                assert forall|i: int| 0 <= i < out.tracks@.len() implies stream_is(
                    #[trigger] out.streams@[i],
                    out.tracks@[i],
                    (base + i) as nat,
                ) by {}
            }
        }
        if be > i64::MAX as u64 {
            return Flow::Fail(ErrorKind::Io);
        }
        if be > d.len() as u64 {
            return Flow::Go;
        }
        cur = be;
    }
}

/// Walks the top-level boxes from `pos` on.
pub fn walk_top(d: &[u8], pos: u64, out: &mut Mp4Parse, base: usize) -> (f: Flow)
    requires
        d@.len() < 0x1_0000_0000_0000,
        0x40_0000_0000_0000 <= usize::MAX,
        old(out).wf(base as nat),
        base + old(out).tracks@.len() + d@.len() < usize::MAX,
    ensures
        (final(out).model(), f) == top_walk(old(out).model(), d@, pos as int),
        final(out).wf(base as nat),
{
    let len = d.len() as u64;
    let mut cur = pos;
    let ghost n0 = out.tracks@.len();
    loop
        invariant
            d@.len() < 0x1_0000_0000_0000,
            len == d@.len(),
            0x40_0000_0000_0000 <= usize::MAX,
            pos <= cur,
            cur == pos || cur <= d@.len(),
            out.wf(base as nat),
            n0 == old(out).tracks@.len(),
            out.tracks@.len() <= n0 + span(pos as int, cur as int, d@.len() as int),
            base + n0 + d@.len() < usize::MAX,
            top_walk(old(out).model(), d@, pos as int) == top_walk(out.model(), d@, cur as int),
        decreases left(d@, cur as int),
    {
        if cur >= len {
            return Flow::Go;
        }
        let (size, hs, ty) = match box_at(d, cur) {
            Some(v) => v,
            None => {
                return Flow::Go;
            },
        };
        if size != 0 && (size < hs || size > u64::MAX - cur) {
            return Flow::Fault;
        }
        let c = cur + hs;
        let be = if size == 0 {
            len
        } else {
            cur + size
        };
        if ty == 0x6674_7970 {
            let content = if size == 0 {
                u64::MAX
            } else {
                size - hs
            };
            let brands = if content >= 8 {
                (content - 8) / 4
            } else {
                0
            };
            if c > len || len - c < 8 || (len - c - 8) / 4 < brands {
                return Flow::Fail(ErrorKind::Eof);
            }
        } else if ty == 0x6D6F_6F76 {
            let f = walk_moov(d, c, be, out, base);
            match f {
                Flow::Go => {},
                _ => {
                    return f;
                },
            }
        } else if ty == 0x6D64_6174 {
            out.mdat = Some((c, be - c));
        }
        if be > i64::MAX as u64 {
            return Flow::Fail(ErrorKind::Io);
        }
        if be >= len {
            return Flow::Go;
        }
        cur = be;
    }
}

} // verus!
