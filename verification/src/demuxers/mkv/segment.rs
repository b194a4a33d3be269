//! The walk over a Matroska file's header elements: the EBML header, then
//! the Segment's top-level elements up to the first Cluster, descending into
//! segment information and the track list.
//!
//! Each walk reads the elements from the cursor while it is before the end
//! of the enclosing element; a leaf leaves the cursor at its content's end,
//! a nested element wherever its own walk stopped. An element ending at or
//! past `ELEMENT_END_LIMIT` is refused as invalid data: no cursor can get
//! there.

use vstd::prelude::*;
use crate::error::{ErrorKind, TaoError, TaoResult, invalid_data};
use crate::io::{IoContext, bytes_at};
use crate::endian::be_acc;
use crate::text::{utf8_lossy_chars, str_eq};
use crate::demuxers::mkv::ebml::{
    Hdr, hdr_at, before_nul, read_element_header, read_uint, read_string, read_binary, EBML_HEADER, EBML_DOC_TYPE,
    INFO_TIMESCALE, INFO_DURATION, INFO_TITLE, INFO_MUXING_APP, INFO_WRITING_APP, TRACK_ENTRY, TRACK_NUMBER,
    TRACK_UID, TRACK_TYPE, SEGMENT_INFO, TRACKS, CLUSTER, EBML_UNKNOWN_SIZE, TRACK_CODEC_ID, TRACK_CODEC_PRIVATE, TRACK_DEFAULT_DURATION, VIDEO_SETTINGS,
    VIDEO_PIXEL_WIDTH, VIDEO_PIXEL_HEIGHT, VIDEO_DISPLAY_WIDTH, VIDEO_DISPLAY_HEIGHT, AUDIO_SETTINGS,
    AUDIO_SAMPLING_FREQ, AUDIO_CHANNELS, AUDIO_BIT_DEPTH,
};

verus! {

/// Elements may not end at or past this offset.
pub const ELEMENT_END_LIMIT: u64 = 0x40_0000_0000_0000;

/// How a walk ends: on, or with an error of this kind.
pub type Step = Option<ErrorKind>;

/// An unsigned integer element of `size` bytes at `c`.
pub open spec fn uint_at(d: Seq<u8>, c: int, size: u64) -> Result<u64, ErrorKind> {
    if size == 0 || size > 8 {
        Err(ErrorKind::InvalidData)
    } else if c + size > d.len() {
        Err(ErrorKind::Eof)
    } else {
        Ok(be_acc(0, d, c, size as nat) as u64)
    }
}

/// A float element of `size` bytes at `c`, kept as its width (0, 4 or 8)
/// and its bits; an empty one is zero.
pub open spec fn float_at(d: Seq<u8>, c: int, size: u64) -> Result<(u8, u64), ErrorKind> {
    if size == 0 {
        Ok((0u8, 0u64))
    } else if size == 4 || size == 8 {
        match uint_at(d, c, size) {
            Ok(v) => Ok((size as u8, v)),
            Err(k) => Err(k),
        }
    } else {
        Err(ErrorKind::InvalidData)
    }
}

/// The `size` bytes at `c`.
pub open spec fn binary_at(d: Seq<u8>, c: int, size: u64) -> Result<Seq<u8>, ErrorKind> {
    if size > 0 && c + size > d.len() {
        Err(ErrorKind::Eof)
    } else {
        Ok(bytes_at(d, c as nat, size as nat))
    }
}

/// A string element: its bytes up to the first zero byte, decoded.
pub open spec fn string_at(d: Seq<u8>, c: int, size: u64) -> Result<Seq<char>, ErrorKind> {
    match binary_at(d, c, size) {
        Ok(b) => Ok(utf8_lossy_chars(before_nul(b))),
        Err(k) => Err(k),
    }
}

/// Reads a float element, keeping its width and bits.
pub fn read_float_bits(io: &mut IoContext, size: u64) -> (r: TaoResult<(u8, u64)>)
    ensures
        final(io).contents() == old(io).contents(),
        match float_at(old(io).contents(), old(io).cursor() as int, size) {
            Ok(v) => r == Ok::<(u8, u64), TaoError>(v) && final(io).cursor() == old(io).cursor() + size,
            Err(k) => r is Err && r->Err_0.kind() == k,
        },
{
    if size == 0 {
        return Ok((0, 0));
    }
    if size != 4 && size != 8 {
        return Err(invalid_data("EBML: invalid float size"));
    }
    let v = read_uint(io, size)?;
    Ok((size as u8, v))
}

/// What a track entry holds: number, type, codec ID, codec private data,
/// default duration (ns), pixel size, sampling frequency (a float's width
/// and bits), channels and bit depth.
pub struct TrackView {
    pub number: u64,
    pub kind: u64,
    pub codec: Seq<char>,
    pub private: Seq<u8>,
    pub default_duration: u64,
    pub width: u32,
    pub height: u32,
    pub freq: (u8, u64),
    pub channels: u32,
    pub bit_depth: u32,
}

/// A track entry before its elements are read.
pub open spec fn fresh_track() -> TrackView {
    TrackView {
        number: 0,
        kind: 0,
        codec: Seq::empty(),
        private: Seq::empty(),
        default_duration: 0,
        width: 0,
        height: 0,
        freq: (0, 0),
        channels: 0,
        bit_depth: 0,
    }
}

/// The walk over a Video element's children from `p` to `end`: pixel width
/// and height are kept (as 32-bit values), display sizes read and dropped.
pub open spec fn video_walk(t: TrackView, d: Seq<u8>, p: int, end: int) -> (TrackView, int, Step)
    decreases ELEMENT_END_LIMIT - p,
{
    if p >= end {
        (t, p, None)
    } else {
        match hdr_at(d, p) {
            Hdr::Bad(k, q) => (t, q, Some(k)),
            Hdr::Got(id, size, c) => if c + size >= ELEMENT_END_LIMIT || c <= p {
                (t, c, Some(ErrorKind::InvalidData))
            } else if id == VIDEO_PIXEL_WIDTH || id == VIDEO_PIXEL_HEIGHT || id == VIDEO_DISPLAY_WIDTH || id
                == VIDEO_DISPLAY_HEIGHT {
                match uint_at(d, c, size) {
                    Err(k) => (t, c, Some(k)),
                    Ok(v) => {
                        let t2 = if id == VIDEO_PIXEL_WIDTH {
                            TrackView { width: v as u32, ..t }
                        } else if id == VIDEO_PIXEL_HEIGHT {
                            TrackView { height: v as u32, ..t }
                        } else {
                            t
                        };
                        video_walk(t2, d, c + size, end)
                    },
                }
            } else {
                video_walk(t, d, c + size, end)
            },
        }
    }
}

/// The walk over an Audio element's children: sampling frequency (a
/// float), channels and bit depth.
pub open spec fn audio_walk(t: TrackView, d: Seq<u8>, p: int, end: int) -> (TrackView, int, Step)
    decreases ELEMENT_END_LIMIT - p,
{
    if p >= end {
        (t, p, None)
    } else {
        match hdr_at(d, p) {
            Hdr::Bad(k, q) => (t, q, Some(k)),
            Hdr::Got(id, size, c) => if c + size >= ELEMENT_END_LIMIT || c <= p {
                (t, c, Some(ErrorKind::InvalidData))
            } else if id == AUDIO_SAMPLING_FREQ {
                match float_at(d, c, size) {
                    Err(k) => (t, c, Some(k)),
                    Ok(f) => audio_walk(TrackView { freq: f, ..t }, d, c + size, end),
                }
            } else if id == AUDIO_CHANNELS || id == AUDIO_BIT_DEPTH {
                match uint_at(d, c, size) {
                    Err(k) => (t, c, Some(k)),
                    Ok(v) => {
                        let t2 = if id == AUDIO_CHANNELS {
                            TrackView { channels: v as u32, ..t }
                        } else {
                            TrackView { bit_depth: v as u32, ..t }
                        };
                        audio_walk(t2, d, c + size, end)
                    },
                }
            } else {
                audio_walk(t, d, c + size, end)
            },
        }
    }
}

/// Whether a track entry child is an unsigned integer the entry reads.
pub open spec fn entry_uint_id(id: u32) -> bool {
    id == TRACK_NUMBER || id == TRACK_UID || id == TRACK_TYPE || id == TRACK_DEFAULT_DURATION
}

/// The track after the unsigned integer child `id` holding `v`.
pub open spec fn entry_set_uint(t: TrackView, id: u32, v: u64) -> TrackView {
    if id == TRACK_NUMBER {
        TrackView { number: v, ..t }
    } else if id == TRACK_TYPE {
        TrackView { kind: v, ..t }
    } else if id == TRACK_DEFAULT_DURATION {
        TrackView { default_duration: v, ..t }
    } else {
        t
    }
}

/// The walk over a TrackEntry's children: number, UID (dropped), type,
/// codec ID, codec private data, default duration, and the Video and Audio
/// elements.
pub open spec fn entry_walk(t: TrackView, d: Seq<u8>, p: int, end: int) -> (TrackView, int, Step)
    decreases ELEMENT_END_LIMIT - p,
{
    if p >= end {
        (t, p, None)
    } else {
        match hdr_at(d, p) {
            Hdr::Bad(k, q) => (t, q, Some(k)),
            Hdr::Got(id, size, c) => if c + size >= ELEMENT_END_LIMIT || c <= p {
                (t, c, Some(ErrorKind::InvalidData))
            } else if entry_uint_id(id) {
                match uint_at(d, c, size) {
                    Err(k) => (t, c, Some(k)),
                    Ok(v) => entry_walk(entry_set_uint(t, id, v), d, c + size, end),
                }
            } else if id == TRACK_CODEC_ID {
                match string_at(d, c, size) {
                    Err(k) => (t, c, Some(k)),
                    Ok(s) => entry_walk(TrackView { codec: s, ..t }, d, c + size, end),
                }
            } else if id == TRACK_CODEC_PRIVATE {
                match binary_at(d, c, size) {
                    Err(k) => (t, c, Some(k)),
                    Ok(b) => entry_walk(TrackView { private: b, ..t }, d, c + size, end),
                }
            } else if id == VIDEO_SETTINGS || id == AUDIO_SETTINGS {
                let (t2, q, s) = if id == VIDEO_SETTINGS {
                    video_walk(t, d, c, c + size)
                } else {
                    audio_walk(t, d, c, c + size)
                };
                if s is Some {
                    (t2, q, s)
                } else if q <= p || q >= ELEMENT_END_LIMIT {
                    (t2, q, Some(ErrorKind::InvalidData))
                } else {
                    entry_walk(t2, d, q, end)
                }
            } else {
                entry_walk(t, d, c + size, end)
            },
        }
    }
}

/// The walk over a Tracks element's children: each TrackEntry adds a track.
pub open spec fn tracks_walk(ts: Seq<TrackView>, d: Seq<u8>, p: int, end: int) -> (Seq<TrackView>, int, Step)
    decreases ELEMENT_END_LIMIT - p,
{
    if p >= end {
        (ts, p, None)
    } else {
        match hdr_at(d, p) {
            Hdr::Bad(k, q) => (ts, q, Some(k)),
            Hdr::Got(id, size, c) => if c + size >= ELEMENT_END_LIMIT || c <= p {
                (ts, c, Some(ErrorKind::InvalidData))
            } else if id == TRACK_ENTRY {
                let (t, q, s) = entry_walk(fresh_track(), d, c, c + size);
                if s is Some {
                    (ts, q, s)
                } else if q <= p || q >= ELEMENT_END_LIMIT {
                    (ts, q, Some(ErrorKind::InvalidData))
                } else {
                    tracks_walk(ts.push(t), d, q, end)
                }
            } else {
                tracks_walk(ts, d, c + size, end)
            },
        }
    }
}

/// A track entry as read.
pub struct MkvTrack {
    pub number: u64,
    pub kind: u64,
    pub codec: String,
    pub private: Vec<u8>,
    pub default_duration: u64,
    pub width: u32,
    pub height: u32,
    pub freq: (u8, u64),
    pub channels: u32,
    pub bit_depth: u32,
}

impl View for MkvTrack {
    type V = TrackView;

    open spec fn view(&self) -> TrackView {
        TrackView {
            number: self.number,
            kind: self.kind,
            codec: self.codec@,
            private: self.private@,
            default_duration: self.default_duration,
            width: self.width,
            height: self.height,
            freq: self.freq,
            channels: self.channels,
            bit_depth: self.bit_depth,
        }
    }
}

impl MkvTrack {
    /// A track entry before its elements are read.
    pub fn new() -> (t: Self)
        ensures
            t@ == fresh_track(),
    {
        MkvTrack {
            number: 0,
            kind: 0,
            codec: String::new(),
            private: Vec::new(),
            default_duration: 0,
            width: 0,
            height: 0,
            freq: (0, 0),
            channels: 0,
            bit_depth: 0,
        }
    }
}

/// What the walks need of the input: it and its cursor are short of the
/// element end limit, and `usize` holds that limit.
pub open spec fn walkable(io: IoContext) -> bool {
    &&& io.contents().len() < ELEMENT_END_LIMIT
    &&& io.cursor() < ELEMENT_END_LIMIT
    &&& ELEMENT_END_LIMIT <= usize::MAX
}

/// The common end of a walk: `walk` is the spec walk's outcome.
pub open spec fn walk_done<T>(walk: (T, int, Step), t: T, io: IoContext, r: TaoResult<()>) -> bool {
    match walk.2 {
        None => r is Ok && t == walk.0 && io.cursor() == walk.1,
        Some(k) => r is Err && r->Err_0.kind() == k,
    }
}

/// Reads the children of a Video element of `size` bytes.
pub fn parse_video_settings(io: &mut IoContext, size: u64, track: &mut MkvTrack) -> (r: TaoResult<()>)
    requires
        walkable(*old(io)),
        old(io).cursor() + size < ELEMENT_END_LIMIT,
    ensures
        final(io).contents() == old(io).contents(),
        walk_done(
            video_walk(old(track)@, old(io).contents(), old(io).cursor() as int, old(io).cursor() + size),
            final(track)@,
            *final(io),
            r,
        ),
{
    let ghost d = io.contents();
    let ghost t0 = track@;
    let ghost p0 = io.cursor() as int;
    let end = io.tell() as u64 + size;
    while (io.tell() as u64) < end
        invariant
            io.contents() == d,
            walkable(*io),
            end < ELEMENT_END_LIMIT,
            d == old(io).contents(),
            t0 == old(track)@,
            p0 == old(io).cursor(),
            end == old(io).cursor() + size,
            video_walk(t0, d, p0, end as int) == video_walk(track@, d, io.cursor() as int, end as int),
        decreases ELEMENT_END_LIMIT - io.cursor(),
    {
        let p = io.tell() as u64;
        let (id, esize, _) = read_element_header(io)?;
        let c = io.tell() as u64;
        if c <= p || esize >= ELEMENT_END_LIMIT - c {
            return Err(invalid_data("MKV: element size out of range"));
        }
        if id == VIDEO_PIXEL_WIDTH || id == VIDEO_PIXEL_HEIGHT || id == VIDEO_DISPLAY_WIDTH || id
            == VIDEO_DISPLAY_HEIGHT {
            let v = read_uint(io, esize)?;
            if id == VIDEO_PIXEL_WIDTH {
                track.width = v as u32;
            } else if id == VIDEO_PIXEL_HEIGHT {
                track.height = v as u32;
            }
        } else {
            io.skip(esize as usize)?;
        }
    }
    Ok(())
}

/// Reads the children of an Audio element of `size` bytes.
pub fn parse_audio_settings(io: &mut IoContext, size: u64, track: &mut MkvTrack) -> (r: TaoResult<()>)
    requires
        walkable(*old(io)),
        old(io).cursor() + size < ELEMENT_END_LIMIT,
    ensures
        final(io).contents() == old(io).contents(),
        walk_done(
            audio_walk(old(track)@, old(io).contents(), old(io).cursor() as int, old(io).cursor() + size),
            final(track)@,
            *final(io),
            r,
        ),
{
    let ghost d = io.contents();
    let ghost t0 = track@;
    let ghost p0 = io.cursor() as int;
    let end = io.tell() as u64 + size;
    while (io.tell() as u64) < end
        invariant
            io.contents() == d,
            walkable(*io),
            end < ELEMENT_END_LIMIT,
            d == old(io).contents(),
            t0 == old(track)@,
            p0 == old(io).cursor(),
            end == old(io).cursor() + size,
            audio_walk(t0, d, p0, end as int) == audio_walk(track@, d, io.cursor() as int, end as int),
        decreases ELEMENT_END_LIMIT - io.cursor(),
    {
        let p = io.tell() as u64;
        let (id, esize, _) = read_element_header(io)?;
        let c = io.tell() as u64;
        if c <= p || esize >= ELEMENT_END_LIMIT - c {
            return Err(invalid_data("MKV: element size out of range"));
        }
        if id == AUDIO_SAMPLING_FREQ {
            track.freq = read_float_bits(io, esize)?;
        } else if id == AUDIO_CHANNELS || id == AUDIO_BIT_DEPTH {
            let v = read_uint(io, esize)?;
            if id == AUDIO_CHANNELS {
                track.channels = v as u32;
            } else {
                track.bit_depth = v as u32;
            }
        } else {
            io.skip(esize as usize)?;
        }
    }
    Ok(())
}

/// Reads the children of a TrackEntry of `size` bytes.
pub fn parse_track_entry(io: &mut IoContext, size: u64) -> (r: TaoResult<MkvTrack>)
    requires
        walkable(*old(io)),
        old(io).cursor() + size < ELEMENT_END_LIMIT,
    ensures
        final(io).contents() == old(io).contents(),
        ({
            let w = entry_walk(fresh_track(), old(io).contents(), old(io).cursor() as int, old(io).cursor() + size);
            match w.2 {
                None => r matches Ok(t) && t@ == w.0 && final(io).cursor() == w.1,
                Some(k) => r is Err && r->Err_0.kind() == k,
            }
        }),
{
    let ghost d = io.contents();
    let ghost p0 = io.cursor() as int;
    let mut track = MkvTrack::new();
    let end = io.tell() as u64 + size;
    while (io.tell() as u64) < end
        invariant
            io.contents() == d,
            walkable(*io),
            end < ELEMENT_END_LIMIT,
            d == old(io).contents(),
            p0 == old(io).cursor(),
            end == old(io).cursor() + size,
            entry_walk(fresh_track(), d, p0, end as int) == entry_walk(track@, d, io.cursor() as int, end as int),
        decreases ELEMENT_END_LIMIT - io.cursor(),
    {
        let p = io.tell() as u64;
        let (id, esize, _) = read_element_header(io)?;
        let c = io.tell() as u64;
        if c <= p || esize >= ELEMENT_END_LIMIT - c {
            return Err(invalid_data("MKV: element size out of range"));
        }
        if id == TRACK_NUMBER || id == TRACK_UID || id == TRACK_TYPE || id == TRACK_DEFAULT_DURATION {
            let v = read_uint(io, esize)?;
            if id == TRACK_NUMBER {
                track.number = v;
            } else if id == TRACK_TYPE {
                track.kind = v;
            } else if id == TRACK_DEFAULT_DURATION {
                track.default_duration = v;
            }
        } else if id == TRACK_CODEC_ID {
            track.codec = read_string(io, esize)?;
        } else if id == TRACK_CODEC_PRIVATE {
            track.private = read_binary(io, esize)?;
        } else if id == VIDEO_SETTINGS || id == AUDIO_SETTINGS {
            if id == VIDEO_SETTINGS {
                parse_video_settings(io, esize, &mut track)?;
            } else {
                parse_audio_settings(io, esize, &mut track)?;
            }
            let q = io.tell() as u64;
            if q <= p || q >= ELEMENT_END_LIMIT {
                return Err(invalid_data("MKV: element size out of range"));
            }
        } else {
            io.skip(esize as usize)?;
        }
    }
    Ok(track)
}

/// Reads the children of a Tracks element of `size` bytes, adding each
/// track entry to `tracks`.
pub fn parse_tracks(io: &mut IoContext, size: u64, tracks: &mut Vec<MkvTrack>) -> (r: TaoResult<()>)
    requires
        walkable(*old(io)),
        old(io).cursor() + size < ELEMENT_END_LIMIT,
    ensures
        final(io).contents() == old(io).contents(),
        walk_done(
            tracks_walk(old(tracks)@.map_values(|t: MkvTrack| t@), old(io).contents(), old(io).cursor() as int, old(io).cursor() + size),
            final(tracks)@.map_values(|t: MkvTrack| t@),
            *final(io),
            r,
        ),
{
    let ghost d = io.contents();
    let ghost ts0 = tracks@.map_values(|t: MkvTrack| t@);
    let ghost p0 = io.cursor() as int;
    let end = io.tell() as u64 + size;
    while (io.tell() as u64) < end
        invariant
            io.contents() == d,
            walkable(*io),
            end < ELEMENT_END_LIMIT,
            d == old(io).contents(),
            ts0 == old(tracks)@.map_values(|t: MkvTrack| t@),
            p0 == old(io).cursor(),
            end == old(io).cursor() + size,
            tracks_walk(ts0, d, p0, end as int) == tracks_walk(tracks@.map_values(|t: MkvTrack| t@), d, io.cursor() as int, end as int),
        decreases ELEMENT_END_LIMIT - io.cursor(),
    {
        let p = io.tell() as u64;
        let (id, esize, _) = read_element_header(io)?;
        let c = io.tell() as u64;
        if c <= p || esize >= ELEMENT_END_LIMIT - c {
            return Err(invalid_data("MKV: element size out of range"));
        }
        if id == TRACK_ENTRY {
            let t = parse_track_entry(io, esize)?;
            let q = io.tell() as u64;
            if q <= p || q >= ELEMENT_END_LIMIT {
                return Err(invalid_data("MKV: element size out of range"));
            }
            let ghost before = tracks@.map_values(|t: MkvTrack| t@);
            tracks.push(t);
            assert(tracks@.map_values(|t: MkvTrack| t@) =~= before.push(t@));
        } else {
            io.skip(esize as usize)?;
        }
    }
    Ok(())
}

/// What the Segment's header elements say: the time scale, the duration's
/// float (width and bits, if given) and the tracks.
pub struct Head {
    pub timescale: u64,
    pub duration: Option<(u8, u64)>,
    pub tracks: Seq<TrackView>,
}

/// The time scale and the duration's float (width and bits, if given).
pub type InfoView = (u64, Option<(u8, u64)>);

/// The walk over a segment information element: time scale, duration, and
/// title and application names (read and dropped).
pub open spec fn info_walk(h: InfoView, d: Seq<u8>, p: int, end: int) -> (InfoView, int, Step)
    decreases ELEMENT_END_LIMIT - p,
{
    if p >= end {
        (h, p, None)
    } else {
        match hdr_at(d, p) {
            Hdr::Bad(k, q) => (h, q, Some(k)),
            Hdr::Got(id, size, c) => if c + size >= ELEMENT_END_LIMIT || c <= p {
                (h, c, Some(ErrorKind::InvalidData))
            } else if id == INFO_TIMESCALE {
                match uint_at(d, c, size) {
                    Err(k) => (h, c, Some(k)),
                    Ok(v) => info_walk((v, h.1), d, c + size, end),
                }
            } else if id == INFO_DURATION {
                match float_at(d, c, size) {
                    Err(k) => (h, c, Some(k)),
                    Ok(f) => info_walk((h.0, Some(f)), d, c + size, end),
                }
            } else if id == INFO_TITLE || id == INFO_MUXING_APP || id == INFO_WRITING_APP {
                match string_at(d, c, size) {
                    Err(k) => (h, c, Some(k)),
                    Ok(_) => info_walk(h, d, c + size, end),
                }
            } else {
                info_walk(h, d, c + size, end)
            },
        }
    }
}

/// The walk over the Segment's top-level elements up to the first Cluster
/// (the cursor is left at its header), the end, an element of unknown size
/// other than these, or the data's end.
pub open spec fn scan_walk(h: Head, d: Seq<u8>, p: int, end: int) -> (Head, int, Step)
    decreases ELEMENT_END_LIMIT - p,
{
    if p >= end {
        (h, p, None)
    } else {
        match hdr_at(d, p) {
            Hdr::Bad(k, q) => (h, q, if k == ErrorKind::Eof { None } else { Some(k) }),
            Hdr::Got(id, size, c) => if id == CLUSTER {
                (h, p, None)
            } else if id == SEGMENT_INFO || id == TRACKS {
                if c + size >= ELEMENT_END_LIMIT || c <= p {
                    (h, c, Some(ErrorKind::InvalidData))
                } else {
                    let (h2, q, s) = if id == SEGMENT_INFO {
                        let (iv, q, s) = info_walk((h.timescale, h.duration), d, c, c + size);
                        (Head { timescale: iv.0, duration: iv.1, ..h }, q, s)
                    } else {
                        let (ts, q, s) = tracks_walk(h.tracks, d, c, c + size);
                        (Head { tracks: ts, ..h }, q, s)
                    };
                    if s is Some {
                        (h2, q, s)
                    } else if q <= p || q >= ELEMENT_END_LIMIT {
                        (h2, q, Some(ErrorKind::InvalidData))
                    } else {
                        scan_walk(h2, d, q, end)
                    }
                }
            } else if size == EBML_UNKNOWN_SIZE {
                (h, c, None)
            } else if c + size >= ELEMENT_END_LIMIT || c <= p {
                (h, c, Some(ErrorKind::InvalidData))
            } else {
                scan_walk(h, d, c + size, end)
            },
        }
    }
}

/// The walk over the EBML header's children: the document type says
/// whether the file is WebM.
pub open spec fn doc_walk(webm: bool, d: Seq<u8>, p: int, end: int) -> (bool, int, Step)
    decreases ELEMENT_END_LIMIT - p,
{
    if p >= end {
        (webm, p, None)
    } else {
        match hdr_at(d, p) {
            Hdr::Bad(k, q) => (webm, q, Some(k)),
            Hdr::Got(id, size, c) => if c + size >= ELEMENT_END_LIMIT || c <= p {
                (webm, c, Some(ErrorKind::InvalidData))
            } else if id == EBML_DOC_TYPE {
                match string_at(d, c, size) {
                    Err(k) => (webm, c, Some(k)),
                    Ok(s) => doc_walk(s == "webm"@, d, c + size, end),
                }
            } else {
                doc_walk(webm, d, c + size, end)
            },
        }
    }
}

/// The EBML header at `p`: its element, then its children.
pub open spec fn ebml_head(webm: bool, d: Seq<u8>, p: int) -> (bool, int, Step) {
    match hdr_at(d, p) {
        Hdr::Bad(k, q) => (webm, q, Some(k)),
        Hdr::Got(id, size, c) => if id != EBML_HEADER {
            (webm, c, Some(ErrorKind::InvalidData))
        } else if c + size >= ELEMENT_END_LIMIT {
            (webm, c, Some(ErrorKind::InvalidData))
        } else {
            doc_walk(webm, d, c, c + size)
        },
    }
}

/// Reads the EBML header; `webm` is set from its document type.
pub fn parse_ebml_header(io: &mut IoContext, webm: &mut bool) -> (r: TaoResult<()>)
    requires
        walkable(*old(io)),
    ensures
        final(io).contents() == old(io).contents(),
        walk_done(ebml_head(*old(webm), old(io).contents(), old(io).cursor() as int), *final(webm), *final(io), r),
{
    let ghost d = io.contents();
    let (id, size, _) = read_element_header(io)?;
    if id != EBML_HEADER {
        return Err(invalid_data("not a valid EBML/Matroska file"));
    }
    let c = io.tell() as u64;
    if size >= ELEMENT_END_LIMIT - c {
        return Err(invalid_data("MKV: element size out of range"));
    }
    let ghost w0 = *webm;
    let end = c + size;
    while (io.tell() as u64) < end
        invariant
            io.contents() == d,
            d == old(io).contents(),
            walkable(*io),
            end < ELEMENT_END_LIMIT,
            ebml_head(*old(webm), d, old(io).cursor() as int) == doc_walk(*webm, d, io.cursor() as int, end as int),
        decreases ELEMENT_END_LIMIT - io.cursor(),
    {
        let p = io.tell() as u64;
        let (eid, esize, _) = read_element_header(io)?;
        let c = io.tell() as u64;
        if c <= p || esize >= ELEMENT_END_LIMIT - c {
            return Err(invalid_data("MKV: element size out of range"));
        }
        if eid == EBML_DOC_TYPE {
            let doc_type = read_string(io, esize)?;
            *webm = str_eq(doc_type.as_str(), "webm");
        } else {
            io.skip(esize as usize)?;
        }
    }
    Ok(())
}

/// Reads a segment information element of `size` bytes into the time scale
/// and the duration.
pub fn parse_segment_info(io: &mut IoContext, size: u64, timescale: &mut u64, duration: &mut Option<(u8, u64)>) -> (r: TaoResult<()>)
    requires
        walkable(*old(io)),
        old(io).cursor() + size < ELEMENT_END_LIMIT,
    ensures
        final(io).contents() == old(io).contents(),
        ({
            let w = info_walk(
                (*old(timescale), *old(duration)),
                old(io).contents(),
                old(io).cursor() as int,
                old(io).cursor() + size,
            );
            match w.2 {
                None => r is Ok && *final(timescale) == w.0.0 && *final(duration) == w.0.1
                    && final(io).cursor() == w.1,
                Some(k) => r is Err && r->Err_0.kind() == k,
            }
        }),
{
    let ghost d = io.contents();
    let ghost p0 = io.cursor() as int;
    let end = io.tell() as u64 + size;
    while (io.tell() as u64) < end
        invariant
            io.contents() == d,
            d == old(io).contents(),
            p0 == old(io).cursor(),
            end == old(io).cursor() + size,
            walkable(*io),
            end < ELEMENT_END_LIMIT,
            info_walk((*old(timescale), *old(duration)), d, p0, end as int) == info_walk(
                (*timescale, *duration),
                d,
                io.cursor() as int,
                end as int,
            ),
        decreases ELEMENT_END_LIMIT - io.cursor(),
    {
        let p = io.tell() as u64;
        let (eid, esize, _) = read_element_header(io)?;
        let c = io.tell() as u64;
        if c <= p || esize >= ELEMENT_END_LIMIT - c {
            return Err(invalid_data("MKV: element size out of range"));
        }
        if eid == INFO_TIMESCALE {
            *timescale = read_uint(io, esize)?;
        } else if eid == INFO_DURATION {
            *duration = Some(read_float_bits(io, esize)?);
        } else if eid == INFO_TITLE || eid == INFO_MUXING_APP || eid == INFO_WRITING_APP {
            let _s = read_string(io, esize)?;
        } else {
            io.skip(esize as usize)?;
        }
    }
    Ok(())
}

} // verus!
