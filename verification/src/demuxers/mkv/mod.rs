//! Matroska / WebM: an EBML document whose Segment holds segment
//! information, the track list and clusters of timestamped blocks.

pub mod ebml;
pub mod segment;
pub mod cluster;

use vstd::prelude::*;
use crate::error::{ErrorKind, TaoError, TaoResult, invalid_data, not_implemented};
use crate::io::{IoContext, SeekFrom};
use crate::media::{
    AudioStreamParams, ChannelLayout, CodecId, MediaType, Packet, PixelFormat, Rational, SampleFormat, SeekFlags,
    Stream, StreamParams, VideoStreamParams,
};
use crate::demuxer::{Demuxer, io_in_range};
use crate::text::str_eq;
use crate::demuxers::mkv::ebml::{Hdr, hdr_at, read_element_header, SEGMENT, EBML_UNKNOWN_SIZE, SEGMENT_INFO, TRACKS, CLUSTER};
use crate::demuxers::mkv::cluster::{Block, BlockView, cluster_walk, read_in_cluster};
use crate::demuxers::mkv::segment::{
    ELEMENT_END_LIMIT, Head, MkvTrack, Step, TrackView, ebml_head, scan_walk, walkable, parse_ebml_header,
    parse_segment_info, parse_tracks,
};
use crate::probe::{FormatProbe, ProbeScore, SCORE_EXTENSION, SCORE_MAX, str_views, ext_lower_in, filename_lower_ext_in};
use crate::format_id::FormatId;

verus! {

/// What the Matroska probe answers.
pub open spec fn mkv_probe_score(d: Seq<u8>, filename: Option<&str>) -> Option<ProbeScore> {
    if d.len() >= 4 && d[0] == 0x1A && d[1] == 0x45 && d[2] == 0xDF && d[3] == 0xA3 {
        Some(SCORE_MAX)
    } else if ext_lower_in(filename, seq!["mkv"@, "mka"@, "webm"@]) {
        Some(SCORE_EXTENSION)
    } else {
        None
    }
}

/// Recogniser of Matroska and WebM files.
pub struct MkvProbe;

impl FormatProbe for MkvProbe {
    fn probe(&self, data: &[u8], filename: Option<&str>) -> (r: Option<ProbeScore>)
        ensures
            r == mkv_probe_score(data@, filename),
    {
        if data.len() >= 4 && data[0] == 0x1A && data[1] == 0x45 && data[2] == 0xDF && data[3] == 0xA3 {
            return Some(SCORE_MAX);
        }
        let exts: [&str; 3] = ["mkv", "mka", "webm"];
        assert(str_views(exts@) =~= seq!["mkv"@, "mka"@, "webm"@]);
        if filename_lower_ext_in(filename, exts.as_slice()) {
            return Some(SCORE_EXTENSION);
        }
        None
    }

    fn format_id(&self) -> (r: FormatId)
        ensures
            r == FormatId::Matroska,
    {
        FormatId::Matroska
    }
}

/// The codec of a Matroska codec ID.
pub open spec fn mkv_codec(s: Seq<char>) -> CodecId {
    if s == "V_MPEG4/ISO/AVC"@ {
        CodecId::H264
    } else if s == "V_MPEGH/ISO/HEVC"@ {
        CodecId::H265
    } else if s == "V_VP8"@ {
        CodecId::Vp8
    } else if s == "V_VP9"@ {
        CodecId::Vp9
    } else if s == "V_AV1"@ {
        CodecId::Av1
    } else if s == "V_MPEG4/ISO/SP"@ {
        CodecId::Mpeg4
    } else if s == "V_MPEG4/ISO/ASP"@ {
        CodecId::Mpeg4
    } else if s == "V_MPEG4/ISO/AP"@ {
        CodecId::Mpeg4
    } else if s == "V_MPEG1"@ {
        CodecId::Mpeg1Video
    } else if s == "V_MPEG2"@ {
        CodecId::Mpeg2Video
    } else if s == "V_THEORA"@ {
        CodecId::Theora
    } else if s == "V_MS/VFW/FOURCC"@ {
        CodecId::RawVideo
    } else if s == "A_AAC"@ {
        CodecId::Aac
    } else if s == "A_MPEG/L3"@ {
        CodecId::Mp3
    } else if s == "A_MPEG/L2"@ {
        CodecId::Mp2
    } else if s == "A_OPUS"@ {
        CodecId::Opus
    } else if s == "A_OPUS/EXPERIMENTAL"@ {
        CodecId::Opus
    } else if s == "A_VORBIS"@ {
        CodecId::Vorbis
    } else if s == "A_FLAC"@ {
        CodecId::Flac
    } else if s == "A_ALAC"@ {
        CodecId::Alac
    } else if s == "A_AC3"@ {
        CodecId::Ac3
    } else if s == "A_EAC3"@ {
        CodecId::Eac3
    } else if s == "A_DTS"@ {
        CodecId::Dts
    } else if s == "A_PCM/INT/LIT"@ {
        CodecId::PcmS16le
    } else if s == "A_PCM/INT/BIG"@ {
        CodecId::PcmS16be
    } else if s == "A_PCM/FLOAT/IEEE"@ {
        CodecId::PcmF32le
    } else if s == "S_TEXT/UTF8"@ {
        CodecId::Ass
    } else if s == "S_TEXT/SSA"@ {
        CodecId::Ass
    } else if s == "S_TEXT/ASS"@ {
        CodecId::Ass
    } else if s == "S_TEXT/WEBVTT"@ {
        CodecId::Webvtt
    } else {
        CodecId::Unknown
    }
}

/// The codec of a Matroska codec ID.
pub fn mkv_codec_to_id(codec_str: &str) -> (r: CodecId)
    ensures
        r == mkv_codec(codec_str@),
{
    if str_eq(codec_str, "V_MPEG4/ISO/AVC") {
        CodecId::H264
    } else if str_eq(codec_str, "V_MPEGH/ISO/HEVC") {
        CodecId::H265
    } else if str_eq(codec_str, "V_VP8") {
        CodecId::Vp8
    } else if str_eq(codec_str, "V_VP9") {
        CodecId::Vp9
    } else if str_eq(codec_str, "V_AV1") {
        CodecId::Av1
    } else if str_eq(codec_str, "V_MPEG4/ISO/SP") {
        CodecId::Mpeg4
    } else if str_eq(codec_str, "V_MPEG4/ISO/ASP") {
        CodecId::Mpeg4
    } else if str_eq(codec_str, "V_MPEG4/ISO/AP") {
        CodecId::Mpeg4
    } else if str_eq(codec_str, "V_MPEG1") {
        CodecId::Mpeg1Video
    } else if str_eq(codec_str, "V_MPEG2") {
        CodecId::Mpeg2Video
    } else if str_eq(codec_str, "V_THEORA") {
        CodecId::Theora
    } else if str_eq(codec_str, "V_MS/VFW/FOURCC") {
        CodecId::RawVideo
    } else if str_eq(codec_str, "A_AAC") {
        CodecId::Aac
    } else if str_eq(codec_str, "A_MPEG/L3") {
        CodecId::Mp3
    } else if str_eq(codec_str, "A_MPEG/L2") {
        CodecId::Mp2
    } else if str_eq(codec_str, "A_OPUS") {
        CodecId::Opus
    } else if str_eq(codec_str, "A_OPUS/EXPERIMENTAL") {
        CodecId::Opus
    } else if str_eq(codec_str, "A_VORBIS") {
        CodecId::Vorbis
    } else if str_eq(codec_str, "A_FLAC") {
        CodecId::Flac
    } else if str_eq(codec_str, "A_ALAC") {
        CodecId::Alac
    } else if str_eq(codec_str, "A_AC3") {
        CodecId::Ac3
    } else if str_eq(codec_str, "A_EAC3") {
        CodecId::Eac3
    } else if str_eq(codec_str, "A_DTS") {
        CodecId::Dts
    } else if str_eq(codec_str, "A_PCM/INT/LIT") {
        CodecId::PcmS16le
    } else if str_eq(codec_str, "A_PCM/INT/BIG") {
        CodecId::PcmS16be
    } else if str_eq(codec_str, "A_PCM/FLOAT/IEEE") {
        CodecId::PcmF32le
    } else if str_eq(codec_str, "S_TEXT/UTF8") {
        CodecId::Ass
    } else if str_eq(codec_str, "S_TEXT/SSA") {
        CodecId::Ass
    } else if str_eq(codec_str, "S_TEXT/ASS") {
        CodecId::Ass
    } else if str_eq(codec_str, "S_TEXT/WEBVTT") {
        CodecId::Webvtt
    } else {
        CodecId::Unknown
    }
}

/// The whole part of a positive float given as its width (4 or 8 bytes)
/// and bits, as a 32-bit value (saturating); 48000 for a float that is not
/// positive (zero, negative or NaN).
pub open spec fn float_rate(f: (u8, u64)) -> u32 {
    let (w, b) = f;
    if w == 8 {
        let e = (b >> 52u64) & 0x7FF;
        let m = b & 0xF_FFFF_FFFF_FFFF;
        if (b >> 63u64) == 1 || (e == 0 && m == 0) || (e == 0x7FF && m != 0) {
            48000
        } else if e == 0x7FF || e >= 1055 {
            u32::MAX
        } else if e < 1023 {
            0
        } else {
            ((m | 0x10_0000_0000_0000) >> ((1075 - e) as u64)) as u32
        }
    } else if w == 4 {
        let e = (b >> 23u64) & 0xFF;
        let m = b & 0x7F_FFFF;
        if ((b >> 31u64) & 1) == 1 || (e == 0 && m == 0) || (e == 0xFF && m != 0) {
            48000
        } else if e == 0xFF || e >= 159 {
            u32::MAX
        } else if e < 127 {
            0
        } else if e <= 150 {
            ((m | 0x80_0000) >> ((150 - e) as u64)) as u32
        } else {
            ((m | 0x80_0000) << ((e - 150) as u64)) as u32
        }
    } else {
        48000
    }
}

/// The sample rate a sampling frequency float gives (see `float_rate`).
pub fn sample_rate_of(f: (u8, u64)) -> (r: u32)
    ensures
        r == float_rate(f),
{
    let (w, b) = f;
    if w == 8 {
        let e = (b >> 52u64) & 0x7FF;
        let m = b & 0xF_FFFF_FFFF_FFFF;
        if (b >> 63u64) == 1 || (e == 0 && m == 0) || (e == 0x7FF && m != 0) {
            48000
        } else if e == 0x7FF || e >= 1055 {
            u32::MAX
        } else if e < 1023 {
            0
        } else {
            ((m | 0x10_0000_0000_0000) >> (1075 - e)) as u32
        }
    } else if w == 4 {
        let e = (b >> 23u64) & 0xFF;
        let m = b & 0x7F_FFFF;
        if ((b >> 31u64) & 1) == 1 || (e == 0 && m == 0) || (e == 0xFF && m != 0) {
            48000
        } else if e == 0xFF || e >= 159 {
            u32::MAX
        } else if e < 127 {
            0
        } else if e <= 150 {
            ((m | 0x80_0000) >> (150 - e)) as u32
        } else {
            ((m | 0x80_0000) << (e - 150)) as u32
        }
    } else {
        48000
    }
}

/// The frame rate a default frame duration (in ns) gives: 10^12 / duration
/// (saturating) over 1000; 0/1 without a default duration.
pub open spec fn frame_rate_of(dd: u64) -> Rational {
    if dd > 0 {
        let f = 1_000_000_000_000nat / (dd as nat);
        Rational { num: (if f > i32::MAX { i32::MAX as int } else { f as int }) as i32, den: 1000 }
    } else {
        Rational { num: 0, den: 1 }
    }
}

/// The media type of a Matroska track type (1 video, 2 audio, 17
/// subtitles).
pub open spec fn track_media_type(kind: u64) -> MediaType {
    if kind == 1 {
        MediaType::Video
    } else if kind == 2 {
        MediaType::Audio
    } else if kind == 17 {
        MediaType::Subtitle
    } else {
        MediaType::Data
    }
}

/// The stream parameters of a track.
pub open spec fn track_params(t: TrackView) -> StreamParams {
    if t.kind == 1 {
        StreamParams::Video(
            VideoStreamParams {
                width: t.width,
                height: t.height,
                pixel_format: PixelFormat::Yuv420p,
                frame_rate: frame_rate_of(t.default_duration),
                sample_aspect_ratio: Rational { num: 1, den: 1 },
                bit_rate: 0,
            },
        )
    } else if t.kind == 2 {
        StreamParams::Audio(
            AudioStreamParams {
                sample_rate: float_rate(t.freq),
                channel_layout: ChannelLayout { channels: if t.channels > 0 { t.channels } else { 2 } },
                sample_format: SampleFormat::F32,
                bit_rate: 0,
                frame_size: 0,
            },
        )
    } else if t.kind == 17 {
        StreamParams::Subtitle
    } else {
        StreamParams::Other
    }
}

/// Whether `s` is the stream of track `t` at `index`: time base 1/1000,
/// duration unknown (-1), codec private data as extra data.
pub open spec fn track_stream(s: Stream, t: TrackView, index: nat) -> bool {
    &&& s.index == index
    &&& s.media_type == track_media_type(t.kind)
    &&& s.codec_id == mkv_codec(t.codec)
    &&& s.params == track_params(t)
    &&& s.time_base == Rational { num: 1, den: 1000 }
    &&& s.duration == -1
    &&& s.start_time == 0
    &&& s.nb_frames == 0
    &&& s.extra_data@ == t.private
    &&& s.metadata@.len() == 0
}

/// The stream of a track.
fn make_stream(t: &MkvTrack, index: usize) -> (s: Stream)
    ensures
        track_stream(s, t@, index as nat),
{
    let (media_type, params) = if t.kind == 1 {
        let frame_rate = if t.default_duration > 0 {
            let f = 1_000_000_000_000u64 / t.default_duration;
            Rational { num: if f > 0x7FFF_FFFF { 0x7FFF_FFFF } else { f as i32 }, den: 1000 }
        } else {
            Rational { num: 0, den: 1 }
        };
        (
            MediaType::Video,
            StreamParams::Video(
                VideoStreamParams {
                    width: t.width,
                    height: t.height,
                    pixel_format: PixelFormat::Yuv420p,
                    frame_rate,
                    sample_aspect_ratio: Rational { num: 1, den: 1 },
                    bit_rate: 0,
                },
            ),
        )
    } else if t.kind == 2 {
        (
            MediaType::Audio,
            StreamParams::Audio(
                AudioStreamParams {
                    sample_rate: sample_rate_of(t.freq),
                    channel_layout: ChannelLayout::from_channels(if t.channels > 0 { t.channels } else { 2 }),
                    sample_format: SampleFormat::F32,
                    bit_rate: 0,
                    frame_size: 0,
                },
            ),
        )
    } else if t.kind == 17 {
        (MediaType::Subtitle, StreamParams::Subtitle)
    } else {
        (MediaType::Data, StreamParams::Other)
    };
    Stream {
        index,
        media_type,
        codec_id: mkv_codec_to_id(t.codec.as_str()),
        time_base: Rational { num: 1, den: 1000 },
        duration: -1,
        start_time: 0,
        nb_frames: 0,
        extra_data: t.private.clone(),
        params,
        metadata: Vec::new(),
    }
}


/// What `open` reads from `p`: the EBML header (whether the document is
/// WebM), the Segment header, then the Segment's top-level elements (see
/// `scan_walk`). Gives the WebM flag, the head, where the Segment's content
/// starts and ends (the largest offset for an unknown size), the cursor and
/// how it ended.
pub open spec fn mkv_open(webm0: bool, h0: Head, d: Seq<u8>, p: int) -> (bool, Head, u64, u64, int, Step) {
    let (webm, q, s) = ebml_head(webm0, d, p);
    if s is Some {
        (webm, h0, 0, 0, q, s)
    } else {
        match hdr_at(d, q) {
            Hdr::Bad(k, q2) => (webm, h0, 0, 0, q2, Some(k)),
            Hdr::Got(id, size, c) => if id != SEGMENT || c >= ELEMENT_END_LIMIT {
                (webm, h0, 0, 0, c, Some(ErrorKind::InvalidData))
            } else {
                let seg_end: u64 = if size == EBML_UNKNOWN_SIZE || c + size > u64::MAX { u64::MAX } else { (c + size) as u64 };
                let (h, cur, s2) = scan_walk(h0, d, c, seg_end as int);
                (webm, h, c as u64, seg_end, cur, s2)
            },
        }
    }
}

/// One step of the scan over the Segment's top-level elements (see
/// `scan_walk`): `Ok(true)` when the scan goes on from the new cursor,
/// `Ok(false)` when it stops there.
fn scan_element(
    io: &mut IoContext,
    end: u64,
    timescale: &mut u64,
    duration: &mut Option<(u8, u64)>,
    tracks: &mut Vec<MkvTrack>,
) -> (r: TaoResult<bool>)
    requires
        walkable(*old(io)),
        old(io).cursor() < end,
    ensures
        final(io).contents() == old(io).contents(),
        ({
            let d = old(io).contents();
            let w = scan_walk(
                Head { timescale: *old(timescale), duration: *old(duration), tracks: old(tracks)@.map_values(|t: MkvTrack| t@) },
                d,
                old(io).cursor() as int,
                end as int,
            );
            let h = Head { timescale: *final(timescale), duration: *final(duration), tracks: final(tracks)@.map_values(|t: MkvTrack| t@) };
            match r {
                Ok(true) => walkable(*final(io)) && final(io).cursor() > old(io).cursor() && scan_walk(h, d, final(io).cursor() as int, end as int) == w,
                Ok(false) => w.2 is None && w.0 == h && w.1 == final(io).cursor(),
                Err(e) => w.2 == Some(e.kind()),
            }
        }),
{
    let pos = io.tell() as u64;
    let (eid, esize, _) = match read_element_header(io) {
        Ok(v) => v,
        Err(e) => {
            if let TaoError::Eof = e {
                return Ok(false);
            }
            return Err(e);
        },
    };
    let cc = io.tell() as u64;
    if eid == CLUSTER {
        io.seek(SeekFrom::Start(pos))?;
        return Ok(false);
    } else if eid == SEGMENT_INFO || eid == TRACKS {
        if cc <= pos || esize >= ELEMENT_END_LIMIT - cc {
            return Err(invalid_data("MKV: element size out of range"));
        }
        if eid == SEGMENT_INFO {
            parse_segment_info(io, esize, timescale, duration)?;
        } else {
            parse_tracks(io, esize, tracks)?;
        }
        let q = io.tell() as u64;
        if q <= pos || q >= ELEMENT_END_LIMIT {
            return Err(invalid_data("MKV: element size out of range"));
        }
    } else if esize == EBML_UNKNOWN_SIZE {
        return Ok(false);
    } else {
        if cc <= pos || esize >= ELEMENT_END_LIMIT - cc {
            return Err(invalid_data("MKV: element size out of range"));
        }
        io.skip(esize as usize)?;
    }
    Ok(true)
}

/// Scans the Segment's top-level elements from the cursor to `end` (see
/// `scan_walk`), into the time scale, the duration and the tracks.
fn scan_segment(
    io: &mut IoContext,
    end: u64,
    timescale: &mut u64,
    duration: &mut Option<(u8, u64)>,
    tracks: &mut Vec<MkvTrack>,
) -> (r: TaoResult<()>)
    requires
        walkable(*old(io)),
    ensures
        final(io).contents() == old(io).contents(),
        ({
            let w = scan_walk(
                Head { timescale: *old(timescale), duration: *old(duration), tracks: old(tracks)@.map_values(|t: MkvTrack| t@) },
                old(io).contents(),
                old(io).cursor() as int,
                end as int,
            );
            let h = Head { timescale: *final(timescale), duration: *final(duration), tracks: final(tracks)@.map_values(|t: MkvTrack| t@) };
            match w.2 {
                None => r is Ok && w.0 == h && w.1 == final(io).cursor(),
                Some(k) => r is Err && r->Err_0.kind() == k,
            }
        }),
{
    let ghost d = io.contents();
    let ghost w = scan_walk(
        Head { timescale: *timescale, duration: *duration, tracks: tracks@.map_values(|t: MkvTrack| t@) },
        d,
        io.cursor() as int,
        end as int,
    );
    loop
        invariant
            io.contents() == d,
            d == old(io).contents(),
            walkable(*io),
            w == scan_walk(
                Head { timescale: *old(timescale), duration: *old(duration), tracks: old(tracks)@.map_values(|t: MkvTrack| t@) },
                d,
                old(io).cursor() as int,
                end as int,
            ),
            w == scan_walk(
                Head { timescale: *timescale, duration: *duration, tracks: tracks@.map_values(|t: MkvTrack| t@) },
                d,
                io.cursor() as int,
                end as int,
            ),
        decreases ELEMENT_END_LIMIT - io.cursor(),
    {
        if (io.tell() as u64) >= end {
            return Ok(());
        }
        if !scan_element(io, end, timescale, duration, tracks)? {
            return Ok(());
        }
    }
}

/// The reading state: inside a Cluster or not, the Cluster's bytes left and
/// its timestamp.
pub type ReadState = (bool, u64, i64);

/// What `read_packet` reads from `p`: inside a Cluster, its next block (see
/// `cluster_walk`); when the Cluster has none left, the next top-level
/// element: a Cluster is entered (its size, all of the rest for an unknown
/// size, and timestamp 0), anything else is skipped; `Eof` at the Segment's
/// end, at an element of unknown size other than a Cluster, or when the
/// data ends. Gives the state, the cursor and the block or the error.
pub open spec fn read_walk(st: ReadState, ts: u64, seg_end: u64, d: Seq<u8>, p: int) -> (ReadState, int, Result<
    BlockView,
    ErrorKind,
>)
    decreases ELEMENT_END_LIMIT - p, (if st.0 { 1int } else { 0int }),
{
    if st.0 {
        let (rem, cts, q, out) = cluster_walk(st.1, st.2, ts, d, p);
        match out {
            Some(Ok(b)) => ((true, rem, cts), q, Ok(b)),
            Some(Err(k)) => ((true, rem, cts), q, Err(k)),
            None => if q < p || q >= ELEMENT_END_LIMIT {
                ((false, rem, cts), q, Err(ErrorKind::InvalidData))
            } else {
                read_walk((false, rem, cts), ts, seg_end, d, q)
            },
        }
    } else if p >= seg_end {
        (st, p, Err(ErrorKind::Eof))
    } else {
        match hdr_at(d, p) {
            Hdr::Bad(k, q) => (st, q, Err(k)),
            Hdr::Got(id, size, c) => if c <= p || c >= ELEMENT_END_LIMIT {
                (st, c, Err(ErrorKind::InvalidData))
            } else if id == CLUSTER {
                read_walk((true, if size == EBML_UNKNOWN_SIZE { u64::MAX } else { size }, 0), ts, seg_end, d, c)
            } else if size == EBML_UNKNOWN_SIZE {
                (st, c, Err(ErrorKind::Eof))
            } else if c + size >= ELEMENT_END_LIMIT {
                (st, c, Err(ErrorKind::InvalidData))
            } else {
                read_walk(st, ts, seg_end, d, c + size)
            },
        }
    }
}

/// The stream of a track number: the first mapping's, 0 when none.
pub open spec fn track_index(map: Seq<(u64, usize)>, tn: u64) -> usize
    decreases map.len(),
{
    if map.len() == 0 {
        0
    } else if map[0].0 == tn {
        map[0].1
    } else {
        track_index(map.drop_first(), tn)
    }
}

/// Whether `pkt` is block `b` read by a reader in state `v`: its stream
/// from the track number, its time base that stream's (0/1 when there is
/// no such stream).
pub open spec fn block_packet(pkt: Packet, b: BlockView, v: MkvView) -> bool {
    let idx = track_index(v.track_map, b.track);
    &&& pkt.payload() == b.data
    &&& pkt.stream_index == idx
    &&& pkt.pts == b.pts
    &&& pkt.dts == b.pts
    &&& pkt.is_keyframe == b.key
    &&& pkt.duration == 0
    &&& pkt.pos == -1
    &&& pkt.time_base == (if idx < v.streams.len() { v.streams[idx as int].time_base } else { Rational { num: 0, den: 1 } })
}

/// The state of a Matroska reader.
pub struct MkvView {
    pub streams: Seq<Stream>,
    pub track_map: Seq<(u64, usize)>,
    pub timescale: u64,
    pub duration: Option<(u8, u64)>,
    pub segment_offset: u64,
    pub segment_end: u64,
    pub cluster_timestamp: i64,
    pub cluster_remaining: u64,
    pub in_cluster: bool,
    pub webm: bool,
}

/// A Matroska / WebM reader.
pub struct MkvDemuxer {
    streams: Vec<Stream>,
    /// Track number and stream index of each track.
    track_map: Vec<(u64, usize)>,
    /// Nanoseconds per timestamp tick.
    timescale_ns: u64,
    /// The segment duration in ticks, as a float's width and bits.
    duration: Option<(u8, u64)>,
    segment_offset: u64,
    segment_end: u64,
    cluster_timestamp: i64,
    cluster_remaining: u64,
    in_cluster: bool,
    is_webm: bool,
    metadata: Vec<(String, String)>,
}

impl View for MkvDemuxer {
    type V = MkvView;

    closed spec fn view(&self) -> MkvView {
        MkvView {
            streams: self.streams@,
            track_map: self.track_map@,
            timescale: self.timescale_ns,
            duration: self.duration,
            segment_offset: self.segment_offset,
            segment_end: self.segment_end,
            cluster_timestamp: self.cluster_timestamp,
            cluster_remaining: self.cluster_remaining,
            in_cluster: self.in_cluster,
            webm: self.is_webm,
        }
    }
}

impl MkvDemuxer {
    /// A reader before `open`: no streams, a tick of 1 ms, the Segment
    /// unbounded.
    pub fn new() -> (r: Self)
        ensures
            r@ == (MkvView {
                streams: Seq::empty(),
                track_map: Seq::empty(),
                timescale: 1_000_000,
                duration: None,
                segment_offset: 0,
                segment_end: u64::MAX,
                cluster_timestamp: 0,
                cluster_remaining: 0,
                in_cluster: false,
                webm: false,
            }),
    {
        MkvDemuxer {
            streams: Vec::new(),
            track_map: Vec::new(),
            timescale_ns: 1_000_000,
            duration: None,
            segment_offset: 0,
            segment_end: u64::MAX,
            cluster_timestamp: 0,
            cluster_remaining: 0,
            in_cluster: false,
            is_webm: false,
            metadata: Vec::new(),
        }
    }

    /// A boxed reader, for a registry.
    pub fn create() -> (r: TaoResult<Box<dyn Demuxer>>)
        ensures
            r matches Ok(m) && m.format_kind() == FormatId::Matroska,
    {
        Ok(Box::new(MkvDemuxer::new()))
    }

    /// The segment duration in ticks as a float's width (0, 4 or 8 bytes)
    /// and bits, when the segment information gave one; with the time scale
    /// (ns per tick) it gives the duration.
    pub fn duration_bits(&self) -> (r: Option<(u8, u64)>)
        ensures
            r == self@.duration,
    {
        self.duration
    }

    /// Container metadata (none is read).
    pub closed spec fn meta(&self) -> Seq<(String, String)> {
        self.metadata@
    }

    /// Nanoseconds per timestamp tick.
    pub fn timescale(&self) -> (r: u64)
        ensures
            r == self@.timescale,
    {
        self.timescale_ns
    }

    /// What `open` does: reads as `mkv_open` says from the cursor, starting
    /// from the reader's WebM flag, time scale and duration; fails as the
    /// walk fails, or with `InvalidData` when no stream is known after it.
    /// On success it adds a stream per track (see `track_stream`), maps each
    /// track number to its stream, and leaves the cursor where the walk
    /// stopped (at the first Cluster's header when there is one).
    pub open spec fn open_post(old_self: MkvView, new_self: MkvView, old_io: IoContext, new_io: IoContext, r: TaoResult<()>) -> bool {
        let (webm, h, so, se, cur, s) = mkv_open(
            old_self.webm,
            Head { timescale: old_self.timescale, duration: old_self.duration, tracks: Seq::empty() },
            old_io.contents(),
            old_io.cursor() as int,
        );
        let n = old_self.streams.len();
        let m = h.tracks.len();
        &&& new_io.contents() == old_io.contents()
        &&& match s {
            Some(k) => r is Err && r->Err_0.kind() == k,
            None => if n + m == 0 {
                r is Err && r->Err_0.kind() == ErrorKind::InvalidData
            } else {
                &&& r is Ok
                &&& new_io.cursor() == cur
                &&& new_self.webm == webm
                &&& new_self.timescale == h.timescale
                &&& new_self.duration == h.duration
                &&& new_self.segment_offset == so
                &&& new_self.segment_end == se
                &&& new_self.cluster_timestamp == old_self.cluster_timestamp
                &&& new_self.cluster_remaining == old_self.cluster_remaining
                &&& new_self.in_cluster == old_self.in_cluster
                &&& new_self.streams.len() == n + m
                &&& new_self.streams.subrange(0, n as int) == old_self.streams
                &&& forall|j: int| 0 <= j < m ==> track_stream(#[trigger] new_self.streams[n + j], h.tracks[j], (n + j) as nat)
                &&& new_self.track_map == old_self.track_map + Seq::new(m, |j: int| (h.tracks[j].number, (n + j) as usize))
            },
        }
    }

    /// What `read_packet` does: reads as `read_walk` says from the cursor
    /// and the reader's Cluster state; on success the packet is the block's
    /// (see `block_packet`), the reader keeps the new Cluster state and the
    /// cursor is after the block. An error is of the kind the walk gives.
    pub open spec fn read_post(old_self: MkvView, new_self: MkvView, old_io: IoContext, new_io: IoContext, r: TaoResult<Packet>) -> bool {
        let (st, q, res) = read_walk(
            (old_self.in_cluster, old_self.cluster_remaining, old_self.cluster_timestamp),
            old_self.timescale,
            old_self.segment_end,
            old_io.contents(),
            old_io.cursor() as int,
        );
        &&& new_io.contents() == old_io.contents()
        &&& match res {
            Err(k) => r is Err && r->Err_0.kind() == k,
            Ok(b) => r matches Ok(pkt) && block_packet(pkt, b, old_self) && new_io.cursor() == q
                && new_self == (MkvView { in_cluster: st.0, cluster_remaining: st.1, cluster_timestamp: st.2, ..old_self }),
        }
    }

    /// The stream of a track number (see `track_index`).
    fn find_stream_index(&self, track_number: u64) -> (r: usize)
        ensures
            r == track_index(self@.track_map, track_number),
    {
        let mut i: usize = 0;
        assert(self@.track_map.subrange(0, self@.track_map.len() as int) =~= self@.track_map);
        while i < self.track_map.len()
            invariant
                i <= self.track_map@.len(),
                track_index(self@.track_map, track_number) == track_index(
                    self@.track_map.subrange(i as int, self@.track_map.len() as int),
                    track_number,
                ),
            decreases self.track_map.len() - i,
        {
            let ghost rest = self@.track_map.subrange(i as int, self@.track_map.len() as int);
            assert(rest.drop_first() =~= self@.track_map.subrange(i + 1, self@.track_map.len() as int));
            if self.track_map[i].0 == track_number {
                return self.track_map[i].1;
            }
            i = i + 1;
        }
        assert(self@.track_map.subrange(i as int, self@.track_map.len() as int).len() == 0);
        0
    }

    /// The packet of a block.
    fn block_to_packet(&self, b: Block) -> (pkt: Packet)
        ensures
            block_packet(pkt, b@, self@),
    {
        let idx = self.find_stream_index(b.track);
        let mut pkt = Packet::from_vec(b.data);
        pkt.stream_index = idx;
        pkt.pts = b.pts;
        pkt.dts = b.pts;
        pkt.is_keyframe = b.key;
        if idx < self.streams.len() {
            pkt.time_base = self.streams[idx].time_base;
        }
        pkt
    }

    /// Reads the next block as a packet.
    pub fn read_mkv_packet(&mut self, io: &mut IoContext) -> (r: TaoResult<Packet>)
        requires
            io_in_range(*old(io)),
        ensures
            Self::read_post(old(self)@, final(self)@, *old(io), *final(io), r),
    {
        let ghost d = io.contents();
        let ghost w = read_walk(
            (self.in_cluster, self.cluster_remaining, self.cluster_timestamp),
            self.timescale_ns,
            self.segment_end,
            d,
            io.cursor() as int,
        );
        if io.tell() as u64 >= ELEMENT_END_LIMIT {
            return Err(invalid_data("MKV: position out of range"));
        }
        loop
            invariant
                io.contents() == d,
                d == old(io).contents(),
                walkable(*io),
                self@ == (MkvView { in_cluster: self.in_cluster, cluster_remaining: self.cluster_remaining, cluster_timestamp: self.cluster_timestamp, ..old(self)@ }),
                w == read_walk(
                    (old(self)@.in_cluster, old(self)@.cluster_remaining, old(self)@.cluster_timestamp),
                    old(self)@.timescale,
                    old(self)@.segment_end,
                    d,
                    old(io).cursor() as int,
                ),
                w == read_walk(
                    (self.in_cluster, self.cluster_remaining, self.cluster_timestamp),
                    self.timescale_ns,
                    self.segment_end,
                    d,
                    io.cursor() as int,
                ),
            decreases ELEMENT_END_LIMIT - io.cursor(), (if self.in_cluster { 1int } else { 0int }),
        {
            if self.in_cluster {
                let p = io.tell() as u64;
                let mut rem = self.cluster_remaining;
                let mut cts = self.cluster_timestamp;
                let got = read_in_cluster(io, &mut rem, &mut cts, self.timescale_ns);
                self.cluster_remaining = rem;
                self.cluster_timestamp = cts;
                match got {
                    Err(e) => {
                        return Err(e);
                    },
                    Ok(Some(b)) => {
                        return Ok(self.block_to_packet(b));
                    },
                    Ok(None) => {},
                }
                self.in_cluster = false;
                let q = io.tell() as u64;
                if q < p || q >= ELEMENT_END_LIMIT {
                    return Err(invalid_data("MKV: position out of range"));
                }
            } else {
                let p = io.tell() as u64;
                if p >= self.segment_end {
                    return Err(TaoError::Eof);
                }
                let (eid, esize, _) = read_element_header(io)?;
                let c = io.tell() as u64;
                if c <= p || c >= ELEMENT_END_LIMIT {
                    return Err(invalid_data("MKV: position out of range"));
                }
                if eid == CLUSTER {
                    self.in_cluster = true;
                    self.cluster_remaining = if esize == EBML_UNKNOWN_SIZE { u64::MAX } else { esize };
                    self.cluster_timestamp = 0;
                } else if esize == EBML_UNKNOWN_SIZE {
                    return Err(TaoError::Eof);
                } else {
                    if esize >= ELEMENT_END_LIMIT - c {
                        return Err(invalid_data("MKV: element size out of range"));
                    }
                    io.skip(esize as usize)?;
                }
            }
        }
    }

    /// Opens the file: reads the EBML header, the Segment header and the
    /// Segment's elements up to the first Cluster.
    pub fn open_mkv(&mut self, io: &mut IoContext) -> (r: TaoResult<()>)
        requires
            io_in_range(*old(io)),
        ensures
            Self::open_post(old(self)@, final(self)@, *old(io), *final(io), r),
    {
        let ghost d = io.contents();
        let ghost old_v = self@;
        let mut webm = self.is_webm;
        parse_ebml_header(io, &mut webm)?;
        let (seg_id, seg_size, _) = read_element_header(io)?;
        let c = io.tell() as u64;
        if seg_id != SEGMENT || c >= ELEMENT_END_LIMIT {
            return Err(invalid_data("MKV: Segment element not found"));
        }
        let seg_end = if seg_size == EBML_UNKNOWN_SIZE || seg_size > u64::MAX - c { u64::MAX } else { c + seg_size };
        let mut timescale = self.timescale_ns;
        let mut duration = self.duration;
        let mut tracks: Vec<MkvTrack> = Vec::new();
        assert(tracks@.map_values(|t: MkvTrack| t@) =~= Seq::<TrackView>::empty());
        scan_segment(io, seg_end, &mut timescale, &mut duration, &mut tracks)?;
        let n = self.streams.len();
        if n == 0 && tracks.len() == 0 {
            return Err(invalid_data("MKV: no track found"));
        }
        let ghost tv = tracks@.map_values(|t: MkvTrack| t@);
        let mut j: usize = 0;
        while j < tracks.len()
            invariant
                j <= tracks.len(),
                n == old_v.streams.len(),
                self.cluster_timestamp == old_v.cluster_timestamp,
                self.cluster_remaining == old_v.cluster_remaining,
                self.in_cluster == old_v.in_cluster,
                tv == tracks@.map_values(|t: MkvTrack| t@),
                self.streams@.len() == n + j,
                self.streams@.subrange(0, n as int) == old_v.streams,
                forall|i: int| 0 <= i < j ==> track_stream(#[trigger] self.streams@[n + i], tv[i], (n + i) as nat),
                self.track_map@ == old_v.track_map + Seq::new(j as nat, |i: int| (tv[i].number, (n + i) as usize)),
            decreases tracks.len() - j,
        {
            let idx = self.streams.len();
            let st = make_stream(&tracks[j], idx);
            self.track_map.push((tracks[j].number, idx));
            self.streams.push(st);
            j = j + 1;
        }
        proof {
            let ghost w = mkv_open(
                old_v.webm,
                Head { timescale: old_v.timescale, duration: old_v.duration, tracks: Seq::empty() },
                d,
                old(io).cursor() as int,
            );
            assert(w.0 == webm);
            assert(w.2 == c);
            assert(w.3 == seg_end);
            assert(w.5 is None);
            assert(w.1.tracks == tv);
            assert(w.1.timescale == timescale);
        }
        self.is_webm = webm;
        self.timescale_ns = timescale;
        self.duration = duration;
        self.segment_offset = c;
        self.segment_end = seg_end;
        Ok(())
    }
}


impl Demuxer for MkvDemuxer {
    open spec fn open_admits(&self, io: IoContext) -> bool {
        true
    }

    fn open_admitted(&self, io: &IoContext) -> (b: bool)
        ensures
            b == self.open_admits(*io),
    {
        true
    }

    open spec fn format_kind(&self) -> FormatId {
        if self@.webm {
            FormatId::Webm
        } else {
            FormatId::Matroska
        }
    }

    open spec fn stream_seq(&self) -> Seq<Stream> {
        self@.streams
    }

    open spec fn seek_admits(&self, stream_index: usize, timestamp: i64) -> bool {
        true
    }

    open spec fn read_admits(&self) -> bool {
        true
    }

    fn read_admitted(&self) -> (b: bool)
        ensures
            b == self.read_admits(),
    {
        true
    }

    fn seek_admitted(&self, stream_index: usize, timestamp: i64) -> (b: bool)
        ensures
            b == self.seek_admits(stream_index, timestamp),
    {
        true
    }

    fn format_id(&self) -> (r: FormatId)
        ensures
            r == self.format_kind(),
    {
        if self.is_webm {
            FormatId::Webm
        } else {
            FormatId::Matroska
        }
    }

    fn name(&self) -> (r: &'static str)
        ensures
            r@ == (if self@.webm { "webm"@ } else { "matroska"@ }),
    {
        if self.is_webm {
            "webm"
        } else {
            "matroska"
        }
    }

    fn open(&mut self, io: &mut IoContext) -> (r: TaoResult<()>)
        ensures
            Self::open_post(old(self)@, final(self)@, *old(io), *final(io), r),
    {
        self.open_mkv(io)
    }

    fn streams(&self) -> (r: &[Stream])
        ensures
            r@ == self@.streams,
    {
        self.streams.as_slice()
    }

    fn read_packet(&mut self, io: &mut IoContext) -> (r: TaoResult<Packet>)
        ensures
            Self::read_post(old(self)@, final(self)@, *old(io), *final(io), r),
    {
        self.read_mkv_packet(io)
    }

    /// Seeking is not implemented: always `NotImplemented`, and nothing
    /// changes.
    fn seek(&mut self, io: &mut IoContext, stream_index: usize, timestamp: i64, flags: SeekFlags) -> (r: TaoResult<()>)
        ensures
            r matches Err(e) && e.kind() == ErrorKind::NotImplemented,
            *final(self) == *old(self),
            *final(io) == *old(io),
    {
        Err(not_implemented("MKV seeking is not implemented"))
    }

    fn metadata(&self) -> (r: &[(String, String)])
        ensures
            r@ == self.meta(),
    {
        self.metadata.as_slice()
    }
}

} // verus!
