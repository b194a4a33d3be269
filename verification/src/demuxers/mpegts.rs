//! MPEG transport stream: fixed 188 byte packets with a 4 byte header
//! (sync byte 0x47, flags, 13 bit PID, continuity counter), an optional
//! adaptation field and a payload carrying PSI tables or PES data.

use vstd::prelude::*;
use crate::probe::{
    FormatProbe, ProbeScore, SCORE_EXTENSION, SCORE_MAX, ext_lower_in, filename_lower_ext_in,
    str_views,
};
use crate::format_id::FormatId;
use crate::media::{
    AudioStreamParams, ChannelLayout, CodecId, MediaType, Packet, PixelFormat, Rational, SampleFormat,
    SeekFlags, Stream, StreamParams, VideoStreamParams, codec_media_type,
};
use crate::error::{ErrorKind, TaoError, TaoResult, invalid_data, not_implemented};
use crate::io::{IoContext, SeekFrom};
use crate::demuxer::{Demuxer, io_in_range};
use crate::demuxers::avi::{StreamView, stream_views};

verus! {

/// Size of a transport stream packet.
pub const TS_PACKET_SIZE: usize = 188;

/// Sync byte at the start of each packet.
pub const TS_SYNC_BYTE: u8 = 0x47;

/// Codec of a PMT stream type.
pub open spec fn stream_type_codec(st: u8) -> CodecId {
    if st == 0x01 { CodecId::Mpeg1Video }
    else if st == 0x02 { CodecId::Mpeg2Video }
    else if st == 0x1B { CodecId::H264 }
    else if st == 0x24 { CodecId::H265 }
    else if st == 0x03 || st == 0x04 { CodecId::Mp3 }
    else if st == 0x0F || st == 0x11 { CodecId::Aac }
    else if st == 0x81 { CodecId::Ac3 }
    else if st == 0x87 { CodecId::Eac3 }
    else if st == 0x86 { CodecId::Dts }
    else { CodecId::Unknown }
}

/// The stream types ISO/IEC 13818-1 assigns to audio (MPEG-1 and MPEG-2
/// audio, ADTS and LATM AAC, AC-3, DTS, E-AC-3) are exactly those read as
/// an audio codec, and its video types (MPEG-1, MPEG-2, H.264, H.265)
/// exactly those read as a video codec.
pub proof fn law_stream_type_media(st: u8)
    ensures
        (codec_media_type(stream_type_codec(st)) == MediaType::Audio) <==> (st == 0x03 || st == 0x04 || st == 0x0F
            || st == 0x11 || st == 0x81 || st == 0x86 || st == 0x87),
        (codec_media_type(stream_type_codec(st)) == MediaType::Video) <==> (st == 0x01 || st == 0x02 || st == 0x1B
            || st == 0x24),
{
}

/// Maps a PMT `stream_type` to a codec.
pub fn stream_type_to_codec(stream_type: u8) -> (r: CodecId)
    ensures
        r == stream_type_codec(stream_type),
{
    match stream_type {
        0x01 => CodecId::Mpeg1Video,
        0x02 => CodecId::Mpeg2Video,
        0x1B => CodecId::H264,
        0x24 => CodecId::H265,
        0x03 | 0x04 => CodecId::Mp3,
        0x0F => CodecId::Aac,
        0x11 => CodecId::Aac,
        0x81 => CodecId::Ac3,
        0x87 => CodecId::Eac3,
        0x86 => CodecId::Dts,
        _ => CodecId::Unknown,
    }
}

/// Header fields of a TS packet: (PID, payload unit start, adaptation
/// field control, continuity counter).
pub open spec fn ts_header(p: Seq<u8>) -> (u16, bool, u8, u8) {
    (
        ((p[1] % 32) * 256 + p[2]) as u16,
        (p[1] / 64) % 2 == 1,
        ((p[3] / 16) % 4) as u8,
        (p[3] % 16) as u8,
    )
}

/// Reads the header fields of a TS packet.
pub fn parse_ts_header(pkt: &[u8; 188]) -> (r: (u16, bool, u8, u8))
    ensures
        r == ts_header(pkt@),
{
    let b1 = pkt[1];
    let b2 = pkt[2];
    let b3 = pkt[3];
    assert(((b1 & 0x1F) as u16) << 8u16 | (b2 as u16) == (b1 % 32) * 256 + b2 && ((b1 & 0x40) != 0)
        == ((b1 / 64) % 2 == 1) && (b3 >> 4u8) & 0x03 == (b3 / 16) % 4 && b3 & 0x0F == b3 % 16)
        by (bit_vector);
    let pid = ((b1 & 0x1F) as u16) << 8u16 | (b2 as u16);
    let pusi = (b1 & 0x40) != 0;
    let afc = (b3 >> 4u8) & 0x03;
    let cc = b3 & 0x0F;
    (pid, pusi, afc, cc)
}

/// Payload offset of a TS packet and its random access indicator.
pub open spec fn ts_payload(p: Seq<u8>, afc: u8) -> (usize, bool) {
    let has_af = afc == 2 || afc == 3;
    let ra = has_af && p[4] > 0 && (p[5] / 64) % 2 == 1;
    let off = if has_af { 5 + p[4] } else { 4 };
    if afc == 1 || afc == 3 {
        (off as usize, ra)
    } else {
        (188, ra)
    }
}

/// Offset of the payload (188 when there is none) and whether the
/// adaptation field flags a random access point.
pub fn payload_offset(pkt: &[u8; 188], afc: u8) -> (r: (usize, bool))
    ensures
        r == ts_payload(pkt@, afc),
{
    let mut offset: usize = 4;
    let mut has_random_access = false;
    if afc == 2 || afc == 3 {
        let af_len = pkt[offset] as usize;
        if af_len > 0 {
            let b = pkt[offset + 1];
            has_random_access = (b & 0x40) != 0;
            assert(((b & 0x40) != 0) == ((b / 64) % 2 == 1)) by (bit_vector);
        }
        offset = offset + 1 + af_len;
    }
    if afc == 1 || afc == 3 {
        (offset, has_random_access)
    } else {
        (188, has_random_access)
    }
}

/// The 33 bit timestamp coded in five PES header bytes.
pub open spec fn pes_timestamp(b: Seq<u8>) -> int {
    ((b[0] / 2) % 8) * 0x4000_0000 + b[1] * 0x40_0000 + (b[2] / 2) * 0x8000 + b[3] * 0x80 + b[4] / 2
}

/// Decodes a 33 bit PES timestamp from its five bytes.
pub fn parse_timestamp(data: &[u8]) -> (r: i64)
    requires
        data@.len() >= 5,
    ensures
        r == pes_timestamp(data@),
{
    let b0 = data[0] as i64;
    let b1 = data[1] as i64;
    let b2 = data[2] as i64;
    let b3 = data[3] as i64;
    let b4 = data[4] as i64;
    let (c0, c1, c2, c3, c4) = (data[0], data[1], data[2], data[3], data[4]);
    assert((((c0 as i64) >> 1i64) & 0x07) << 30i64 | (c1 as i64) << 22i64 | ((c2 as i64) >> 1i64)
        << 15i64 | (c3 as i64) << 7i64 | (c4 as i64) >> 1i64 == ((c0 / 2) % 8) * 0x4000_0000 + c1
        * 0x40_0000 + (c2 / 2) * 0x8000 + c3 * 0x80 + c4 / 2) by (bit_vector);
    ((b0 >> 1i64) & 0x07) << 30i64 | b1 << 22i64 | (b2 >> 1i64) << 15i64 | b3 << 7i64 | b4 >> 1i64
}

/// The PES header reading: (pts, dts, header length), with -1 for an absent
/// timestamp; `None` when there is no PES start code.
pub open spec fn pes_header(d: Seq<u8>) -> Option<(i64, i64, usize)> {
    if d.len() < 9 || d[0] != 0 || d[1] != 0 || d[2] != 1 {
        None
    } else if d[6] / 64 != 2 {
        Some((-1i64, -1i64, 6usize))
    } else {
        let flags = (d[7] / 64) % 4;
        let header_len = 9 + d[8];
        if header_len > d.len() {
            Some((-1i64, -1i64, 9usize))
        } else {
            let pts = if flags >= 2 && d.len() >= 14 {
                pes_timestamp(d.subrange(9, 14))
            } else {
                -1
            };
            let dts = if flags == 3 && d.len() >= 19 {
                pes_timestamp(d.subrange(14, 19))
            } else {
                -1
            };
            Some((pts as i64, dts as i64, header_len as usize))
        }
    }
}

/// Parses a PES packet header.
pub fn parse_pes_header(data: &[u8]) -> (r: Option<(i64, i64, usize)>)
    ensures
        r == pes_header(data@),
{
    if data.len() < 9 || data[0] != 0x00 || data[1] != 0x00 || data[2] != 0x01 {
        return None;
    }
    let b6 = data[6];
    let b7 = data[7];
    assert(((b6 & 0xC0) != 0x80) == (b6 / 64 != 2) && (b7 >> 6u8) & 0x03 == (b7 / 64) % 4)
        by (bit_vector);
    if (b6 & 0xC0) != 0x80 {
        return Some((-1, -1, 6));
    }
    let pts_dts_flags = (b7 >> 6u8) & 0x03;
    let pes_header_data_len = data[8] as usize;
    let header_len = 9 + pes_header_data_len;
    if header_len > data.len() {
        return Some((-1, -1, if data.len() < 9 { data.len() } else { 9 }));
    }
    let mut pts: i64 = -1;
    let mut dts: i64 = -1;
    if pts_dts_flags >= 2 && data.len() >= 14 {
        pts = parse_timestamp(&data[9..14]);
    }
    if pts_dts_flags == 3 && data.len() >= 19 {
        dts = parse_timestamp(&data[14..19]);
    }
    Some((pts, dts, header_len))
}

/// Number of consecutive packet sync bytes found from `p` in 188 byte steps,
/// each with a full packet after it.
pub open spec fn ts_sync_run(d: Seq<u8>, p: int) -> nat
    decreases d.len() - p,
{
    if 0 <= p && p + 188 <= d.len() && d[p] == 0x47 {
        1 + ts_sync_run(d, p + 188)
    } else {
        0
    }
}

/// Score from the first position before `lim` that starts a run of at least
/// two synced packets.
pub open spec fn ts_scan(d: Seq<u8>, pos: int, lim: int) -> Option<ProbeScore>
    decreases lim - pos,
{
    if pos < 0 || pos >= lim {
        None
    } else if ts_sync_run(d, pos) >= 3 {
        Some(SCORE_MAX)
    } else if ts_sync_run(d, pos) == 2 {
        Some((SCORE_MAX - 10) as u32)
    } else {
        ts_scan(d, pos + 1, lim)
    }
}

/// What the transport stream probe answers.
pub open spec fn ts_probe_score(d: Seq<u8>, filename: Option<&str>) -> Option<ProbeScore> {
    let lim = if d.len() < 1024 { d.len() as int } else { 1024 };
    if d.len() >= 376 && ts_scan(d, 0, lim) is Some {
        ts_scan(d, 0, lim)
    } else if ext_lower_in(filename, seq!["ts"@, "m2ts"@, "mts"@]) {
        Some(SCORE_EXTENSION)
    } else {
        None
    }
}

/// Counts synced packets from `start`.
fn count_sync_run(data: &[u8], start: usize) -> (r: usize)
    requires
        start < data@.len(),
    ensures
        r == ts_sync_run(data@, start as int),
{
    let mut count: usize = 0;
    let mut check_pos = start;
    while check_pos <= data.len() && data.len() - check_pos >= 188
        invariant
            start <= check_pos,
            check_pos <= data@.len() + 188,
            (check_pos - start) % 188 == 0,
            count == (check_pos - start) / 188,
            count + ts_sync_run(data@, check_pos as int) == ts_sync_run(data@, start as int),
        decreases data.len() + 188 - check_pos,
    {
        if data[check_pos] == 0x47 {
            count = count + 1;
            check_pos = check_pos + 188;
        } else {
            return count;
        }
    }
    count
}

/// Recogniser of MPEG transport streams.
pub struct TsProbe;

impl FormatProbe for TsProbe {
    fn probe(&self, data: &[u8], filename: Option<&str>) -> (r: Option<ProbeScore>)
        ensures
            r == ts_probe_score(data@, filename),
    {
        if data.len() >= 376 {
            let lim = if data.len() < 1024 {
                data.len()
            } else {
                1024
            };
            let mut pos: usize = 0;
            while pos < lim
                invariant
                    data@.len() >= 376,
                    lim <= data@.len(),
                    lim == (if data@.len() < 1024 { data@.len() as int } else { 1024 }),
                    ts_scan(data@, 0, lim as int) == ts_scan(data@, pos as int, lim as int),
                decreases lim - pos,
            {
                if data[pos] == 0x47 {
                    let n = count_sync_run(data, pos);
                    assert(ts_scan(data@, pos as int, lim as int) == (if n >= 3 {
                        Some(SCORE_MAX)
                    } else if n == 2 {
                        Some((SCORE_MAX - 10) as u32)
                    } else {
                        ts_scan(data@, pos + 1, lim as int)
                    }));
                    if n >= 3 {
                        assert(ts_scan(data@, 0, lim as int) is Some);
                        return Some(SCORE_MAX);
                    }
                    if n >= 2 {
                        assert(ts_scan(data@, 0, lim as int) is Some);
                        return Some(SCORE_MAX - 10);
                    }
                }
                pos = pos + 1;
            }
        }
        let exts: [&str; 3] = ["ts", "m2ts", "mts"];
        assert(str_views(exts@) =~= seq!["ts"@, "m2ts"@, "mts"@]);
        if filename_lower_ext_in(filename, exts.as_slice()) {
            return Some(SCORE_EXTENSION);
        }
        None
    }

    fn format_id(&self) -> (r: FormatId)
        ensures
            r == FormatId::MpegTs,
    {
        FormatId::MpegTs
    }
}

/// A PES reassembly buffer: the PID, its stream, the bytes gathered, the
/// timestamps (-1 when absent) and the random access flag.
pub struct TsPes {
    pub pid: u16,
    pub stream_index: usize,
    pub data: Seq<u8>,
    pub pts: i64,
    pub dts: i64,
    pub ra: bool,
}

/// A finished packet waiting in the queue.
pub struct TsPkt {
    pub stream_index: usize,
    pub payload: Seq<u8>,
    pub pts: i64,
    pub dts: i64,
    pub key: bool,
}

/// What the reader knows: streams, the PMT PID, the PES buffers, the
/// finished packets, and whether the PAT and PMT were read.
pub struct TsModel {
    pub streams: Seq<StreamView>,
    pub pmt_pid: u16,
    pub pes: Seq<TsPes>,
    pub queue: Seq<TsPkt>,
    pub pat_parsed: bool,
    pub pmt_parsed: bool,
}

/// The 12-bit section length of a PSI section.
pub open spec fn section_len(p: Seq<u8>) -> int {
    (p[1] % 16) * 256 + p[2]
}

/// The end of a section's entries (before its CRC).
pub open spec fn section_end(p: Seq<u8>) -> int {
    (if 3 + section_len(p) < p.len() { 3 + section_len(p) } else { p.len() as int }) - 4
}

/// The PMT PID of the first program (number not 0) among the PAT entries
/// from `c` to `end`, four bytes each.
pub open spec fn pat_scan(p: Seq<u8>, c: int, end: int) -> Option<u16>
    decreases end - c,
{
    if c < 0 || c + 4 > end {
        None
    } else if p[c] * 256 + p[c + 1] != 0 {
        Some(((p[c + 2] % 32) * 256 + p[c + 3]) as u16)
    } else {
        pat_scan(p, c + 4, end)
    }
}

/// The model after a PAT section. A section whose length field is 0 is
/// left alone.
pub open spec fn pat_update(m: TsModel, p: Seq<u8>) -> TsModel {
    if m.pat_parsed || p.len() < 8 || section_len(p) == 0 || section_end(p) <= 8 {
        m
    } else {
        match pat_scan(p, 8, section_end(p)) {
            Some(pid) => TsModel { pmt_pid: pid, pat_parsed: true, ..m },
            None => TsModel { pat_parsed: true, ..m },
        }
    }
}

/// The (PID, codec) of the PMT entries from `pos` to `end`.
pub open spec fn pmt_entries(p: Seq<u8>, pos: int, end: int) -> Seq<(u16, CodecId)>
    decreases end - pos,
{
    if pos < 0 || pos + 5 > end {
        seq![]
    } else {
        let e = (((p[pos + 1] % 32) * 256 + p[pos + 2]) as u16, stream_type_codec(p[pos]));
        let eil = (p[pos + 3] % 16) * 256 + p[pos + 4];
        if pos + 5 + eil < end {
            seq![e] + pmt_entries(p, pos + 5 + eil, end)
        } else {
            seq![e]
        }
    }
}

/// Sample rate and channels a new audio stream of codec `c` gets.
pub open spec fn ts_audio_shape(c: CodecId) -> (u32, u32) {
    if c == CodecId::Aac || c == CodecId::Mp3 {
        (44100, 2)
    } else if c == CodecId::Ac3 || c == CodecId::Eac3 {
        (48000, 6)
    } else {
        (48000, 2)
    }
}

/// The stream the PMT creates at position `idx` for codec `c`.
pub open spec fn ts_stream(idx: usize, c: CodecId) -> StreamView {
    StreamView {
        index: idx,
        media_type: codec_media_type(c),
        codec_id: c,
        time_base: Rational::new_spec(1, 90000),
        duration: -1i64,
        start_time: 0,
        nb_frames: 0,
        extra: seq![],
        params: match codec_media_type(c) {
            MediaType::Video => StreamParams::Video(
                VideoStreamParams {
                    width: 0,
                    height: 0,
                    pixel_format: PixelFormat::Yuv420p,
                    frame_rate: Rational::new_spec(0, 1),
                    sample_aspect_ratio: Rational::new_spec(1, 1),
                    bit_rate: 0,
                },
            ),
            MediaType::Audio => StreamParams::Audio(
                AudioStreamParams {
                    sample_rate: ts_audio_shape(c).0,
                    channel_layout: ChannelLayout { channels: ts_audio_shape(c).1 },
                    sample_format: SampleFormat::F32,
                    bit_rate: 0,
                    frame_size: 0,
                },
            ),
            _ => StreamParams::Other,
        },
        metadata: seq![],
    }
}

/// The first PES buffer of `pid` at or after `i`.
pub open spec fn pes_find(pes: Seq<TsPes>, pid: u16, i: int) -> Option<int>
    decreases pes.len() - i,
{
    if i < 0 || i >= pes.len() {
        None
    } else if pes[i].pid == pid {
        Some(i)
    } else {
        pes_find(pes, pid, i + 1)
    }
}

/// The first PES buffer of `pid`.
pub open spec fn pes_index(pes: Seq<TsPes>, pid: u16) -> Option<int> {
    pes_find(pes, pid, 0)
}

/// An empty PES buffer.
pub open spec fn fresh_pes(pid: u16, si: usize) -> TsPes {
    TsPes { pid, stream_index: si, data: seq![], pts: -1i64, dts: -1i64, ra: false }
}

/// The buffers with a fresh buffer for `pid` (replacing its old one).
pub open spec fn pes_insert(pes: Seq<TsPes>, pid: u16, si: usize) -> Seq<TsPes> {
    match pes_index(pes, pid) {
        Some(i) => pes.update(i, fresh_pes(pid, si)),
        None => pes.push(fresh_pes(pid, si)),
    }
}

/// The model after one PMT entry: a known codec gets a stream and a buffer.
pub open spec fn pmt_add_one(m: TsModel, e: (u16, CodecId)) -> TsModel {
    if e.1 == CodecId::Unknown {
        m
    } else {
        let idx = m.streams.len() as usize;
        TsModel { streams: m.streams.push(ts_stream(idx, e.1)), pes: pes_insert(m.pes, e.0, idx), ..m }
    }
}

/// The model after the PMT entries `es`, in order.
pub open spec fn pmt_add_all(m: TsModel, es: Seq<(u16, CodecId)>) -> TsModel
    decreases es.len(),
{
    if es.len() == 0 {
        m
    } else {
        pmt_add_one(pmt_add_all(m, es.drop_last()), es.last())
    }
}

/// The model after a PMT section. A section whose length field is 0 is
/// left alone.
pub open spec fn pmt_update(m: TsModel, p: Seq<u8>) -> TsModel {
    if m.pmt_parsed || p.len() < 12 || section_len(p) == 0 {
        m
    } else {
        let pil = (p[10] % 16) * 256 + p[11];
        TsModel { pmt_parsed: true, ..pmt_add_all(m, pmt_entries(p, 12 + pil, section_end(p))) }
    }
}

/// The model after flushing buffer `i`: gathered bytes become a queued
/// packet (its DTS the PTS when absent) and the buffer is emptied.
pub open spec fn flush_at(m: TsModel, i: int) -> TsModel {
    let b = m.pes[i];
    if b.data.len() == 0 {
        m
    } else {
        TsModel {
            queue: m.queue.push(TsPkt { stream_index: b.stream_index, payload: b.data, pts: b.pts, dts: if b.dts >= 0 { b.dts } else { b.pts }, key: b.ra }),
            pes: m.pes.update(i, TsPes { data: seq![], pts: -1i64, dts: -1i64, ra: false, ..b }),
            ..m
        }
    }
}

/// The model after the payload `pl` of an elementary stream packet of
/// `pid`: a unit start flushes the buffer and starts a new PES (its header
/// read for timestamps), a continuation is appended.
pub open spec fn pes_data(m: TsModel, pid: u16, pl: Seq<u8>, pusi: bool, ra: bool) -> TsModel {
    match pes_index(m.pes, pid) {
        None => m,
        Some(i) => if pusi {
            let m1 = flush_at(m, i);
            let b = m1.pes[i];
            let nb = match pes_header(pl) {
                Some((pts, dts, hl)) => TsPes { ra, pts, dts, data: b.data + pl.subrange(hl as int, pl.len() as int), ..b },
                None => TsPes { ra, data: b.data + pl, ..b },
            };
            TsModel { pes: m1.pes.update(i, nb), ..m1 }
        } else {
            let b = m.pes[i];
            TsModel { pes: m.pes.update(i, TsPes { data: b.data + pl, ra: b.ra || ra, ..b }), ..m }
        },
    }
}

/// The section a PSI payload starts with: after the pointer field and the
/// bytes it skips; `None` when that runs past the payload.
pub open spec fn psi_section(pl: Seq<u8>) -> Option<Seq<u8>> {
    if pl.len() > 0 && 1 + pl[0] < pl.len() {
        Some(pl.subrange(1 + pl[0], pl.len() as int))
    } else {
        None
    }
}

/// The model after one 188 byte packet.
pub open spec fn ts_process(m: TsModel, k: Seq<u8>) -> TsModel {
    let (pid, pusi, afc, _cc) = ts_header(k);
    let (off, ra) = ts_payload(k, afc);
    if pid == 0x1FFF || off >= 188 {
        m
    } else {
        let pl = k.subrange(off as int, 188);
        if pid == 0 {
            match psi_section(pl) {
                Some(sec) => if pusi { pat_update(m, sec) } else { m },
                None => m,
            }
        } else if pid == m.pmt_pid && m.pmt_pid != 0 {
            match psi_section(pl) {
                Some(sec) => if pusi { pmt_update(m, sec) } else { m },
                None => m,
            }
        } else if m.pmt_parsed {
            pes_data(m, pid, pl, pusi, ra)
        } else {
            m
        }
    }
}

/// Where a sync byte is found from `c` (the `k`-th byte tried): one whose
/// next packet also starts with a sync byte; `Eof` when the input ends,
/// `InvalidData` after 65536 bytes.
pub open spec fn ts_sync(d: Seq<u8>, c: int, k: nat) -> Result<int, ErrorKind>
    decreases 65536 - k,
{
    if k >= 65536 {
        Err(ErrorKind::InvalidData)
    } else if c < 0 || c + 1 > d.len() {
        Err(ErrorKind::Eof)
    } else if d[c] == 0x47 && c + 189 <= d.len() && d[c + 188] == 0x47 {
        Ok(c)
    } else {
        ts_sync(d, c + 1, k + 1)
    }
}

/// The packets `open` reads from `c` (the `n`-th so far) until the PAT,
/// the PMT and a stream are known, the input ends, or 2000 packets.
pub open spec fn ts_probe(d: Seq<u8>, c: int, m: TsModel, n: nat) -> (Result<(), ErrorKind>, TsModel)
    decreases 2000 - n,
{
    if n >= 2000 || c < 0 || c + 188 > d.len() {
        (Ok(()), m)
    } else if d[c] != 0x47 {
        (Err(ErrorKind::InvalidData), m)
    } else {
        let m1 = ts_process(m, d.subrange(c, c + 188));
        if m1.pat_parsed && m1.pmt_parsed && m1.streams.len() > 0 {
            (Ok(()), m1)
        } else {
            ts_probe(d, c + 188, m1, n + 1)
        }
    }
}

/// The buffers emptied.
pub open spec fn pes_cleared(pes: Seq<TsPes>) -> Seq<TsPes> {
    Seq::new(pes.len(), |i: int| TsPes { data: seq![], pts: -1i64, dts: -1i64, ra: false, ..pes[i] })
}

/// What `open` does from `c`: the position of the first packet (found
/// again from offset 0) and the model, or the error.
pub open spec fn ts_open(d: Seq<u8>, c: int, m: TsModel) -> (Result<int, ErrorKind>, TsModel) {
    match ts_sync(d, c, 0) {
        Err(k) => (Err(k), m),
        Ok(s) => {
            let (r, m1) = ts_probe(d, s, m, 0);
            if r is Err {
                (Err(r->Err_0), m1)
            } else if m1.streams.len() == 0 {
                (Err(ErrorKind::InvalidData), m1)
            } else {
                match ts_sync(d, 0, 0) {
                    Err(k) => (Err(k), m1),
                    Ok(s2) => (Ok(s2), TsModel { queue: seq![], pes: pes_cleared(m1.pes), ..m1 }),
                }
            }
        },
    }
}

/// What `read_packet` gives from `c`: the first queued packet, or the
/// packets read until one finishes.
pub open spec fn ts_next(d: Seq<u8>, c: int, m: TsModel) -> (Result<TsPkt, ErrorKind>, TsModel, int)
    decreases d.len() - c,
{
    if m.queue.len() > 0 {
        (Ok(m.queue[0]), TsModel { queue: m.queue.subrange(1, m.queue.len() as int), ..m }, c)
    } else if c < 0 || c + 188 > d.len() {
        (Err(ErrorKind::Eof), m, c)
    } else if d[c] != 0x47 {
        (Err(ErrorKind::InvalidData), m, c + 188)
    } else {
        ts_next(d, c + 188, ts_process(m, d.subrange(c, c + 188)))
    }
}

/// A PES buffer.
struct PesBuf {
    pid: u16,
    stream_index: usize,
    data: Vec<u8>,
    pts: i64,
    dts: i64,
    random_access: bool,
}

/// A finished packet.
struct Finished {
    stream_index: usize,
    data: Vec<u8>,
    pts: i64,
    dts: i64,
    key: bool,
}

/// The plain values of a PES buffer.
spec fn pes_view(b: PesBuf) -> TsPes {
    TsPes { pid: b.pid, stream_index: b.stream_index, data: b.data@, pts: b.pts, dts: b.dts, ra: b.random_access }
}

/// The plain values of a finished packet.
spec fn fin_view(f: Finished) -> TsPkt {
    TsPkt { stream_index: f.stream_index, payload: f.data@, pts: f.pts, dts: f.dts, key: f.key }
}

/// Reader of MPEG transport streams.
pub struct TsDemuxer {
    streams: Vec<Stream>,
    pmt_pid: u16,
    pes: Vec<PesBuf>,
    queue: Vec<Finished>,
    pat_parsed: bool,
    pmt_parsed: bool,
    metadata: Vec<(String, String)>,
}

/// The bytes of `p` from `from`.
fn tail_of(p: &[u8], from: usize) -> (r: Vec<u8>)
    requires
        from <= p@.len(),
    ensures
        r@ == p@.subrange(from as int, p@.len() as int),
{
    let mut v: Vec<u8> = Vec::new();
    let mut k = from;
    while k < p.len()
        invariant
            from <= k <= p@.len(),
            v@ == p@.subrange(from as int, k as int),
        decreases p.len() - k,
    {
        v.push(p[k]);
        k = k + 1;
        assert(v@ =~= p@.subrange(from as int, k as int));
    }
    v
}

/// The entries of a PMT between `pos` and `end`.
fn read_pmt_entries(p: &[u8], pos: usize, end: usize) -> (r: Vec<(u16, CodecId)>)
    requires
        end <= p@.len(),
        end <= 0x1_0000,
        pos <= 0x1_0000,
    ensures
        r@ == pmt_entries(p@, pos as int, end as int),
{
    let mut v: Vec<(u16, CodecId)> = Vec::new();
    let mut q = pos;
    while q < end && end - q >= 5
        invariant
            end <= p@.len(),
            pos <= q,
            q <= end + 0x1_0000,
            end <= 0x1_0000,
            v@ + pmt_entries(p@, q as int, end as int) == pmt_entries(p@, pos as int, end as int),
        decreases end + 0x1_0000 - q,
    {
        let stream_type = p[q];
        let es_pid = ((p[q + 1] % 32) as u16) * 256 + p[q + 2] as u16;
        let es_info_len = ((p[q + 3] % 16) as usize) * 256 + p[q + 4] as usize;
        let codec_id = stream_type_to_codec(stream_type);
        let ghost before = v@;
        v.push((es_pid, codec_id));
        proof {
            let e = (es_pid, codec_id);
            assert(pmt_entries(p@, q as int, end as int) == (if q + 5 + es_info_len < end {
                seq![e] + pmt_entries(p@, q + 5 + es_info_len, end as int)
            } else {
                seq![e]
            }));
            if q + 5 + es_info_len < end {
                assert(v@ + pmt_entries(p@, q + 5 + es_info_len, end as int) =~= before + pmt_entries(p@, q as int, end as int));
            } else {
                assert(pmt_entries(p@, q + 5 + es_info_len, end as int) =~= seq![]);
                assert(v@ + pmt_entries(p@, q + 5 + es_info_len, end as int) =~= before + pmt_entries(p@, q as int, end as int));
            }
        }
        q = q + 5 + es_info_len;
    }
    assert(pmt_entries(p@, q as int, end as int) =~= seq![]);
    assert(v@ =~= v@ + pmt_entries(p@, q as int, end as int));
    v
}

impl TsDemuxer {
    /// The reader's state as plain values.
    pub closed spec fn model(&self) -> TsModel {
        TsModel {
            streams: stream_views(self.streams@),
            pmt_pid: self.pmt_pid,
            pes: self.pes@.map_values(|b: PesBuf| pes_view(b)),
            queue: self.queue@.map_values(|f: Finished| fin_view(f)),
            pat_parsed: self.pat_parsed,
            pmt_parsed: self.pmt_parsed,
        }
    }

    /// The streams.
    pub closed spec fn stream_list(&self) -> Seq<Stream> {
        self.streams@
    }

    /// The container metadata (none).
    pub closed spec fn meta(&self) -> Seq<(String, String)> {
        self.metadata@
    }

    /// A reader before `open`.
    pub fn new() -> (r: Self)
        ensures
            r.model() == (TsModel { streams: seq![], pmt_pid: 0, pes: seq![], queue: seq![], pat_parsed: false, pmt_parsed: false }),
            r.stream_list().len() == 0,
            r.meta().len() == 0,
    {
        let r = TsDemuxer {
            streams: Vec::new(),
            pmt_pid: 0,
            pes: Vec::new(),
            queue: Vec::new(),
            pat_parsed: false,
            pmt_parsed: false,
            metadata: Vec::new(),
        };
        assert(r.model().streams =~= seq![]);
        assert(r.model().pes =~= seq![]);
        assert(r.model().queue =~= seq![]);
        r
    }

    /// A boxed reader, for a registry.
    pub fn create() -> (r: TaoResult<Box<dyn Demuxer>>)
        ensures
            r matches Ok(d) && d.format_kind() == FormatId::MpegTs && d.stream_seq().len() == 0,
    {
        Ok(Box::new(TsDemuxer::new()))
    }

    /// The first PES buffer of `pid`.
    fn find_pes(&self, pid: u16) -> (r: Option<usize>)
        ensures
            r matches Some(i) ==> pes_index(self.model().pes, pid) == Some(i as int) && i < self.pes@.len(),
            r is None ==> pes_index(self.model().pes, pid) is None,
    {
        let ghost m = self.model().pes;
        let mut i: usize = 0;
        while i < self.pes.len()
            invariant
                i <= self.pes@.len(),
                m == self.model().pes,
                m.len() == self.pes@.len(),
                pes_find(m, pid, 0) == pes_find(m, pid, i as int),
            decreases self.pes.len() - i,
        {
            if self.pes[i].pid == pid {
                return Some(i);
            }
            i = i + 1;
        }
        None
    }

    /// Reads a PAT section: the first program's PMT PID.
    fn parse_pat(&mut self, p: &[u8])
        ensures
            final(self).model() == pat_update(old(self).model(), p@),
            final(self).streams == old(self).streams,
    {
        if self.pat_parsed || p.len() < 8 {
            return;
        }
        let section_length = ((p[1] % 16) as usize) * 256 + p[2] as usize;
        if section_length == 0 {
            return;
        }
        let lim = if 3 + section_length < p.len() {
            3 + section_length
        } else {
            p.len()
        };
        let entries_end = lim - 4;
        if entries_end <= 8 {
            return;
        }
        let ghost target = pat_scan(p@, 8, entries_end as int);
        let mut c: usize = 8;
        let mut found: Option<u16> = None;
        while c < entries_end && entries_end - c >= 4
            invariant_except_break
                found is None,
            invariant
                8 <= c <= entries_end,
                entries_end <= p@.len(),
                target == pat_scan(p@, c as int, entries_end as int),
            ensures
                found == target,
            decreases entries_end - c,
        {
            let program_number = (p[c] as u16) * 256 + p[c + 1] as u16;
            if program_number != 0 {
                found = Some(((p[c + 2] % 32) as u16) * 256 + p[c + 3] as u16);
                break;
            }
            c = c + 4;
        }
        match found {
            Some(pid) => {
                self.pmt_pid = pid;
            },
            None => {},
        }
        self.pat_parsed = true;
    }

    /// Adds the stream and buffer of one PMT entry.
    fn add_pmt_entry(&mut self, pid: u16, codec_id: CodecId)
        ensures
            final(self).model() == pmt_add_one(old(self).model(), (pid, codec_id)),
    {
        if codec_id == CodecId::Unknown {
            return;
        }
        let stream_index = self.streams.len();
        let media_type = codec_id.media_type();
        let params = match media_type {
            MediaType::Video => StreamParams::Video(
                VideoStreamParams {
                    width: 0,
                    height: 0,
                    pixel_format: PixelFormat::Yuv420p,
                    frame_rate: Rational::new(0, 1),
                    sample_aspect_ratio: Rational::new(1, 1),
                    bit_rate: 0,
                },
            ),
            MediaType::Audio => {
                let (sr, ch): (u32, u32) = if codec_id == CodecId::Aac || codec_id == CodecId::Mp3 {
                    (44100, 2)
                } else if codec_id == CodecId::Ac3 || codec_id == CodecId::Eac3 {
                    (48000, 6)
                } else {
                    (48000, 2)
                };
                StreamParams::Audio(
                    AudioStreamParams {
                        sample_rate: sr,
                        channel_layout: ChannelLayout::from_channels(ch),
                        sample_format: SampleFormat::F32,
                        bit_rate: 0,
                        frame_size: 0,
                    },
                )
            },
            _ => StreamParams::Other,
        };
        let stream = Stream {
            index: stream_index,
            media_type,
            codec_id,
            time_base: Rational::new(1, 90000),
            duration: -1,
            start_time: 0,
            nb_frames: 0,
            extra_data: Vec::new(),
            params,
            metadata: Vec::new(),
        };
        let fresh = PesBuf { pid, stream_index, data: Vec::new(), pts: -1, dts: -1, random_access: false };
        proof {
            assert(pes_view(fresh) == fresh_pes(pid, stream_index));
        }
        match self.find_pes(pid) {
            Some(i) => {
                self.pes.set(i, fresh);
            },
            None => {
                self.pes.push(fresh);
            },
        }
        self.streams.push(stream);
        assert(self.model().streams =~= pmt_add_one(old(self).model(), (pid, codec_id)).streams);
        assert(self.model().pes =~= pmt_add_one(old(self).model(), (pid, codec_id)).pes);
    }

    /// Reads a PMT section: a stream and a PES buffer for each entry of a
    /// known codec.
    fn parse_pmt(&mut self, p: &[u8])
        ensures
            final(self).model() == pmt_update(old(self).model(), p@),
    {
        if self.pmt_parsed || p.len() < 12 {
            return;
        }
        let section_length = ((p[1] % 16) as usize) * 256 + p[2] as usize;
        if section_length == 0 {
            return;
        }
        let prog_info_len = ((p[10] % 16) as usize) * 256 + p[11] as usize;
        let lim = if 3 + section_length < p.len() {
            3 + section_length
        } else {
            p.len()
        };
        let section_end = lim - 4;
        let entries = read_pmt_entries(p, 12 + prog_info_len, section_end);
        let ghost m0 = self.model();
        let mut k: usize = 0;
        while k < entries.len()
            invariant
                k <= entries@.len(),
                self.model() == pmt_add_all(m0, entries@.take(k as int)),
            decreases entries.len() - k,
        {
            let (pid, codec_id) = entries[k];
            self.add_pmt_entry(pid, codec_id);
            assert(entries@.take(k + 1).drop_last() =~= entries@.take(k as int));
            k = k + 1;
        }
        assert(entries@.take(entries@.len() as int) =~= entries@);
        self.pmt_parsed = true;
    }

    /// Turns buffer `i` into a queued packet when it holds data.
    fn flush_pes(&mut self, i: usize)
        requires
            i < old(self).pes@.len(),
        ensures
            final(self).model() == flush_at(old(self).model(), i as int),
            final(self).pes@.len() == old(self).pes@.len(),
    {
        if self.pes[i].data.len() == 0 {
            return;
        }
        let mut b = self.pes.remove(i);
        let mut data: Vec<u8> = Vec::new();
        std::mem::swap(&mut data, &mut b.data);
        let dts = if b.dts >= 0 {
            b.dts
        } else {
            b.pts
        };
        self.queue.push(Finished { stream_index: b.stream_index, data, pts: b.pts, dts, key: b.random_access });
        b.pts = -1;
        b.dts = -1;
        b.random_access = false;
        self.pes.insert(i, b);
        assert(self.model().queue =~= flush_at(old(self).model(), i as int).queue);
        assert(self.model().pes =~= flush_at(old(self).model(), i as int).pes);
    }

    /// Handles the payload of an elementary stream packet.
    fn handle_pes_data(&mut self, pid: u16, payload: &[u8], pusi: bool, random_access: bool)
        ensures
            final(self).model() == pes_data(old(self).model(), pid, payload@, pusi, random_access),
    {
        let i = match self.find_pes(pid) {
            Some(i) => i,
            None => {
                return;
            },
        };
        if pusi {
            self.flush_pes(i);
            let ghost m1 = self.model();
            let mut b = self.pes.remove(i);
            b.random_access = random_access;
            match parse_pes_header(payload) {
                Some((pts, dts, header_len)) => {
                    b.pts = pts;
                    b.dts = dts;
                    let tail = tail_of(payload, header_len);
                    crate::endian::push_all(&mut b.data, tail.as_slice());
                },
                None => {
                    crate::endian::push_all(&mut b.data, payload);
                },
            }
            self.pes.insert(i, b);
            assert(self.model().pes =~= pes_data(old(self).model(), pid, payload@, pusi, random_access).pes);
        } else {
            let mut b = self.pes.remove(i);
            crate::endian::push_all(&mut b.data, payload);
            if random_access {
                b.random_access = true;
            }
            self.pes.insert(i, b);
            assert(self.model().pes =~= pes_data(old(self).model(), pid, payload@, pusi, random_access).pes);
        }
    }

    /// Handles one 188 byte packet: PAT, PMT, or elementary stream data.
    fn process_packet(&mut self, pkt: &[u8; 188])
        ensures
            final(self).model() == ts_process(old(self).model(), pkt@),
    {
        let (pid, pusi, afc, _cc) = parse_ts_header(pkt);
        if pid == 0x1FFF {
            return;
        }
        let (payload_off, random_access) = payload_offset(pkt, afc);
        if payload_off >= 188 {
            return;
        }
        let payload = tail_of(pkt.as_slice(), payload_off);
        if pid == 0 {
            if pusi && payload.len() > 0 {
                let section_start = 1 + payload[0] as usize;
                if section_start < payload.len() {
                    let sec = tail_of(payload.as_slice(), section_start);
                    self.parse_pat(sec.as_slice());
                }
            }
            return;
        }
        if pid == self.pmt_pid && self.pmt_pid != 0 {
            if pusi && payload.len() > 0 {
                let section_start = 1 + payload[0] as usize;
                if section_start < payload.len() {
                    let sec = tail_of(payload.as_slice(), section_start);
                    self.parse_pmt(sec.as_slice());
                }
            }
            return;
        }
        if self.pmt_parsed {
            self.handle_pes_data(pid, payload.as_slice(), pusi, random_access);
        }
    }

    /// Reads a 188 byte packet; its first byte must be the sync byte.
    fn read_ts_packet(io: &mut IoContext) -> (r: TaoResult<[u8; 188]>)
        ensures
            final(io).contents() == old(io).contents(),
            ({
                let d = old(io).contents();
                let c = old(io).cursor() as int;
                if c + 188 > d.len() {
                    r matches Err(e) && e.kind() == ErrorKind::Eof
                } else if d[c] != 0x47 {
                    r matches Err(e) && e.kind() == ErrorKind::InvalidData && final(io).cursor() == c + 188
                } else {
                    r matches Ok(k) && k@ == d.subrange(c, c + 188) && final(io).cursor() == c + 188
                }
            }),
            final(io).cursor() <= old(io).cursor() || final(io).cursor() <= old(io).contents().len(),
    {
        let v = io.read_bytes(188)?;
        let mut k = [0u8; 188];
        let mut j: usize = 0;
        while j < 188
            invariant
                j <= 188,
                v@.len() == 188,
                forall|t: int| 0 <= t < j ==> k@[t] == v@[t],
            decreases 188 - j,
        {
            k.set(j, v[j]);
            j = j + 1;
        }
        assert(k@ =~= v@);
        if k[0] != 0x47 {
            return Err(invalid_data("TS: sync byte mismatch"));
        }
        Ok(k)
    }

    /// Finds the first packet whose next packet also starts with a sync
    /// byte, searching at most 65536 bytes.
    fn sync_to_packet(io: &mut IoContext) -> (r: TaoResult<()>)
        requires
            io_in_range(*old(io)),
        ensures
            final(io).contents() == old(io).contents(),
            match ts_sync(old(io).contents(), old(io).cursor() as int, 0) {
                Ok(s) => r is Ok && final(io).cursor() == s,
                Err(k) => r matches Err(e) && e.kind() == k,
            },
            io_in_range(*final(io)),
    {
        let ghost d = io.contents();
        let ghost target = ts_sync(d, io.cursor() as int, 0);
        let mut k: u32 = 0;
        while k < 65536
            invariant
                io.contents() == d,
                d == old(io).contents(),
                target == ts_sync(old(io).contents(), old(io).cursor() as int, 0),
                io_in_range(*io),
                k <= 65536,
                target == ts_sync(d, io.cursor() as int, k as nat),
            decreases 65536 - k,
        {
            let b = io.read_u8()?;
            if b == 0x47 {
                let pos = io.position()?;
                let ok = match io.read_bytes(188) {
                    Ok(check) => check[187] == 0x47,
                    Err(_) => false,
                };
                if ok {
                    io.seek(SeekFrom::Start(pos - 1))?;
                    return Ok(());
                }
                io.seek(SeekFrom::Start(pos))?;
            }
            k = k + 1;
        }
        Err(invalid_data("TS: no sync byte found"))
    }

    /// What `open` does (see `ts_open`).
    pub open spec fn open_post(old_self: Self, new_self: Self, old_io: IoContext, new_io: IoContext, r: TaoResult<()>) -> bool {
        let (res, m) = ts_open(old_io.contents(), old_io.cursor() as int, old_self.model());
        &&& new_io.contents() == old_io.contents()
        &&& new_self.model() == m
        &&& match res {
            Ok(s) => r is Ok && new_io.cursor() == s,
            Err(k) => r matches Err(e) && e.kind() == k,
        }
    }

    /// Syncs, reads packets until the PAT and PMT give streams, and goes
    /// back to the first packet of the input.
    pub fn open_ts(&mut self, io: &mut IoContext) -> (r: TaoResult<()>)
        requires
            io_in_range(*old(io)),
        ensures
            Self::open_post(*old(self), *final(self), *old(io), *final(io), r),
    {
        let ghost d = io.contents();
        Self::sync_to_packet(io)?;
        let ghost s = io.cursor() as int;
        let ghost m0 = self.model();
        let mut n: u32 = 0;
        loop
            invariant_except_break
                n < 2000,
                ts_probe(d, s, m0, 0) == ts_probe(d, io.cursor() as int, self.model(), n as nat),
            invariant
                io.contents() == d,
                d == old(io).contents(),
                io_in_range(*io),
                ts_sync(d, old(io).cursor() as int, 0) == Ok::<int, ErrorKind>(s),
                m0 == old(self).model(),
                ts_probe(d, s, m0, 0).0 is Err ==> ts_open(d, old(io).cursor() as int, m0) == (
                    Err::<int, ErrorKind>(ts_probe(d, s, m0, 0).0->Err_0), ts_probe(d, s, m0, 0).1),
            ensures
                ts_probe(d, s, m0, 0) == (Ok::<(), ErrorKind>(()), self.model()),
            decreases 2000 - n,
        {
            let ghost c = io.cursor() as int;
            let ghost before = self.model();
            let pkt = match Self::read_ts_packet(io) {
                Ok(p) => p,
                Err(TaoError::Eof) => {
                    break;
                },
                Err(e) => {
                    return Err(e);
                },
            };
            proof {
                assert(d[c] == pkt@[0]);
            }
            self.process_packet(&pkt);
            n = n + 1;
            proof {
                let m1 = ts_process(before, d.subrange(c, c + 188));
                assert(self.model() == m1);
                assert(ts_probe(d, c, before, (n - 1) as nat) == (if m1.pat_parsed && m1.pmt_parsed && m1.streams.len() > 0 {
                    (Ok(()), m1)
                } else {
                    ts_probe(d, c + 188, m1, n as nat)
                }));
            }
            if self.pat_parsed && self.pmt_parsed && self.streams.len() > 0 {
                break;
            }
            if n >= 2000 {
                break;
            }
        }
        if self.streams.len() == 0 {
            return Err(invalid_data("TS: no stream found (PAT/PMT not parsed)"));
        }
        io.seek(SeekFrom::Start(0))?;
        Self::sync_to_packet(io)?;
        self.queue.clear();
        let ghost pb = self.model().pes;
        let ghost st = self.streams@;
        let ghost pp = self.pmt_pid;
        let ghost fa = self.pat_parsed;
        let ghost fm = self.pmt_parsed;
        let np = self.pes.len();
        let mut i: usize = 0;
        while i < np
            invariant
                i <= np,
                np == self.pes@.len(),
                pb.len() == np,
                self.streams@ == st,
                self.pmt_pid == pp,
                self.pat_parsed == fa,
                self.pmt_parsed == fm,
                self.queue@.len() == 0,
                forall|t: int| 0 <= t < i ==> #[trigger] pes_view(self.pes@[t]) == pes_cleared(pb)[t],
                forall|t: int| i <= t < np ==> #[trigger] pes_view(self.pes@[t]) == pb[t],
            decreases np - i,
        {
            let ghost prev = self.pes@;
            assert(pes_view(self.pes@[i as int]) == pb[i as int]);
            let mut b = self.pes.remove(i);
            b.data.clear();
            b.pts = -1;
            b.dts = -1;
            b.random_access = false;
            self.pes.insert(i, b);
            assert(self.pes@ =~= prev.update(i as int, b));
            assert(b.data@ =~= seq![]);
            assert(pes_view(self.pes@[i as int]) == pes_cleared(pb)[i as int]);
            i = i + 1;
        }
        assert(self.model().pes =~= pes_cleared(pb));
        assert(self.model().queue =~= seq![]);
        Ok(())
    }

    /// What `read_packet` does (see `ts_next`): the packet has time base
    /// 1/90000, no duration and no position.
    pub open spec fn read_post(old_self: Self, new_self: Self, old_io: IoContext, new_io: IoContext, r: TaoResult<Packet>) -> bool {
        let (res, m, c) = ts_next(old_io.contents(), old_io.cursor() as int, old_self.model());
        &&& new_io.contents() == old_io.contents()
        &&& new_self.model() == m
        &&& match res {
            Ok(t) => r matches Ok(p) && {
                &&& p.stream_index == t.stream_index
                &&& p.payload() == t.payload
                &&& p.pts == t.pts
                &&& p.dts == t.dts
                &&& p.is_keyframe == t.key
                &&& p.duration == 0
                &&& p.time_base == Rational::new_spec(1, 90000)
                &&& p.pos == -1
                &&& new_io.cursor() == c
            },
            Err(k) => r matches Err(e) && e.kind() == k,
        }
    }

    /// Returns the next finished packet, reading packets until one is.
    pub fn read_ts_packet_out(&mut self, io: &mut IoContext) -> (r: TaoResult<Packet>)
        requires
            io_in_range(*old(io)),
        ensures
            Self::read_post(*old(self), *final(self), *old(io), *final(io), r),
    {
        let ghost d = io.contents();
        let ghost target = ts_next(d, io.cursor() as int, self.model());
        loop
            invariant
                io.contents() == d,
                d == old(io).contents(),
                io_in_range(*io),
                target == ts_next(d, io.cursor() as int, self.model()),
                target == ts_next(old(io).contents(), old(io).cursor() as int, old(self).model()),
            decreases d.len() - io.cursor(),
        {
            let ghost bq = self.model();
            if self.queue.len() > 0 {
                let f = self.queue.remove(0);
                assert(self.model().queue =~= bq.queue.subrange(1, bq.queue.len() as int));
                let mut pkt = Packet::from_vec(f.data);
                pkt.stream_index = f.stream_index;
                pkt.pts = f.pts;
                pkt.dts = f.dts;
                pkt.is_keyframe = f.key;
                pkt.time_base = Rational::new(1, 90000);
                return Ok(pkt);
            }
            let pkt = Self::read_ts_packet(io)?;
            self.process_packet(&pkt);
        }
    }
}

impl Demuxer for TsDemuxer {
    open spec fn open_admits(&self, io: IoContext) -> bool {
        true
    }

    fn open_admitted(&self, io: &IoContext) -> (b: bool)
        ensures
            b == self.open_admits(*io),
    {
        true
    }

    open spec fn format_kind(&self) -> FormatId {
        FormatId::MpegTs
    }

    open spec fn stream_seq(&self) -> Seq<Stream> {
        self.stream_list()
    }

    open spec fn seek_admits(&self, stream_index: usize, timestamp: i64) -> bool {
        true
    }

    open spec fn read_admits(&self) -> bool {
        true
    }

    fn read_admitted(&self) -> (b: bool)
        ensures
            b == self.read_admits(),
    {
        true
    }

    fn seek_admitted(&self, stream_index: usize, timestamp: i64) -> (b: bool)
        ensures
            b == self.seek_admits(stream_index, timestamp),
    {
        true
    }


    fn format_id(&self) -> (r: FormatId)
        ensures
            r == FormatId::MpegTs,
    {
        FormatId::MpegTs
    }

    fn name(&self) -> (r: &'static str)
        ensures
            r@ == "mpegts"@,
    {
        "mpegts"
    }

    fn open(&mut self, io: &mut IoContext) -> (r: TaoResult<()>)
        ensures
            Self::open_post(*old(self), *final(self), *old(io), *final(io), r),
    {
        self.open_ts(io)
    }

    fn streams(&self) -> (r: &[Stream])
        ensures
            r@ == self.stream_list(),
    {
        self.streams.as_slice()
    }

    fn read_packet(&mut self, io: &mut IoContext) -> (r: TaoResult<Packet>)
        ensures
            Self::read_post(*old(self), *final(self), *old(io), *final(io), r),
    {
        self.read_ts_packet_out(io)
    }

    /// Seeking is not implemented: always `NotImplemented`, and nothing
    /// changes.
    fn seek(&mut self, io: &mut IoContext, stream_index: usize, timestamp: i64, flags: SeekFlags) -> (r: TaoResult<()>)
        ensures
            r matches Err(e) && e.kind() == ErrorKind::NotImplemented,
            *final(self) == *old(self),
            *final(io) == *old(io),
    {
        Err(not_implemented("TS seek is not implemented"))
    }

    fn metadata(&self) -> (r: &[(String, String)])
        ensures
            r@ == self.meta(),
    {
        self.metadata.as_slice()
    }
}

} // verus!
