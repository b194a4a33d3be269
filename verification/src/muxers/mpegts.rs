//! MPEG transport stream writer: a PAT and a PMT, then each packet as one
//! PES split over 188 byte transport packets (the last one padded by an
//! adaptation field); the PAT and PMT are repeated every 40 packets.

use vstd::prelude::*;
use crate::crc::{crc32_msb, crc32_msb_first};
use crate::endian::{be16_bytes, be32_bytes};
use crate::error::{ErrorKind, TaoError, TaoResult, invalid_argument, unsupported, stream_not_found};
use crate::format_id::FormatId;
use crate::io::{IoContext, written};
use crate::media::{CodecId, MediaType, Packet, Stream};
use crate::muxer::{Muxer, out_in_range};
use crate::packet_data::bytes_as_slice;
use crate::demuxers::mpegts::stream_type_codec;

verus! {

/// The MPEG-2 section CRC-32 (generator 0x04C11DB7, register starting at
/// all ones, no final inversion).
pub fn crc32_mpeg2(data: &[u8]) -> (r: u32)
    ensures
        r == crc32_msb(0xFFFF_FFFF, 0x04C1_1DB7, data@),
{
    crc32_msb_first(0xFFFF_FFFF, 0x04C1_1DB7, data)
}

/// `n` bytes of `0xFF`.
pub open spec fn ff_fill(n: nat) -> Seq<u8> {
    Seq::new(n, |i: int| 0xFFu8)
}

/// The section of the PAT: program 1 on PID 0x1000.
pub open spec fn pat_section() -> Seq<u8> {
    seq![0x00u8, 0xB0, 9, 0x00, 0x01, 0xC1, 0x00, 0x00, 0x00, 0x01, 0xF0, 0x00]
}

/// The continuity counter nibble of a header byte.
pub open spec fn cc_byte(base: u8, cc: u8) -> u8 {
    base | (cc & 0x0F)
}

/// The transport packet carrying the PAT with continuity counter `cc`.
pub open spec fn pat_packet(cc: u8) -> Seq<u8> {
    seq![0x47u8, 0x40, 0x00, cc_byte(0x10, cc), 0x00] + pat_section() + be32_bytes(
        crc32_msb(0xFFFF_FFFF, 0x04C1_1DB7, pat_section()),
    ) + ff_fill(167)
}

/// The PMT entries: stream type, reserved bits and PID, no descriptors.
pub open spec fn pmt_entries(s: Seq<(u8, u16)>) -> Seq<u8>
    decreases s.len(),
{
    if s.len() == 0 {
        seq![]
    } else {
        let (t, pid) = s.last();
        pmt_entries(s.drop_last()) + seq![t, 0xE0u8 | (((pid >> 8u16) as u8) & 0x1F), pid as u8, 0xF0u8, 0x00u8]
    }
}

proof fn lemma_pmt_entries_len(s: Seq<(u8, u16)>)
    ensures
        pmt_entries(s).len() == 5 * s.len(),
    decreases s.len(),
{
    if s.len() > 0 {
        lemma_pmt_entries_len(s.drop_last());
    }
}

/// The section of the PMT for the streams (type and PID each); the PCR is
/// on the first stream's PID.
pub open spec fn pmt_section(s: Seq<(u8, u16)>) -> Seq<u8> {
    let sl = (9 + 5 * s.len()) as u16;
    let pcr: u16 = if s.len() > 0 { s[0].1 } else { 0x0100 };
    seq![
        0x02u8,
        0xB0u8 | (((sl >> 8u16) as u8) & 0x0F),
        sl as u8,
        0x00u8,
        0x01u8,
        0xC1u8,
        0x00u8,
        0x00u8,
        0xE0u8 | (((pcr >> 8u16) as u8) & 0x1F),
        pcr as u8,
        0xF0u8,
        0x00u8,
    ] + pmt_entries(s)
}

/// The transport packet carrying the PMT with continuity counter `cc`.
pub open spec fn pmt_packet(cc: u8, s: Seq<(u8, u16)>) -> Seq<u8> {
    seq![0x47u8, 0x50, 0x00, cc_byte(0x10, cc), 0x00] + pmt_section(s) + be32_bytes(
        crc32_msb(0xFFFF_FFFF, 0x04C1_1DB7, pmt_section(s)),
    ) + ff_fill((188 - 5 - 16 - 5 * s.len()) as nat)
}

/// Appends `n` bytes of `0xFF`.
fn push_ff(v: &mut Vec<u8>, n: usize)
    ensures
        final(v)@ == old(v)@ + ff_fill(n as nat),
{
    let mut i: usize = 0;
    while i < n
        invariant
            i <= n,
            v@ == old(v)@ + ff_fill(i as nat),
        decreases n - i,
    {
        v.push(0xFF);
        i = i + 1;
        assert(v@ =~= old(v)@ + ff_fill(i as nat));
    }
}

/// Appends the big-endian bytes of `x`.
fn push_be32(v: &mut Vec<u8>, x: u32)
    ensures
        final(v)@ == old(v)@ + be32_bytes(x),
{
    let b = crate::endian::u32_to_be(x);
    v.push(b[0]);
    v.push(b[1]);
    v.push(b[2]);
    v.push(b[3]);
    assert(v@ =~= old(v)@ + be32_bytes(x));
}

/// The PAT packet.
fn build_pat(cc: u8) -> (r: Vec<u8>)
    ensures
        r@ == pat_packet(cc),
        r@.len() == 188,
{
    let mut section: Vec<u8> = Vec::new();
    section.push(0x00);
    section.push(0xB0);
    section.push(9);
    section.push(0x00);
    section.push(0x01);
    section.push(0xC1);
    section.push(0x00);
    section.push(0x00);
    section.push(0x00);
    section.push(0x01);
    section.push(0xF0);
    section.push(0x00);
    assert(section@ =~= pat_section());
    let crc = crc32_mpeg2(section.as_slice());
    let mut p: Vec<u8> = Vec::new();
    p.push(0x47);
    p.push(0x40);
    p.push(0x00);
    p.push(0x10 | (cc & 0x0F));
    p.push(0x00);
    crate::endian::push_all(&mut p, section.as_slice());
    push_be32(&mut p, crc);
    push_ff(&mut p, 167);
    assert(p@ =~= pat_packet(cc));
    p
}

/// The PMT packet.
fn build_pmt(cc: u8, s: &Vec<(u8, u16)>) -> (r: Vec<u8>)
    requires
        s@.len() <= 33,
    ensures
        r@ == pmt_packet(cc, s@),
        r@.len() == 188,
{
    let n = s.len();
    let sl: u16 = (9 + 5 * n) as u16;
    let pcr: u16 = if n > 0 { s[0].1 } else { 0x0100 };
    let mut section: Vec<u8> = Vec::new();
    section.push(0x02);
    section.push(0xB0 | (((sl >> 8u16) as u8) & 0x0F));
    section.push(sl as u8);
    section.push(0x00);
    section.push(0x01);
    section.push(0xC1);
    section.push(0x00);
    section.push(0x00);
    section.push(0xE0 | (((pcr >> 8u16) as u8) & 0x1F));
    section.push(pcr as u8);
    section.push(0xF0);
    section.push(0x00);
    let ghost head = section@;
    let mut i: usize = 0;
    while i < n
        invariant
            n == s@.len(),
            i <= n,
            section@ == head + pmt_entries(s@.subrange(0, i as int)),
        decreases n - i,
    {
        let (t, pid) = s[i];
        section.push(t);
        section.push(0xE0 | (((pid >> 8u16) as u8) & 0x1F));
        section.push(pid as u8);
        section.push(0xF0);
        section.push(0x00);
        proof {
            assert(s@.subrange(0, i + 1).drop_last() =~= s@.subrange(0, i as int));
        }
        i = i + 1;
        assert(section@ =~= head + pmt_entries(s@.subrange(0, i as int)));
    }
    assert(s@.subrange(0, n as int) =~= s@);
    assert(section@ =~= pmt_section(s@));
    proof {
        lemma_pmt_entries_len(s@);
    }
    let crc = crc32_mpeg2(section.as_slice());
    let mut p: Vec<u8> = Vec::new();
    p.push(0x47);
    p.push(0x50);
    p.push(0x00);
    p.push(0x10 | (cc & 0x0F));
    p.push(0x00);
    crate::endian::push_all(&mut p, section.as_slice());
    push_be32(&mut p, crc);
    push_ff(&mut p, 188 - 5 - 16 - 5 * n);
    assert(p@ =~= pmt_packet(cc, s@));
    p
}

/// The next continuity counter value, wrapping after 255.
pub open spec fn next_cc(cc: u8) -> u8 {
    if cc == 255 { 0 } else { (cc + 1) as u8 }
}

/// Steps a continuity counter.
fn step_cc(cc: u8) -> (r: u8)
    ensures
        r == next_cc(cc),
{
    if cc == 255 { 0 } else { cc + 1 }
}

/// The five PTS bytes of a PES header ('0010' prefix and marker bits).
pub open spec fn pts_bytes(v: i64) -> Seq<u8> {
    seq![
        0x21u8 | (((v >> 29i64) & 0x0E) as u8),
        ((v >> 22i64) & 0xFF) as u8,
        (((v >> 14i64) & 0xFE) as u8) | 0x01u8,
        ((v >> 7i64) & 0xFF) as u8,
        (((v << 1i64) & 0xFE) as u8) | 0x01u8,
    ]
}

/// The PES packet for `data`: start code, stream id, length (0 when it
/// does not fit in 16 bits), flags, the PTS when there is one, the data.
pub open spec fn pes_bytes(stream_id: u8, pts: Option<i64>, data: Seq<u8>) -> Seq<u8> {
    let ol: int = if pts is Some { 8 } else { 3 };
    let pl: u16 = if data.len() + ol <= 65535 { (data.len() + ol) as u16 } else { 0 };
    seq![0x00u8, 0x00, 0x01, stream_id] + be16_bytes(pl) + seq![
        0x80u8,
        if pts is Some { 0x80u8 } else { 0x00u8 },
        if pts is Some { 5u8 } else { 0u8 },
    ] + match pts {
        Some(v) => pts_bytes(v),
        None => seq![],
    } + data
}

/// The transport packets that carry `pes` from `off` on for PID `pid`, the
/// first continuity counter being `cc`: full 184 byte payloads, then the
/// rest after an adaptation field of stuffing.
pub open spec fn ts_chunks(pid: u16, cc: u8, pes: Seq<u8>, off: int, first: bool) -> Seq<u8>
    decreases pes.len() - off,
{
    if off < 0 || off >= pes.len() {
        seq![]
    } else {
        let b1 = (if first { 0x40u8 } else { 0x00u8 }) | (((pid >> 8u16) as u8) & 0x1F);
        let b2 = pid as u8;
        let rem = pes.len() - off;
        if rem >= 184 {
            seq![0x47u8, b1, b2, cc_byte(0x10, cc)] + pes.subrange(off, off + 184) + ts_chunks(
                pid,
                next_cc(cc),
                pes,
                off + 184,
                false,
            )
        } else if rem <= 182 {
            seq![0x47u8, b1, b2, cc_byte(0x30, cc), (183 - rem) as u8, 0x00u8] + ff_fill((182 - rem) as nat)
                + pes.subrange(off, pes.len() as int)
        } else {
            seq![0x47u8, b1, b2, cc_byte(0x30, cc), 0x00u8] + pes.subrange(off, pes.len() as int)
        }
    }
}

/// The continuity counter after `ts_chunks`: one step per packet, wrapping.
pub open spec fn ts_cc_after(cc: u8, pes_len: int, off: int) -> u8
    decreases pes_len - off,
{
    if off < 0 || off >= pes_len {
        cc
    } else if pes_len - off >= 184 {
        ts_cc_after(next_cc(cc), pes_len, off + 184)
    } else {
        next_cc(cc)
    }
}

proof fn lemma_ts_full(pid: u16, cc: u8, pes: Seq<u8>, off: int, first: bool)
    requires
        0 <= off,
        pes.len() - off >= 184,
    ensures
        ts_chunks(pid, cc, pes, off, first) == seq![
            0x47u8,
            (if first { 0x40u8 } else { 0x00u8 }) | (((pid >> 8u16) as u8) & 0x1F),
            pid as u8,
            cc_byte(0x10, cc),
        ] + pes.subrange(off, off + 184) + ts_chunks(pid, next_cc(cc), pes, off + 184, false),
{
}

/// Transport packets take at most twice the PES bytes, plus one packet.
proof fn lemma_ts_chunks_len(pid: u16, cc: u8, pes: Seq<u8>, off: int, first: bool)
    requires
        0 <= off <= pes.len(),
    ensures
        ts_chunks(pid, cc, pes, off, first).len() <= 2 * (pes.len() - off) + 188,
    decreases pes.len() - off,
{
    if off < pes.len() && pes.len() - off >= 184 {
        lemma_ts_chunks_len(pid, next_cc(cc), pes, off + 184, false);
    }
}

/// Builds the PES for `data` (see `pes_bytes`).
fn build_pes(stream_id: u8, pts: Option<i64>, data: &[u8]) -> (r: Vec<u8>)
    ensures
        r@ == pes_bytes(stream_id, pts, data@),
{
    let mut pes: Vec<u8> = Vec::new();
    pes.push(0x00);
    pes.push(0x00);
    pes.push(0x01);
    pes.push(stream_id);
    let has_pts = pts.is_some();
    let ol: usize = if has_pts { 8 } else { 3 };
    let pl: u16 = if data.len() <= 65535 - ol { (data.len() + ol) as u16 } else { 0 };
    let b = crate::endian::u16_to_be(pl);
    pes.push(b[0]);
    pes.push(b[1]);
    pes.push(0x80);
    pes.push(if has_pts { 0x80 } else { 0x00 });
    pes.push(if has_pts { 5 } else { 0 });
    match pts {
        Some(v) => {
            pes.push(0x21u8 | (((v >> 29i64) & 0x0E) as u8));
            pes.push(((v >> 22i64) & 0xFF) as u8);
            pes.push((((v >> 14i64) & 0xFE) as u8) | 0x01u8);
            pes.push(((v >> 7i64) & 0xFF) as u8);
            pes.push((((v << 1i64) & 0xFE) as u8) | 0x01u8);
        },
        None => {},
    }
    crate::endian::push_all(&mut pes, data);
    assert(pes@ =~= pes_bytes(stream_id, pts, data@));
    pes
}

/// Splits `pes` into transport packets (see `ts_chunks`).
fn packetize(pid: u16, cc: &mut u8, pes: &[u8]) -> (r: Vec<u8>)
    requires
        pes@.len() <= 0x1_0000_0000_0000,
    ensures
        r@ == ts_chunks(pid, *old(cc), pes@, 0, true),
        *final(cc) == ts_cc_after(*old(cc), pes@.len() as int, 0),
{
    let n = pes.len();
    let mut out: Vec<u8> = Vec::new();
    let mut off: usize = 0;
    let mut first = true;
    while off < n
        invariant
            n == pes@.len(),
            n <= 0x1_0000_0000_0000,
            off <= n,
            off > 0 ==> !first,
            off == 0 ==> first,
            out@ + ts_chunks(pid, *cc, pes@, off as int, first) == ts_chunks(pid, *old(cc), pes@, 0, true),
            ts_cc_after(*cc, n as int, off as int) == ts_cc_after(*old(cc), n as int, 0),
        decreases n - off,
    {
        let ghost before = out@;
        let ghost c = *cc;
        let ghost o = off as int;
        let ghost f = first;
        let b1: u8 = (if first { 0x40u8 } else { 0x00u8 }) | (((pid >> 8u16) as u8) & 0x1F);
        let rem = n - off;
        out.push(0x47);
        out.push(b1);
        out.push(pid as u8);
        if rem >= 184 {
            out.push(0x10 | (*cc & 0x0F));
            *cc = step_cc(*cc);
            crate::endian::push_all(&mut out, &pes[off..off + 184]);
            let ghost piece = seq![0x47u8, b1, pid as u8, cc_byte(0x10, c)] + pes@.subrange(off as int, off + 184);
            assert(out@ =~= before + piece);
            off = off + 184;
            proof {
                assert(*cc == next_cc(c));
                assert(n - o >= 184);
                assert(0 <= o < n);
                lemma_ts_full(pid, c, pes@, o, f);
                assert(ts_chunks(pid, c, pes@, o, f) == seq![0x47u8, b1, pid as u8, cc_byte(0x10, c)] + pes@.subrange(o, o + 184) + ts_chunks(pid, next_cc(c), pes@, o + 184, false));
                assert(ts_chunks(pid, c, pes@, o, f) =~= piece + ts_chunks(pid, *cc, pes@, off as int, false));
                assert(ts_cc_after(c, n as int, o) == ts_cc_after(*cc, n as int, off as int));
                assert(before + piece + ts_chunks(pid, *cc, pes@, off as int, false) =~= before + (piece + ts_chunks(pid, *cc, pes@, off as int, false)));
            }
        } else if rem <= 182 {
            out.push(0x30 | (*cc & 0x0F));
            *cc = step_cc(*cc);
            out.push((183 - rem) as u8);
            out.push(0x00);
            push_ff(&mut out, 182 - rem);
            crate::endian::push_all(&mut out, &pes[off..n]);
            let ghost piece = seq![0x47u8, b1, pid as u8, cc_byte(0x30, c), (183 - rem) as u8, 0x00u8] + ff_fill((182 - rem) as nat) + pes@.subrange(off as int, n as int);
            assert(out@ =~= before + piece);
            off = n;
            proof {
                assert(*cc == next_cc(c));
                assert(ts_chunks(pid, c, pes@, o, f) == piece);
                assert(ts_chunks(pid, *cc, pes@, off as int, false) =~= seq![]);
                assert(out@ + ts_chunks(pid, *cc, pes@, off as int, false) =~= before + piece);
            }
        } else {
            out.push(0x30 | (*cc & 0x0F));
            *cc = step_cc(*cc);
            out.push(0x00);
            crate::endian::push_all(&mut out, &pes[off..n]);
            let ghost piece = seq![0x47u8, b1, pid as u8, cc_byte(0x30, c), 0x00u8] + pes@.subrange(off as int, n as int);
            assert(out@ =~= before + piece);
            off = n;
            proof {
                assert(*cc == next_cc(c));
                assert(ts_chunks(pid, c, pes@, o, f) == piece);
                assert(ts_chunks(pid, *cc, pes@, off as int, false) =~= seq![]);
                assert(out@ + ts_chunks(pid, *cc, pes@, off as int, false) =~= before + piece);
            }
        }
        first = false;
    }
    out
}

/// The stream type a codec is carried as; `None` for codecs the writer
/// does not take.
pub open spec fn ts_stream_type(c: CodecId) -> Option<u8> {
    match c {
        CodecId::H264 => Some(0x1Bu8),
        CodecId::H265 => Some(0x24u8),
        CodecId::Aac => Some(0x0Fu8),
        CodecId::Mp3 => Some(0x03u8),
        CodecId::PcmS16le => Some(0x03u8),
        CodecId::PcmS16be => Some(0x03u8),
        _ => None,
    }
}

/// The stream type written for a compressed codec reads back as that
/// codec; MPEG-2 audio (0x04) reads as MPEG-1 audio (0x03) does, and LATM
/// AAC (0x11) as ADTS AAC (0x0F) does.
pub proof fn law_stream_type_round_trip(c: CodecId)
    ensures
        c != CodecId::PcmS16le && c != CodecId::PcmS16be ==> (ts_stream_type(c) matches Some(st) ==> stream_type_codec(
            st,
        ) == c),
        stream_type_codec(0x04) == stream_type_codec(0x03),
        stream_type_codec(0x11) == stream_type_codec(0x0F),
{
}

/// Looks up the stream type of a codec.
pub fn codec_to_stream_type(codec_id: CodecId) -> (r: TaoResult<u8>)
    ensures
        match ts_stream_type(codec_id) {
            Some(t) => r == Ok::<u8, TaoError>(t),
            None => r matches Err(e) && e.kind() == ErrorKind::Unsupported,
        },
{
    match codec_id {
        CodecId::H264 => Ok(0x1B),
        CodecId::H265 => Ok(0x24),
        CodecId::Aac => Ok(0x0F),
        CodecId::Mp3 => Ok(0x03),
        CodecId::PcmS16le => Ok(0x03),
        CodecId::PcmS16be => Ok(0x03),
        _ => Err(unsupported("MPEG-TS: unsupported codec")),
    }
}

/// A stream as the writer keeps it.
#[derive(Clone, Copy)]
pub struct TsOutStream {
    pub pid: u16,
    pub stream_type: u8,
    pub continuity_counter: u8,
    pub media_type: MediaType,
}

/// Index of the first stream whose codec the writer does not take (the
/// count when there is none).
pub open spec fn first_unsupported(s: Seq<Stream>, i: int) -> int
    decreases s.len() - i,
{
    if i < 0 || i >= s.len() {
        s.len() as int
    } else if ts_stream_type(s[i].codec_id) is None {
        i
    } else {
        first_unsupported(s, i + 1)
    }
}

/// The writer's entries for the first `k` streams: PIDs from 0x100.
pub open spec fn ts_entries(s: Seq<Stream>, k: int) -> Seq<TsOutStream> {
    Seq::new(
        k as nat,
        |i: int|
            TsOutStream {
                pid: (0x100 + i) as u16,
                stream_type: ts_stream_type(s[i].codec_id)->Some_0,
                continuity_counter: 0,
                media_type: s[i].media_type,
            },
    )
}

/// Stream type and PID of each entry, as the PMT lists them.
pub open spec fn pmt_list(e: Seq<TsOutStream>) -> Seq<(u8, u16)> {
    Seq::new(e.len(), |i: int| (e[i].stream_type, e[i].pid))
}

/// The PES stream id of a media type.
pub open spec fn pes_stream_id(m: MediaType) -> u8 {
    match m {
        MediaType::Video => 0xE0u8,
        MediaType::Audio => 0xC0u8,
        _ => 0xBDu8,
    }
}

/// The writer's state.
pub struct TsMuxState {
    pub streams: Seq<TsOutStream>,
    pub pat_cc: u8,
    pub pmt_cc: u8,
    pub psi_counter: u32,
}

/// Writer of MPEG transport streams.
pub struct MpegTsMuxer {
    ts_streams: Vec<TsOutStream>,
    pat_cc: u8,
    pmt_cc: u8,
    psi_counter: u32,
}

impl MpegTsMuxer {
    /// The state.
    pub closed spec fn state(&self) -> TsMuxState {
        TsMuxState {
            streams: self.ts_streams@,
            pat_cc: self.pat_cc,
            pmt_cc: self.pmt_cc,
            psi_counter: self.psi_counter,
        }
    }

    /// A writer before its header.
    pub fn new() -> (r: Self)
        ensures
            r.state() == (TsMuxState { streams: seq![], pat_cc: 0, pmt_cc: 0, psi_counter: 0 }),
    {
        MpegTsMuxer { ts_streams: Vec::new(), pat_cc: 0, pmt_cc: 0, psi_counter: 0 }
    }

    /// A boxed writer, for a registry.
    pub fn create() -> (r: TaoResult<Box<dyn Muxer>>)
        ensures
            r matches Ok(m) && m.format_kind() == FormatId::MpegTs,
    {
        Ok(Box::new(MpegTsMuxer::new()))
    }

    /// Writes the PAT and the PMT, stepping their counters.
    fn write_psi(&mut self, io: &mut IoContext)
        requires
            out_in_range(*old(io)),
            old(self).state().streams.len() <= 33,
        ensures
            final(self).state() == (TsMuxState {
                pat_cc: next_cc(old(self).state().pat_cc),
                pmt_cc: next_cc(old(self).state().pmt_cc),
                ..old(self).state()
            }),
            final(io).contents() == written(
                old(io).contents(),
                old(io).cursor(),
                pat_packet(old(self).state().pat_cc) + pmt_packet(old(self).state().pmt_cc, pmt_list(old(self).state().streams)),
            ),
            final(io).cursor() == old(io).cursor() + 376,
            (pat_packet(old(self).state().pat_cc) + pmt_packet(old(self).state().pmt_cc, pmt_list(old(self).state().streams))).len() == 376,
    {
        let pat = build_pat(self.pat_cc);
        self.pat_cc = step_cc(self.pat_cc);
        let mut list: Vec<(u8, u16)> = Vec::new();
        let mut i: usize = 0;
        while i < self.ts_streams.len()
            invariant
                i <= self.ts_streams@.len(),
                list@ == pmt_list(self.ts_streams@.subrange(0, i as int)),
            decreases self.ts_streams@.len() - i,
        {
            let e = self.ts_streams[i];
            list.push((e.stream_type, e.pid));
            i = i + 1;
            assert(list@ =~= pmt_list(self.ts_streams@.subrange(0, i as int)));
        }
        assert(self.ts_streams@.subrange(0, self.ts_streams@.len() as int) =~= self.ts_streams@);
        let pmt = build_pmt(self.pmt_cc, &list);
        self.pmt_cc = step_cc(self.pmt_cc);
        let ghost d = io.contents();
        let ghost c = io.cursor();
        let _ = io.write_all(pat.as_slice());
        let _ = io.write_all(pmt.as_slice());
        proof {
            crate::io::lemma_written_concat(d, c, pat@, pmt@);
        }
    }

    /// What `write_header` does: for streams the writer takes (at most 33),
    /// an entry each, then a PAT and a PMT; without streams `InvalidArgument`,
    /// for an unsupported codec `Unsupported` with the entries of the streams
    /// before it, and nothing written.
    pub open spec fn header_post(old_self: Self, new_self: Self, old_io: IoContext, new_io: IoContext, s: Seq<Stream>, r: TaoResult<()>) -> bool {
        let k = first_unsupported(s, 0);
        if s.len() == 0 {
            &&& r matches Err(e) && e.kind() == ErrorKind::InvalidArgument
            &&& new_self.state() == old_self.state()
            &&& new_io == old_io
        } else if k < s.len() {
            &&& r matches Err(e) && e.kind() == ErrorKind::Unsupported
            &&& new_self.state() == (TsMuxState { streams: ts_entries(s, k), ..old_self.state() })
            &&& new_io == old_io
        } else {
            let st = old_self.state();
            &&& r is Ok
            &&& new_self.state() == (TsMuxState {
                streams: ts_entries(s, s.len() as int),
                pat_cc: next_cc(st.pat_cc),
                pmt_cc: next_cc(st.pmt_cc),
                ..st
            })
            &&& new_io.contents() == written(
                old_io.contents(),
                old_io.cursor(),
                pat_packet(st.pat_cc) + pmt_packet(st.pmt_cc, pmt_list(ts_entries(s, s.len() as int))),
            )
            &&& new_io.cursor() == old_io.cursor() + 376
        }
    }

    /// What `write_packet` does: for a known stream, counts the packet,
    /// repeats the PAT and PMT on every 40th, then writes the packet as a
    /// PES (with its PTS when that is not negative); else `StreamNotFound`.
    pub open spec fn packet_post(old_self: Self, new_self: Self, old_io: IoContext, new_io: IoContext, p: Packet, r: TaoResult<()>) -> bool {
        let st = old_self.state();
        if p.stream_index >= st.streams.len() {
            &&& r matches Err(e) && e.kind() == ErrorKind::StreamNotFound
            &&& new_self.state() == st
            &&& new_io == old_io
        } else {
            let e = st.streams[p.stream_index as int];
            let count = (st.psi_counter + 1) as u32;
            let psi = count % 40 == 0;
            let pes = pes_bytes(pes_stream_id(e.media_type), if p.pts >= 0 { Some(p.pts) } else { None }, p.payload());
            let out = (if psi { pat_packet(st.pat_cc) + pmt_packet(st.pmt_cc, pmt_list(st.streams)) } else { seq![] })
                + ts_chunks(e.pid, e.continuity_counter, pes, 0, true);
            &&& r is Ok
            &&& new_self.state() == (TsMuxState {
                streams: st.streams.update(
                    p.stream_index as int,
                    TsOutStream { continuity_counter: ts_cc_after(e.continuity_counter, pes.len() as int, 0), ..e },
                ),
                pat_cc: if psi { next_cc(st.pat_cc) } else { st.pat_cc },
                pmt_cc: if psi { next_cc(st.pmt_cc) } else { st.pmt_cc },
                psi_counter: count,
            })
            &&& new_io.contents() == written(old_io.contents(), old_io.cursor(), out)
            &&& new_io.cursor() == old_io.cursor() + out.len()
        }
    }
}

impl Muxer for MpegTsMuxer {
    open spec fn format_kind(&self) -> FormatId {
        FormatId::MpegTs
    }

    open spec fn header_admits(&self, streams: Seq<Stream>) -> bool {
        streams.len() <= 33
    }

    open spec fn packet_admits(&self, packet: Packet) -> bool {
        &&& packet.payload().len() <= 0x1_0000_0000
        &&& self.state().psi_counter < u32::MAX
        &&& self.state().streams.len() <= 33
    }

    open spec fn trailer_admits(&self) -> bool {
        true
    }

    fn format_id(&self) -> (r: FormatId)
        ensures
            r == FormatId::MpegTs,
    {
        FormatId::MpegTs
    }

    fn name(&self) -> (r: &'static str)
        ensures
            r@ == "mpegts"@,
    {
        "mpegts"
    }

    fn write_header(&mut self, io: &mut IoContext, streams: &[Stream]) -> (r: TaoResult<()>)
        ensures
            Self::header_post(*old(self), *final(self), *old(io), *final(io), streams@, r),
    {
        if streams.len() == 0 {
            return Err(invalid_argument("MPEG-TS: no streams"));
        }
        self.ts_streams = Vec::new();
        let mut i: usize = 0;
        while i < streams.len()
            invariant
                i <= streams@.len(),
                streams@.len() <= 33,
                self.ts_streams@ == ts_entries(streams@, i as int),
                first_unsupported(streams@, 0) == first_unsupported(streams@, i as int),
                self.pat_cc == old(self).pat_cc,
                self.pmt_cc == old(self).pmt_cc,
                self.psi_counter == old(self).psi_counter,
            decreases streams@.len() - i,
        {
            let stream = &streams[i];
            let stream_type = codec_to_stream_type(stream.codec_id)?;
            self.ts_streams.push(
                TsOutStream {
                    pid: 0x100 + i as u16,
                    stream_type,
                    continuity_counter: 0,
                    media_type: stream.media_type,
                },
            );
            i = i + 1;
            assert(self.ts_streams@ =~= ts_entries(streams@, i as int));
        }
        self.write_psi(io);
        Ok(())
    }

    fn write_packet(&mut self, io: &mut IoContext, packet: &Packet) -> (r: TaoResult<()>)
        ensures
            Self::packet_post(*old(self), *final(self), *old(io), *final(io), *packet, r),
    {
        let idx = packet.stream_index;
        if idx >= self.ts_streams.len() {
            return Err(stream_not_found("MPEG-TS: no such stream"));
        }
        self.psi_counter = self.psi_counter + 1;
        let ghost d = io.contents();
        let ghost c = io.cursor();
        let ghost st = old(self).state();
        let psi = self.psi_counter % 40 == 0;
        if psi {
            self.write_psi(io);
            assert(io.contents().len() <= d.len() + 376);
        }
        let ghost d1 = io.contents();
        let ghost c1 = io.cursor();
        let e = self.ts_streams[idx];
        let stream_id: u8 = match e.media_type {
            MediaType::Video => 0xE0,
            MediaType::Audio => 0xC0,
            _ => 0xBD,
        };
        let pts = if packet.pts >= 0 { Some(packet.pts) } else { None };
        let pes = build_pes(stream_id, pts, bytes_as_slice(&packet.data));
        let mut cc = e.continuity_counter;
        assert(pes@.len() <= packet.payload().len() + 14);
        let out = packetize(e.pid, &mut cc, pes.as_slice());
        proof {
            lemma_ts_chunks_len(e.pid, e.continuity_counter, pes@, 0, true);
        }
        self.ts_streams.set(idx, TsOutStream { continuity_counter: cc, ..e });
        let _ = io.write_all(out.as_slice());
        proof {
            let pes_spec = pes_bytes(pes_stream_id(e.media_type), if packet.pts >= 0 { Some(packet.pts) } else { None }, packet.payload());
            assert(pes@ == pes_spec);
            assert(stream_id == pes_stream_id(e.media_type));
            assert(e == st.streams[idx as int]);
            assert(self.state().streams =~= st.streams.update(idx as int, TsOutStream { continuity_counter: ts_cc_after(e.continuity_counter, pes_spec.len() as int, 0), ..e }));
            if psi {
                crate::io::lemma_written_concat(d, c, pat_packet(st.pat_cc) + pmt_packet(st.pmt_cc, pmt_list(st.streams)), out@);
            } else {
                assert(seq![] + out@ =~= out@);
            }
        }
        Ok(())
    }

    /// Nothing to finish.
    fn write_trailer(&mut self, io: &mut IoContext) -> (r: TaoResult<()>)
        ensures
            r is Ok,
            *final(io) == *old(io),
            *final(self) == *old(self),
    {
        Ok(())
    }
}

} // verus!
