//! AAC in ADTS framing.
//!
//! Every ADTS frame starts with a 7 byte header (9 with CRC):
//! a 12 bit sync word 0xFFF, the MPEG id, a 2 bit layer (always 0), the
//! protection-absent bit, the profile, the sampling frequency index, the
//! channel configuration and the 13 bit frame length (header included).

use vstd::prelude::*;
use crate::probe::{
    FormatProbe, ProbeScore, SCORE_EXTENSION, SCORE_MAX, ext_matches_ci, filename_ext_is,
};
use crate::format_id::FormatId;
use crate::error::{ErrorKind, TaoError, TaoResult, invalid_data, not_implemented};
use crate::io::{IoContext, SeekFrom, bytes_at, readable};
use crate::media::{
    AudioStreamParams, ChannelLayout, CodecId, MediaType, Packet, Rational, SampleFormat, SeekFlags,
    Stream, StreamParams,
};
use crate::demuxer::{Demuxer, io_in_range};
use crate::demuxers::avi::{StreamView, stream_view, stream_views};

verus! {

/// Sample rates by ADTS sampling frequency index (ISO 14496-3); 0 is reserved.
pub open spec fn aac_sample_rate(index: int) -> u32 {
    if index == 0 { 96000 }
    else if index == 1 { 88200 }
    else if index == 2 { 64000 }
    else if index == 3 { 48000 }
    else if index == 4 { 44100 }
    else if index == 5 { 32000 }
    else if index == 6 { 24000 }
    else if index == 7 { 22050 }
    else if index == 8 { 16000 }
    else if index == 9 { 12000 }
    else if index == 10 { 11025 }
    else if index == 11 { 8000 }
    else if index == 12 { 7350 }
    else { 0 }
}

/// Sample rate of a sampling frequency index.
pub fn aac_sample_rate_of(index: u8) -> (r: u32)
    ensures
        r == aac_sample_rate(index as int),
{
    match index {
        0 => 96000,
        1 => 88200,
        2 => 64000,
        3 => 48000,
        4 => 44100,
        5 => 32000,
        6 => 24000,
        7 => 22050,
        8 => 16000,
        9 => 12000,
        10 => 11025,
        11 => 8000,
        12 => 7350,
        _ => 0,
    }
}

/// Fields of an ADTS frame header.
#[derive(Debug, Clone, Copy, PartialEq, Eq, Structural)]
pub struct AdtsHeader {
    /// AAC profile (0 Main, 1 LC, 2 SSR, 3 LTP).
    pub profile: u8,
    /// Sampling frequency index.
    pub sampling_frequency_index: u8,
    /// Channel configuration.
    pub channel_configuration: u8,
    /// Frame size including the header.
    pub frame_length: u16,
    /// Whether a CRC follows the header.
    pub has_crc: bool,
    /// Header size: 7, or 9 with CRC.
    pub header_size: u8,
}

/// The ADTS header that the first bytes of `d` denote, if they form one.
pub open spec fn adts_header(d: Seq<u8>) -> Option<AdtsHeader> {
    if d.len() < 7 || d[0] != 0xFF || d[1] / 16 != 15 || (d[1] / 2) % 4 != 0 {
        None
    } else {
        let protection_absent = d[1] % 2 == 1;
        let sfi = (d[2] / 4) % 16;
        let cc = (d[2] % 2) * 4 + d[3] / 64;
        let fl = (d[3] % 4) * 2048 + d[4] * 8 + d[5] / 32;
        let hs: u8 = if protection_absent { 7 } else { 9 };
        if sfi >= 13 || cc > 7 || fl < hs {
            None
        } else {
            Some(
                AdtsHeader {
                    profile: (d[2] / 64) as u8,
                    sampling_frequency_index: sfi as u8,
                    channel_configuration: cc as u8,
                    frame_length: fl as u16,
                    has_crc: !protection_absent,
                    header_size: hs,
                },
            )
        }
    }
}

/// Parses an ADTS frame header from the start of `data`.
pub fn parse_adts_header(data: &[u8]) -> (r: Option<AdtsHeader>)
    ensures
        r == adts_header(data@),
{
    if data.len() < 7 {
        return None;
    }
    let d0 = data[0];
    let d1 = data[1];
    let d2 = data[2];
    let d3 = data[3];
    let d4 = data[4];
    let d5 = data[5];
    assert(((d1 & 0xF0) == 0xF0 <==> d1 / 16 == 15) && ((d1 & 0x06) == 0 <==> (d1 / 2) % 4 == 0)
        && ((d1 & 0x01) != 0) == (d1 % 2 == 1) && (d2 >> 6u8) & 0x03 == d2 / 64 && (d2 >> 2u8) & 0x0F
        == (d2 / 4) % 16 && ((d2 & 0x01) << 2u8) | ((d3 >> 6u8) & 0x03) == (d2 % 2) * 4 + d3 / 64
        && ((d3 & 0x03) as u16) << 11u16 | (d4 as u16) << 3u16 | (d5 as u16) >> 5u16 == (d3 % 4)
        * 2048 + d4 * 8 + d5 / 32) by (bit_vector);
    if d0 != 0xFF || (d1 & 0xF0) != 0xF0 {
        return None;
    }
    if (d1 & 0x06) != 0 {
        return None;
    }
    let protection_absent = (d1 & 0x01) != 0;
    let profile = (d2 >> 6u8) & 0x03;
    let sfi = (d2 >> 2u8) & 0x0F;
    let cc = ((d2 & 0x01) << 2u8) | ((d3 >> 6u8) & 0x03);
    let fl: u16 = ((d3 & 0x03) as u16) << 11u16 | (d4 as u16) << 3u16 | (d5 as u16) >> 5u16;
    if sfi >= 13 {
        return None;
    }
    if cc > 7 {
        return None;
    }
    let header_size: u8 = if protection_absent { 7 } else { 9 };
    if fl < header_size as u16 {
        return None;
    }
    Some(
        AdtsHeader {
            profile,
            sampling_frequency_index: sfi,
            channel_configuration: cc,
            frame_length: fl,
            has_crc: !protection_absent,
            header_size,
        },
    )
}

/// ID3v2 tag size as the ADTS probe reads it: the four size bytes shifted
/// into place and or-ed together, without masking their top bits.
pub open spec fn adts_probe_id3_size(d: Seq<u8>) -> u64 {
    ((d[6] as u64) << 21u64) | ((d[7] as u64) << 14u64) | ((d[8] as u64) << 7u64) | (d[9] as u64)
}

/// Where the ADTS probe looks for the first frame.
pub open spec fn adts_probe_offset(d: Seq<u8>) -> int {
    if d.len() >= 10 && d[0] == 0x49 && d[1] == 0x44 && d[2] == 0x33 {
        10 + adts_probe_id3_size(d)
    } else {
        0
    }
}

/// What the ADTS probe answers.
pub open spec fn aac_probe_score(d: Seq<u8>, filename: Option<&str>) -> Option<ProbeScore> {
    let off = adts_probe_offset(d);
    if d.len() >= 7 && off + 7 <= d.len() && adts_header(d.subrange(off, d.len() as int)) is Some {
        let next = off + adts_header(d.subrange(off, d.len() as int))->Some_0.frame_length;
        if next + 2 <= d.len() && d[next] == 0xFF && d[next + 1] / 16 == 15 {
            Some(SCORE_MAX)
        } else {
            Some((SCORE_MAX - 10) as u32)
        }
    } else if ext_matches_ci(filename, "aac"@) {
        Some(SCORE_EXTENSION)
    } else {
        None
    }
}

/// Recogniser of AAC ADTS streams.
pub struct AacProbe;

impl FormatProbe for AacProbe {
    fn probe(&self, data: &[u8], filename: Option<&str>) -> (r: Option<ProbeScore>)
        ensures
            r == aac_probe_score(data@, filename),
    {
        if data.len() >= 7 {
            let offset: usize = if data.len() >= 10 && data[0] == 0x49 && data[1] == 0x44
                && data[2] == 0x33 {
                let size: u64 = ((data[6] as u64) << 21u64) | ((data[7] as u64) << 14u64) | ((
                data[8] as u64) << 7u64) | (data[9] as u64);
                let (d6, d7, d8, d9) = (data[6], data[7], data[8], data[9]);
                assert(((d6 as u64) << 21u64) | ((d7 as u64) << 14u64) | ((d8 as u64) << 7u64) | (
                d9 as u64) < 0x2000_0000) by (bit_vector);
                10 + size as usize
            } else {
                0
            };
            if offset <= data.len() && 7 <= data.len() - offset {
                let rest = &data[offset..data.len()];
                if let Some(header) = parse_adts_header(rest) {
                    let next = offset + header.frame_length as usize;
                    if next + 2 <= data.len() {
                        let b = data[next + 1];
                        assert((b & 0xF0) == 0xF0 <==> b / 16 == 15) by (bit_vector);
                    }
                    if next + 2 <= data.len() && data[next] == 0xFF && (data[next + 1] & 0xF0)
                        == 0xF0 {
                        return Some(SCORE_MAX);
                    }
                    return Some(SCORE_MAX - 10);
                }
            }
        }
        if filename_ext_is(filename, "aac") {
            return Some(SCORE_EXTENSION);
        }
        None
    }

    fn format_id(&self) -> (r: FormatId)
        ensures
            r == FormatId::AacAdts,
    {
        FormatId::AacAdts
    }
}

/// Where the frame search starts after the ten bytes at `c`: past an ID3v2
/// tag and its (unmasked) size, or at offset 0 when there is none; `Eof`
/// when ten bytes are not there.
pub open spec fn aac_id3_skip(d: Seq<u8>, c: int) -> Result<int, ErrorKind> {
    if c < 0 || c + 10 > d.len() {
        Err(ErrorKind::Eof)
    } else if d[c] == 0x49 && d[c + 1] == 0x44 && d[c + 2] == 0x33 {
        Ok(c + 10 + adts_probe_id3_size(d.subrange(c, c + 10)))
    } else {
        Ok(0)
    }
}

/// The first ADTS header at or after `pos` (before `limit`); `Eof` when
/// seven bytes are not there before one is found.
pub open spec fn aac_first(d: Seq<u8>, pos: int, limit: int) -> Result<(int, AdtsHeader), ErrorKind>
    decreases limit - pos,
{
    if pos >= limit || pos < 0 {
        Err(ErrorKind::InvalidData)
    } else if pos + 7 > d.len() {
        Err(ErrorKind::Eof)
    } else {
        match adts_header(d.subrange(pos, pos + 7)) {
            Some(h) => Ok((pos, h)),
            None => aac_first(d, pos + 1, limit),
        }
    }
}

/// The channel count of a channel configuration (0 is taken as stereo, 7
/// as eight channels).
pub open spec fn aac_channels(cc: u8) -> u32 {
    if cc == 0 { 2 } else if cc == 7 { 8 } else { cc as u32 }
}

/// The two byte AudioSpecificConfig of a header: object type (profile + 1,
/// five bits), sampling frequency index (four bits), channel configuration
/// (four bits), three zero bits.
pub open spec fn aac_asc(h: AdtsHeader) -> Seq<u8> {
    seq![
        ((h.profile + 1) * 8 + h.sampling_frequency_index / 2) as u8,
        ((h.sampling_frequency_index % 2) * 128 + h.channel_configuration * 8) as u8,
    ]
}

/// The stream `open` sets up for the first header.
pub open spec fn aac_stream(h: AdtsHeader) -> StreamView {
    let sr = aac_sample_rate(h.sampling_frequency_index as int);
    StreamView {
        index: 0,
        media_type: MediaType::Audio,
        codec_id: CodecId::Aac,
        time_base: Rational::new_spec(1, sr as i32),
        duration: -1i64,
        start_time: 0,
        nb_frames: 0,
        extra: aac_asc(h),
        params: StreamParams::Audio(
            AudioStreamParams {
                sample_rate: sr,
                channel_layout: ChannelLayout { channels: aac_channels(h.channel_configuration) },
                sample_format: SampleFormat::F32,
                bit_rate: 0,
                frame_size: 1024,
            },
        ),
        metadata: seq![],
    }
}

/// What `open` finds from cursor `c`: the first header and its position.
pub open spec fn aac_open(d: Seq<u8>, c: int) -> Result<(int, AdtsHeader), ErrorKind> {
    match aac_id3_skip(d, c) {
        Err(k) => Err(k),
        Ok(s) => match aac_first(d, s, s + 65536) {
            Err(k) => Err(k),
            Ok((pos, h)) => if aac_sample_rate(h.sampling_frequency_index as int) == 0 {
                Err(ErrorKind::InvalidData)
            } else {
                Ok((pos, h))
            },
        },
    }
}

/// The next frame from `c`: its header and where its payload starts (past
/// the CRC when there is one); `Eof` when the header or the payload is cut
/// short, `InvalidData` when the seven bytes are no header.
pub open spec fn aac_next(d: Seq<u8>, c: int) -> Result<(int, AdtsHeader), ErrorKind> {
    if c < 0 || c + 7 > d.len() {
        Err(ErrorKind::Eof)
    } else {
        match adts_header(d.subrange(c, c + 7)) {
            None => Err(ErrorKind::InvalidData),
            Some(h) => {
                let q = if h.has_crc { c + 9 } else { c + 7 };
                if readable(d, q as nat, (h.frame_length - h.header_size) as nat) {
                    Ok((q, h))
                } else {
                    Err(ErrorKind::Eof)
                }
            },
        }
    }
}

/// The reader's counters.
pub struct AacState {
    pub sample_count: u64,
    pub samples_per_frame: u32,
    pub sample_rate: u32,
}

/// Reader of raw AAC in ADTS frames.
pub struct AacDemuxer {
    streams: Vec<Stream>,
    sample_count: u64,
    samples_per_frame: u32,
    sample_rate: u32,
    metadata: Vec<(String, String)>,
}

impl AacDemuxer {
    /// The counters.
    pub closed spec fn state(&self) -> AacState {
        AacState {
            sample_count: self.sample_count,
            samples_per_frame: self.samples_per_frame,
            sample_rate: self.sample_rate,
        }
    }

    /// The streams.
    pub closed spec fn stream_list(&self) -> Seq<Stream> {
        self.streams@
    }

    /// The container metadata (none).
    pub closed spec fn meta(&self) -> Seq<(String, String)> {
        self.metadata@
    }

    /// A reader before `open`.
    pub fn new() -> (r: Self)
        ensures
            r.state() == (AacState { sample_count: 0, samples_per_frame: 1024, sample_rate: 0 }),
            r.stream_list().len() == 0,
            r.meta().len() == 0,
    {
        AacDemuxer {
            streams: Vec::new(),
            sample_count: 0,
            samples_per_frame: 1024,
            sample_rate: 0,
            metadata: Vec::new(),
        }
    }

    /// A boxed reader, for a registry.
    pub fn create() -> (r: TaoResult<Box<dyn Demuxer>>)
        ensures
            r matches Ok(d) && d.format_kind() == FormatId::AacAdts && d.stream_seq().len() == 0,
    {
        Ok(Box::new(AacDemuxer::new()))
    }

    /// Skips an ID3v2 tag at the cursor; without one, goes back to offset 0.
    fn skip_id3v2(io: &mut IoContext) -> (r: TaoResult<()>)
        requires
            io_in_range(*old(io)),
        ensures
            final(io).contents() == old(io).contents(),
            match aac_id3_skip(old(io).contents(), old(io).cursor() as int) {
                Ok(s) => r is Ok && final(io).cursor() == s,
                Err(k) => r matches Err(e) && e.kind() == k,
            },
            r is Ok ==> final(io).cursor() <= old(io).cursor() + 10 + 0x2000_0000,
    {
        let ghost d = io.contents();
        let ghost c = io.cursor() as int;
        let header = io.read_bytes(10)?;
        assert(header@ =~= d.subrange(c, c + 10));
        if !(header[0] == 0x49 && header[1] == 0x44 && header[2] == 0x33) {
            io.seek(SeekFrom::Start(0))?;
            return Ok(());
        }
        let (h6, h7, h8, h9) = (header[6], header[7], header[8], header[9]);
        let size: u32 = ((h6 as u32) << 21u32) | ((h7 as u32) << 14u32) | ((h8 as u32) << 7u32) | (
        h9 as u32);
        assert(size as u64 == ((h6 as u64) << 21u64) | ((h7 as u64) << 14u64) | ((h8 as u64) << 7u64)
            | (h9 as u64) && size < 0x2000_0000) by (bit_vector)
            requires
                size == ((h6 as u32) << 21u32) | ((h7 as u32) << 14u32) | ((h8 as u32) << 7u32) | (
                h9 as u32),
        ;
        assert(header@[6] == h6 && header@[7] == h7 && header@[8] == h8 && header@[9] == h9);
        io.skip(size as usize)?;
        Ok(())
    }

    /// Finds the first ADTS header from the cursor (within 64 KiB) and
    /// leaves the cursor on it.
    fn find_first_frame(io: &mut IoContext) -> (r: TaoResult<AdtsHeader>)
        requires
            old(io).contents().len() <= 0x1_0000_0000_0000,
            old(io).cursor() <= 0x11_0000_0000_0000,
            0x40_0000_0000_0000 <= usize::MAX,
        ensures
            final(io).contents() == old(io).contents(),
            match aac_first(old(io).contents(), old(io).cursor() as int, (old(io).cursor() + 65536) as int) {
                Ok((pos, h)) => r == Ok::<AdtsHeader, TaoError>(h) && final(io).cursor() == pos,
                Err(k) => r matches Err(e) && e.kind() == k,
            },
            r matches Ok(h) ==> h.profile <= 3 && h.sampling_frequency_index < 13
                && h.channel_configuration <= 7,
    {
        let ghost d = io.contents();
        let start = io.position()?;
        let limit = start + 65536;
        let mut pos = start;
        while pos < limit
            invariant
                io.contents() == d,
                d == old(io).contents(),
                d.len() <= 0x1_0000_0000_0000,
                0x40_0000_0000_0000 <= usize::MAX,
                start == old(io).cursor(),
                start <= 0x11_0000_0000_0000,
                limit == start + 65536,
                start <= pos <= limit,
                io.cursor() <= 0x20_0000_0000_0000,
                aac_first(d, start as int, limit as int) == aac_first(d, pos as int, limit as int),
            decreases limit - pos,
        {
            io.seek(SeekFrom::Start(pos))?;
            let buf = match io.read_bytes(7) {
                Ok(b) => b,
                Err(e) => {
                    assert(aac_first(d, pos as int, limit as int) == Err::<(int, AdtsHeader), ErrorKind>(ErrorKind::Eof));
                    return Err(e);
                },
            };
            assert(buf@ =~= d.subrange(pos as int, pos + 7));
            match parse_adts_header(buf.as_slice()) {
                Some(h) => {
                    let next_pos = pos + h.frame_length as u64;
                    if io.seek(SeekFrom::Start(next_pos)).is_ok() {
                        let _ = io.read_bytes(2);
                    }
                    io.seek(SeekFrom::Start(pos))?;
                    return Ok(h);
                },
                None => {},
            }
            pos = pos + 1;
        }
        Err(invalid_data("AAC: no valid ADTS frame"))
    }

    /// What `open` does (see `aac_open`): on success the stream list is the
    /// one stream and the cursor is on the first frame.
    pub open spec fn open_post(old_self: Self, new_self: Self, old_io: IoContext, new_io: IoContext, r: TaoResult<()>) -> bool {
        &&& new_io.contents() == old_io.contents()
        &&& match aac_open(old_io.contents(), old_io.cursor() as int) {
            Ok((pos, h)) => {
                &&& r is Ok
                &&& new_self.state() == (AacState {
                    sample_rate: aac_sample_rate(h.sampling_frequency_index as int),
                    samples_per_frame: 1024,
                    ..old_self.state()
                })
                &&& stream_views(new_self.stream_list()) == seq![aac_stream(h)]
                &&& new_io.cursor() == pos
            },
            Err(k) => {
                &&& r matches Err(e) && e.kind() == k
                &&& new_self.stream_list() == old_self.stream_list()
                &&& new_self.state() == old_self.state()
            },
        }
    }

    /// Skips an ID3v2 tag, finds the first ADTS frame and sets up the stream.
    pub fn open_aac(&mut self, io: &mut IoContext) -> (r: TaoResult<()>)
        requires
            io_in_range(*old(io)),
        ensures
            Self::open_post(*old(self), *final(self), *old(io), *final(io), r),
    {
        let ghost d = io.contents();
        Self::skip_id3v2(io)?;
        let header = Self::find_first_frame(io)?;
        let sample_rate = aac_sample_rate_of(header.sampling_frequency_index);
        if sample_rate == 0 {
            return Err(invalid_data("AAC: unsupported sampling frequency index"));
        }
        let channels: u32 = if header.channel_configuration == 0 {
            2
        } else if header.channel_configuration == 7 {
            8
        } else {
            header.channel_configuration as u32
        };
        self.sample_rate = sample_rate;
        self.samples_per_frame = 1024;
        let aot: u8 = header.profile + 1;
        let sfi = header.sampling_frequency_index;
        let cc = header.channel_configuration;
        let mut extra_data: Vec<u8> = Vec::new();
        extra_data.push(aot * 8 + sfi / 2);
        extra_data.push((sfi % 2) * 128 + cc * 8);
        let stream = Stream {
            index: 0,
            media_type: MediaType::Audio,
            codec_id: CodecId::Aac,
            time_base: Rational::new(1, sample_rate as i32),
            duration: -1,
            start_time: 0,
            nb_frames: 0,
            extra_data,
            params: StreamParams::Audio(
                AudioStreamParams {
                    sample_rate,
                    channel_layout: ChannelLayout::from_channels(channels),
                    sample_format: SampleFormat::F32,
                    bit_rate: 0,
                    frame_size: 1024,
                },
            ),
            metadata: Vec::new(),
        };
        proof {
            assert(stream.extra_data@ =~= aac_asc(header));
            assert(stream_view(stream) == aac_stream(header));
        }
        let mut streams: Vec<Stream> = Vec::new();
        streams.push(stream);
        self.streams = streams;
        assert(stream_views(self.streams@) =~= seq![aac_stream(header)]);
        Ok(())
    }

    /// What `read_packet` does: the payload of the next frame (see
    /// `aac_next`), timed by the samples read before it.
    pub open spec fn read_post(old_self: Self, new_self: Self, old_io: IoContext, new_io: IoContext, r: TaoResult<Packet>) -> bool {
        &&& new_io.contents() == old_io.contents()
        &&& new_self.stream_list() == old_self.stream_list()
        &&& match aac_next(old_io.contents(), old_io.cursor() as int) {
            Ok((q, h)) => {
                let n = h.frame_length - h.header_size;
                &&& r matches Ok(p) && {
                    &&& p.payload() == bytes_at(old_io.contents(), q as nat, n as nat)
                    &&& p.stream_index == 0
                    &&& p.pts == old_self.state().sample_count as i64
                    &&& p.dts == p.pts
                    &&& p.is_keyframe
                    &&& p.duration == old_self.state().samples_per_frame as i64
                    &&& p.time_base == Rational::new_spec(1, old_self.state().sample_rate as i32)
                    &&& p.pos == -1
                }
                &&& new_io.cursor() == q + n
                &&& new_self.state() == (AacState {
                    sample_count: (old_self.state().sample_count + old_self.state().samples_per_frame) as u64,
                    ..old_self.state()
                })
            },
            Err(k) => {
                &&& r matches Err(e) && e.kind() == k
                &&& new_self.state() == old_self.state()
            },
        }
    }

    /// Reads the next ADTS frame's payload.
    pub fn read_aac_packet(&mut self, io: &mut IoContext) -> (r: TaoResult<Packet>)
        requires
            io_in_range(*old(io)),
            old(self).state().sample_count <= i64::MAX - 0xFFFF_FFFF,
        ensures
            Self::read_post(*old(self), *final(self), *old(io), *final(io), r),
    {
        let ghost d = io.contents();
        let ghost c = io.cursor() as int;
        let buf = io.read_bytes(7)?;
        assert(buf@ =~= d.subrange(c, c + 7));
        let header = match parse_adts_header(buf.as_slice()) {
            Some(h) => h,
            None => {
                return Err(invalid_data("AAC: invalid ADTS frame header"));
            },
        };
        if header.has_crc {
            io.skip(2)?;
        }
        let data_size = header.frame_length - header.header_size as u16;
        let ghost q = io.cursor() as int;
        let data = io.read_bytes(data_size as usize)?;

        let pts = self.sample_count as i64;
        self.sample_count = self.sample_count + self.samples_per_frame as u64;
        let mut pkt = Packet::from_vec(data);
        pkt.stream_index = 0;
        pkt.pts = pts;
        pkt.dts = pts;
        pkt.is_keyframe = true;
        pkt.time_base = Rational::new(1, self.sample_rate as i32);
        pkt.duration = self.samples_per_frame as i64;
        Ok(pkt)
    }
}

impl Demuxer for AacDemuxer {
    open spec fn open_admits(&self, io: IoContext) -> bool {
        true
    }

    fn open_admitted(&self, io: &IoContext) -> (b: bool)
        ensures
            b == self.open_admits(*io),
    {
        true
    }

    open spec fn format_kind(&self) -> FormatId {
        FormatId::AacAdts
    }

    open spec fn stream_seq(&self) -> Seq<Stream> {
        self.stream_list()
    }

    open spec fn seek_admits(&self, stream_index: usize, timestamp: i64) -> bool {
        true
    }

    open spec fn read_admits(&self) -> bool {
        self.state().sample_count <= i64::MAX - 0xFFFF_FFFF
    }

    fn read_admitted(&self) -> (b: bool)
        ensures
            b == self.read_admits(),
    {
        self.sample_count <= (i64::MAX - 0xFFFF_FFFF) as u64
    }

    fn seek_admitted(&self, stream_index: usize, timestamp: i64) -> (b: bool)
        ensures
            b == self.seek_admits(stream_index, timestamp),
    {
        true
    }


    fn format_id(&self) -> (r: FormatId)
        ensures
            r == FormatId::AacAdts,
    {
        FormatId::AacAdts
    }

    fn name(&self) -> (r: &'static str)
        ensures
            r@ == "aac"@,
    {
        "aac"
    }

    fn open(&mut self, io: &mut IoContext) -> (r: TaoResult<()>)
        ensures
            Self::open_post(*old(self), *final(self), *old(io), *final(io), r),
    {
        self.open_aac(io)
    }

    fn streams(&self) -> (r: &[Stream])
        ensures
            r@ == self.stream_list(),
    {
        self.streams.as_slice()
    }

    fn read_packet(&mut self, io: &mut IoContext) -> (r: TaoResult<Packet>)
        ensures
            Self::read_post(*old(self), *final(self), *old(io), *final(io), r),
    {
        self.read_aac_packet(io)
    }

    /// Seeking is not implemented: always `NotImplemented`, and nothing
    /// changes.
    fn seek(&mut self, io: &mut IoContext, stream_index: usize, timestamp: i64, flags: SeekFlags) -> (r: TaoResult<()>)
        ensures
            r matches Err(e) && e.kind() == ErrorKind::NotImplemented,
            *final(self) == *old(self),
            *final(io) == *old(io),
    {
        Err(not_implemented("AAC ADTS seek is not implemented"))
    }

    fn metadata(&self) -> (r: &[(String, String)])
        ensures
            r@ == self.meta(),
    {
        self.metadata.as_slice()
    }
}

} // verus!
