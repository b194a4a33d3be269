//! MPEG audio (MP3) frames.
//!
//! A frame header is 32 bits: an 11 bit sync (all ones), the MPEG version,
//! the layer, the CRC-protection bit, the bitrate index, the sample rate
//! index, the padding bit, the private bit, the channel mode and a few flags.

use vstd::prelude::*;
use crate::probe::{
    FormatProbe, ProbeScore, SCORE_EXTENSION, SCORE_MAX, ext_matches_ci, filename_ext_is,
    syncsafe_len, syncsafe_size,
};
use crate::format_id::FormatId;
use crate::endian::{be32, u32_from_be, le32_bytes};
use crate::error::{ErrorKind, TaoError, TaoResult, invalid_data, not_implemented};
use crate::io::{IoContext, SeekFrom, bytes_at};
use crate::media::{
    AudioStreamParams, ChannelLayout, CodecId, MediaType, Packet, Rational, SampleFormat, SeekFlags,
    Stream, StreamParams,
};
use crate::demuxer::{Demuxer, io_in_range};
use crate::demuxers::avi::{StreamView, stream_view, stream_views};

verus! {

/// MPEG audio version.
#[derive(Debug, Clone, Copy, PartialEq, Eq, Structural)]
pub enum MpegVersion {
    /// MPEG-1.
    V1,
    /// MPEG-2.
    V2,
    /// MPEG-2.5.
    V25,
}

/// Fields of an MPEG audio frame header.
#[derive(Debug, Clone, Copy, PartialEq, Eq, Structural)]
pub struct FrameHeader {
    /// MPEG version.
    pub version: MpegVersion,
    /// Layer (1, 2 or 3).
    pub layer: u8,
    /// Whether a CRC follows the header.
    pub _has_crc: bool,
    /// Bit rate in bits per second.
    pub bitrate: u32,
    /// Sample rate in Hz.
    pub sample_rate: u32,
    /// Padding bytes (0 or 1).
    pub _padding: u32,
    /// Channel mode (0 stereo, 1 joint stereo, 2 dual channel, 3 mono).
    pub channel_mode: u8,
    /// Frame size in bytes, header included.
    pub frame_size: u32,
    /// Samples per frame.
    pub samples_per_frame: u32,
}

/// Bit rate in kbit/s of a bitrate index (1 to 14) for a version and layer.
pub open spec fn mp3_bitrate_kbps(v: MpegVersion, layer: int, i: int) -> u32 {
    let v1_l3 = seq![0u32, 32, 40, 48, 56, 64, 80, 96, 112, 128, 160, 192, 224, 256, 320];
    let v2_l3 = seq![0u32, 8, 16, 24, 32, 40, 48, 56, 64, 80, 96, 112, 128, 144, 160];
    let v1_l2 = seq![0u32, 32, 48, 56, 64, 80, 96, 112, 128, 160, 192, 224, 256, 320, 384];
    let v1_l1 = seq![0u32, 32, 64, 96, 128, 160, 192, 224, 256, 288, 320, 352, 384, 416, 448];
    if v == MpegVersion::V1 {
        if layer == 3 { v1_l3[i] } else if layer == 2 { v1_l2[i] } else { v1_l1[i] }
    } else {
        if layer == 1 { v1_l2[i] } else { v2_l3[i] }
    }
}

/// Sample rate of a sample rate index (0 to 2) for a version.
pub open spec fn mp3_sample_rate(v: MpegVersion, i: int) -> u32 {
    let base: u32 = if i == 0 { 44100 } else if i == 1 { 48000 } else { 32000 };
    match v {
        MpegVersion::V1 => base,
        MpegVersion::V2 => (base / 2) as u32,
        MpegVersion::V25 => (base / 4) as u32,
    }
}

/// The frame header that the 32 bit word `h` denotes, if it is one.
#[verifier::opaque]
pub open spec fn mp3_header(h: u32) -> Option<FrameHeader> {
    let version_bits = (h / 0x80000) % 4;
    let layer_bits = (h / 0x20000) % 4;
    let br_idx = (h / 0x1000) % 16;
    let sr_idx = (h / 0x400) % 4;
    if h / 0x200000 != 0x7FF || version_bits == 1 || layer_bits == 0 || br_idx == 0 || br_idx
        == 15 || sr_idx == 3 {
        None
    } else {
        let version = if version_bits == 0 {
            MpegVersion::V25
        } else if version_bits == 2 {
            MpegVersion::V2
        } else {
            MpegVersion::V1
        };
        let layer: int = 4 - layer_bits;
        let bitrate: int = mp3_bitrate_kbps(version, layer, br_idx as int) * 1000;
        let sample_rate = mp3_sample_rate(version, sr_idx as int);
        let sr: int = sample_rate as int;
        let padding: int = ((h / 0x200) % 2) as int;
        let frame_size: int = if layer == 1 {
            (12 * bitrate / sr + padding) * 4
        } else {
            let factor: int = if version == MpegVersion::V1 { 144 } else { 72 };
            factor * bitrate / sr + padding
        };
        let samples: u32 = if layer == 1 { 384 } else if layer == 2 || version == MpegVersion::V1 {
            1152
        } else {
            576
        };
        if frame_size < 4 {
            None
        } else {
            Some(
                FrameHeader {
                    version,
                    layer: layer as u8,
                    _has_crc: (h / 0x10000) % 2 == 0,
                    bitrate: bitrate as u32,
                    sample_rate,
                    _padding: padding as u32,
                    channel_mode: ((h / 0x40) % 4) as u8,
                    frame_size: frame_size as u32,
                    samples_per_frame: samples,
                },
            )
        }
    }
}

fn bitrate_kbps(v: MpegVersion, layer: u8, i: usize) -> (r: u32)
    requires
        1 <= layer <= 3,
        1 <= i <= 14,
    ensures
        r == mp3_bitrate_kbps(v, layer as int, i as int),
        r <= 448,
{
    let v1_l3: [u32; 15] = [0, 32, 40, 48, 56, 64, 80, 96, 112, 128, 160, 192, 224, 256, 320];
    let v2_l3: [u32; 15] = [0, 8, 16, 24, 32, 40, 48, 56, 64, 80, 96, 112, 128, 144, 160];
    let v1_l2: [u32; 15] = [0, 32, 48, 56, 64, 80, 96, 112, 128, 160, 192, 224, 256, 320, 384];
    let v1_l1: [u32; 15] = [0, 32, 64, 96, 128, 160, 192, 224, 256, 288, 320, 352, 384, 416, 448];
    assert(v1_l3@ =~= seq![0u32, 32, 40, 48, 56, 64, 80, 96, 112, 128, 160, 192, 224, 256, 320]);
    assert(v2_l3@ =~= seq![0u32, 8, 16, 24, 32, 40, 48, 56, 64, 80, 96, 112, 128, 144, 160]);
    assert(v1_l2@ =~= seq![0u32, 32, 48, 56, 64, 80, 96, 112, 128, 160, 192, 224, 256, 320, 384]);
    assert(v1_l1@ =~= seq![0u32, 32, 64, 96, 128, 160, 192, 224, 256, 288, 320, 352, 384, 416, 448]);
    if v == MpegVersion::V1 {
        if layer == 3 {
            v1_l3[i]
        } else if layer == 2 {
            v1_l2[i]
        } else {
            v1_l1[i]
        }
    } else {
        if layer == 1 {
            v1_l2[i]
        } else {
            v2_l3[i]
        }
    }
}

/// A valid header describes a frame of at least four bytes, at most 1152
/// samples and a sample rate between 8000 and 48000.
pub proof fn lemma_mp3_header_bounds(h: u32)
    ensures
        mp3_header(h) matches Some(fh) ==> fh.frame_size >= 4 && fh.samples_per_frame <= 1152 && 8000
            <= fh.sample_rate <= 48000,
{
    reveal(mp3_header);
}

/// The length of a frame follows from the samples it holds: Layer III
/// frames hold 1152 samples in MPEG-1 and 576 in MPEG-2 and 2.5, Layer II
/// frames 1152 and Layer I frames 384. A Layer III frame (and an MPEG-1
/// Layer II frame) is samples / 8 × bit rate / sample rate bytes, plus the
/// padding byte; a Layer I frame is made of four-byte slots, samples / 32 ×
/// bit rate / sample rate of them plus the padding slot.
pub proof fn law_mp3_frame_size(h: u32)
    ensures
        mp3_header(h) matches Some(fh) ==> {
            &&& fh.layer == 3 ==> fh.samples_per_frame == (if fh.version == MpegVersion::V1 {
                1152u32
            } else {
                576u32
            })
            &&& fh.layer == 2 ==> fh.samples_per_frame == 1152
            &&& fh.layer == 1 ==> fh.samples_per_frame == 384
            &&& (fh.layer == 3 || (fh.layer == 2 && fh.version == MpegVersion::V1)) ==> fh.frame_size
                == (fh.samples_per_frame as int) / 8 * (fh.bitrate as int) / (fh.sample_rate as int) + fh._padding
            &&& fh.layer == 1 ==> fh.frame_size == ((fh.samples_per_frame as int) / 32 * (fh.bitrate as int) / (fh.sample_rate as int)
                + fh._padding) * 4
        },
{
    reveal(mp3_header);
}

/// MPEG-1 sample rates are 44100, 48000 and 32000 Hz for indexes 0, 1 and
/// 2; MPEG-2 halves them and MPEG-2.5 quarters them.
pub proof fn law_mp3_sample_rates(i: int)
    requires
        0 <= i < 3,
    ensures
        mp3_sample_rate(MpegVersion::V1, i) == (if i == 0 { 44100u32 } else if i == 1 { 48000u32 } else { 32000u32 }),
        mp3_sample_rate(MpegVersion::V2, i) * 2 == mp3_sample_rate(MpegVersion::V1, i),
        mp3_sample_rate(MpegVersion::V25, i) * 4 == mp3_sample_rate(MpegVersion::V1, i),
{
}

/// Within a version and layer, bit rates rise with the bitrate index; the
/// highest MPEG-1 rates are 448, 384 and 320 kbit/s for Layers I, II and
/// III, and MPEG-2 Layer III tops at 160 kbit/s.
pub proof fn law_mp3_bitrates(v: MpegVersion, layer: int, i: int, j: int)
    requires
        1 <= layer <= 3,
        1 <= i < j <= 14,
    ensures
        mp3_bitrate_kbps(v, layer, i) < mp3_bitrate_kbps(v, layer, j),
        mp3_bitrate_kbps(MpegVersion::V1, 1, 14) == 448,
        mp3_bitrate_kbps(MpegVersion::V1, 2, 14) == 384,
        mp3_bitrate_kbps(MpegVersion::V1, 3, 14) == 320,
        mp3_bitrate_kbps(MpegVersion::V2, 3, 14) == 160,
{
}

/// Parses a 32 bit MPEG audio frame header.
pub fn parse_frame_header(header: u32) -> (r: Option<FrameHeader>)
    ensures
        r == mp3_header(header),
        r matches Some(fh) ==> fh.frame_size >= 4 && fh.samples_per_frame <= 1152 && 8000
            <= fh.sample_rate <= 48000,
{
    reveal(mp3_header);
    let h = header;
    assert(h >> 21u32 == h / 0x200000 && (h >> 19u32) & 0x03 == (h / 0x80000) % 4 && (h >> 17u32)
        & 0x03 == (h / 0x20000) % 4 && (h >> 16u32) & 1 == (h / 0x10000) % 2 && (h >> 12u32) & 0x0F
        == (h / 0x1000) % 16 && (h >> 10u32) & 0x03 == (h / 0x400) % 4 && (h >> 9u32) & 1 == (h
        / 0x200) % 2 && (h >> 6u32) & 0x03 == (h / 0x40) % 4) by (bit_vector);
    if (h >> 21u32) != 0x7FF {
        return None;
    }
    let vb = (h >> 19u32) & 0x03;
    let version = if vb == 0 {
        MpegVersion::V25
    } else if vb == 2 {
        MpegVersion::V2
    } else if vb == 3 {
        MpegVersion::V1
    } else {
        return None;
    };
    let lb = (h >> 17u32) & 0x03;
    let layer: u8 = if lb == 1 {
        3
    } else if lb == 2 {
        2
    } else if lb == 3 {
        1
    } else {
        return None;
    };
    let has_crc = ((h >> 16u32) & 1) == 0;
    let br_idx = ((h >> 12u32) & 0x0F) as usize;
    if br_idx == 0 || br_idx == 15 {
        return None;
    }
    let bitrate = bitrate_kbps(version, layer, br_idx) * 1000;
    let sr_idx = (h >> 10u32) & 0x03;
    if sr_idx == 3 {
        return None;
    }
    let base: u32 = if sr_idx == 0 {
        44100
    } else if sr_idx == 1 {
        48000
    } else {
        32000
    };
    let sample_rate = match version {
        MpegVersion::V1 => base,
        MpegVersion::V2 => base / 2,
        MpegVersion::V25 => base / 4,
    };
    let padding = (h >> 9u32) & 1;
    let channel_mode = ((h >> 6u32) & 0x03) as u8;
    let samples_per_frame: u32 = if layer == 1 {
        384
    } else if layer == 2 || version == MpegVersion::V1 {
        1152
    } else {
        576
    };
    let frame_size = if layer == 1 {
        (12 * bitrate / sample_rate + padding) * 4
    } else {
        let factor: u32 = if version == MpegVersion::V1 {
            144
        } else {
            72
        };
        factor * bitrate / sample_rate + padding
    };
    if frame_size < 4 {
        return None;
    }
    Some(
        FrameHeader {
            version,
            layer,
            _has_crc: has_crc,
            bitrate,
            sample_rate,
            _padding: padding,
            channel_mode,
            frame_size,
            samples_per_frame,
        },
    )
}

/// Where the MP3 probe looks for a frame header: after an ID3v2 tag if
/// the data starts with one.
pub open spec fn mp3_probe_start(d: Seq<u8>) -> int {
    if d.len() >= 10 && d[0] == 0x49 && d[1] == 0x44 && d[2] == 0x33 {
        10 + syncsafe_size(d[6], d[7], d[8], d[9]) as int
    } else {
        0
    }
}

/// What the MP3 probe answers.
pub open spec fn mp3_probe_score(d: Seq<u8>, filename: Option<&str>) -> Option<ProbeScore> {
    let s = mp3_probe_start(d);
    if d.len() >= s + 4 && mp3_header(be32(d[s], d[s + 1], d[s + 2], d[s + 3]) as u32) is Some {
        Some((SCORE_MAX - 5) as u32)
    } else if ext_matches_ci(filename, "mp3"@) {
        Some(SCORE_EXTENSION)
    } else {
        None
    }
}

/// Recogniser of raw MPEG audio streams.
pub struct Mp3Probe;

impl FormatProbe for Mp3Probe {
    fn probe(&self, data: &[u8], filename: Option<&str>) -> (r: Option<ProbeScore>)
        ensures
            r == mp3_probe_score(data@, filename),
    {
        let mut start: usize = 0;
        if data.len() >= 10 && data[0] == 0x49 && data[1] == 0x44 && data[2] == 0x33 {
            start = 10 + syncsafe_len(data[6], data[7], data[8], data[9]);
        }
        if start <= data.len() && 4 <= data.len() - start {
            let header = u32_from_be(data[start], data[start + 1], data[start + 2], data[start + 3]);
            if parse_frame_header(header).is_some() {
                return Some(SCORE_MAX - 5);
            }
        }
        if filename_ext_is(filename, "mp3") {
            return Some(SCORE_EXTENSION);
        }
        None
    }

    fn format_id(&self) -> (r: FormatId)
        ensures
            r == FormatId::Mp3Container,
    {
        FormatId::Mp3Container
    }
}

/// The big-endian 32-bit word of `d` at `p`.
pub open spec fn word_at(d: Seq<u8>, p: int) -> u32 {
    be32(d[p], d[p + 1], d[p + 2], d[p + 3]) as u32
}

/// Where the frame search starts after the ID3v2 tag at `c`: after the
/// tag, or at offset 0 when there is none; `Eof` when ten bytes are not
/// there.
pub open spec fn id3_skip(d: Seq<u8>, c: int) -> Result<int, ErrorKind> {
    if c < 0 || c + 10 > d.len() {
        Err(ErrorKind::Eof)
    } else if d.subrange(c, c + 3) != seq![0x49u8, 0x44, 0x33] {
        Ok(0)
    } else {
        Ok((10 + syncsafe_size(d[c + 6], d[c + 7], d[c + 8], d[c + 9])) as int)
    }
}

/// The first frame at or after `pos` (before `limit`) whose next frame
/// header is valid too.
pub open spec fn first_frame(d: Seq<u8>, pos: int, limit: int) -> Result<(int, FrameHeader), ErrorKind>
    decreases limit - pos,
{
    if pos >= limit || pos < 0 || pos + 4 > d.len() {
        Err(ErrorKind::InvalidData)
    } else {
        match mp3_header(word_at(d, pos)) {
            Some(fh) => {
                let np = pos + fh.frame_size;
                if np + 4 <= d.len() && mp3_header(word_at(d, np)) is Some {
                    Ok((pos, fh))
                } else {
                    first_frame(d, pos + 1, limit)
                }
            },
            None => first_frame(d, pos + 1, limit),
        }
    }
}

/// Offset of a Xing/Info tag after the frame header.
pub open spec fn xing_offset(fh: FrameHeader) -> int {
    if fh.version == MpegVersion::V1 {
        if fh.channel_mode == 3 { 17 } else { 32 }
    } else {
        if fh.channel_mode == 3 { 9 } else { 17 }
    }
}

/// The position after a read of `n` bytes at `q` whose failure is
/// ignored: past the bytes, or at the end of the data.
pub open spec fn adv(d: Seq<u8>, q: int, n: int) -> int {
    if q + n <= d.len() { q + n } else if q < d.len() { d.len() as int } else { q }
}

/// The Xing/Info tag values.
pub open spec fn xing_tag(t: Seq<u8>) -> bool {
    ||| t[0] == 0x58 && t[1] == 0x69 && t[2] == 0x6E && t[3] == 0x67
    ||| t[0] == 0x49 && t[1] == 0x6E && t[2] == 0x66 && t[3] == 0x6F
}

/// What the VBR header of the frame at `fo` gives: the frame count it
/// states, and the encoder delay and padding of a LAME extension with
/// sensible values (both at most 2880, not both 0); an error when a tag is
/// cut short.
pub open spec fn vbr_info(d: Seq<u8>, fo: int, fh: FrameHeader) -> Result<(Option<u32>, u32, u32), ErrorKind> {
    let a = fo + 4 + xing_offset(fh);
    if a + 4 <= d.len() && xing_tag(d.subrange(a, a + 4)) {
        let p0 = a + 4;
        if p0 + 4 > d.len() {
            Err(ErrorKind::Eof)
        } else {
            let f = word_at(d, p0);
            let q0 = p0 + 4;
            if f % 2 == 1 && q0 + 4 > d.len() {
                Err(ErrorKind::Eof)
            } else {
                let frames = if f % 2 == 1 { Some(word_at(d, q0)) } else { None };
                let q1 = if f % 2 == 1 { q0 + 4 } else { q0 };
                let q2 = if (f / 2) % 2 == 1 { adv(d, q1, 4) } else { q1 };
                let q3 = if (f / 4) % 2 == 1 { adv(d, q2, 100) } else { q2 };
                let q4 = if (f / 8) % 2 == 1 { adv(d, q3, 4) } else { q3 };
                if q4 + 24 <= d.len() {
                    let delay = d[q4 + 21] * 16 + d[q4 + 22] / 16;
                    let pad = (d[q4 + 22] % 16) * 256 + d[q4 + 23];
                    if delay <= 2880 && pad <= 2880 && (delay > 0 || pad > 0) {
                        Ok((frames, delay as u32, pad as u32))
                    } else {
                        Ok((frames, 0u32, 0u32))
                    }
                } else {
                    Ok((frames, 0u32, 0u32))
                }
            }
        }
    } else {
        let v = fo + 36;
        if v + 4 <= d.len() && d[v] == 0x56 && d[v + 1] == 0x42 && d[v + 2] == 0x52 && d[v + 3] == 0x49 {
            if v + 18 > d.len() {
                Err(ErrorKind::Eof)
            } else {
                Ok((Some(word_at(d, v + 14)), 0u32, 0u32))
            }
        } else {
            Ok((None, 0u32, 0u32))
        }
    }
}

/// The reader's counters.
pub struct Mp3State {
    pub first_frame_offset: u64,
    pub current_pts: i64,
    pub spf: u32,
    pub total_frames: u32,
    pub frames_read: u64,
    pub delay: u16,
    pub padding: u16,
}

/// The eight little-endian bytes of `v`.
pub open spec fn le64_bytes(v: u64) -> Seq<u8> {
    le32_bytes((v % 0x1_0000_0000) as u32) + le32_bytes((v / 0x1_0000_0000) as u32)
}

/// The gapless data a stream carries: the samples to skip at the front
/// (delay plus the decoder's 529), the padding, and the samples left.
pub open spec fn gapless_bytes(st: Mp3State) -> Seq<u8> {
    if st.delay > 0 || st.padding > 0 {
        let total = st.total_frames * st.spf;
        let valid = if st.total_frames > 0 {
            let a = if total > st.delay { total - st.delay } else { 0 };
            if a > st.padding { a - st.padding } else { 0 }
        } else {
            0
        };
        le32_bytes((st.delay + 529) as u32) + le32_bytes(st.padding as u32) + le64_bytes(valid as u64)
    } else {
        seq![]
    }
}

/// The stream `open` adds for the first frame `fh`.
pub open spec fn mp3_stream(fh: FrameHeader, st: Mp3State) -> StreamView {
    StreamView {
        index: 0,
        media_type: MediaType::Audio,
        codec_id: if fh.layer == 2 { CodecId::Mp2 } else { CodecId::Mp3 },
        time_base: Rational::new_spec(1, fh.sample_rate as i32),
        duration: if st.total_frames > 0 { (st.total_frames * fh.samples_per_frame) as i64 } else { -1i64 },
        start_time: 0,
        nb_frames: st.total_frames as u64,
        extra: gapless_bytes(st),
        params: StreamParams::Audio(
            AudioStreamParams {
                sample_rate: fh.sample_rate,
                channel_layout: ChannelLayout { channels: if fh.channel_mode == 3 { 1 } else { 2 } },
                sample_format: SampleFormat::F32,
                bit_rate: fh.bitrate as u64,
                frame_size: fh.samples_per_frame,
            },
        ),
        metadata: seq![],
    }
}

/// What `open` does from `c`: the position of the first data frame, the
/// counters after it and the stream added; or the error.
pub open spec fn mp3_open(d: Seq<u8>, c: int, st: Mp3State) -> Result<(Mp3State, StreamView), ErrorKind> {
    match id3_skip(d, c) {
        Err(k) => Err(k),
        Ok(s) => match first_frame(d, s, s + 65536) {
            Err(k) => Err(k),
            Ok((pos, fh)) => {
                let st1 = Mp3State { first_frame_offset: pos as u64, spf: fh.samples_per_frame, ..st };
                let st2 = match vbr_info(d, pos, fh) {
                    Ok((fo, dl, pd)) => Mp3State {
                        total_frames: match fo { Some(f) => f, None => st.total_frames },
                        delay: dl as u16,
                        padding: pd as u16,
                        first_frame_offset: (pos + fh.frame_size) as u64,
                        ..st1
                    },
                    Err(_) => st1,
                };
                Ok((st2, mp3_stream(fh, st2)))
            },
        },
    }
}

/// The next frame from `c`: bytes that do not start a frame are skipped
/// one at a time.
pub open spec fn mp3_next(d: Seq<u8>, c: int) -> Result<(int, FrameHeader), ErrorKind>
    decreases d.len() - c,
{
    if c < 0 || c + 4 > d.len() {
        Err(ErrorKind::Eof)
    } else {
        match mp3_header(word_at(d, c)) {
            Some(fh) => if c + fh.frame_size > d.len() {
                Err(ErrorKind::Eof)
            } else {
                Ok((c, fh))
            },
            None => mp3_next(d, c + 1),
        }
    }
}

/// Reads the big-endian word at the cursor.
fn read_word(io: &mut IoContext) -> (r: TaoResult<u32>)
    ensures
        IoContext::read_post(*old(io), *final(io), 4, r is Ok),
        r is Err ==> r == Err::<u32, TaoError>(TaoError::Eof),
        r matches Ok(v) ==> v == word_at(old(io).contents(), old(io).cursor() as int),
{
    io.read_u32_be()
}

/// Reader of MP3 files: an optional ID3v2 tag, then MPEG audio frames.
pub struct Mp3Demuxer {
    streams: Vec<Stream>,
    first_frame_offset: u64,
    current_pts: i64,
    samples_per_frame: u32,
    total_frames: u32,
    frames_read: u64,
    encoder_delay: u16,
    encoder_padding: u16,
    metadata: Vec<(String, String)>,
}

impl Mp3Demuxer {
    /// The counters.
    pub closed spec fn state(&self) -> Mp3State {
        Mp3State {
            first_frame_offset: self.first_frame_offset,
            current_pts: self.current_pts,
            spf: self.samples_per_frame,
            total_frames: self.total_frames,
            frames_read: self.frames_read,
            delay: self.encoder_delay,
            padding: self.encoder_padding,
        }
    }

    /// The streams.
    pub closed spec fn stream_list(&self) -> Seq<Stream> {
        self.streams@
    }

    /// The container metadata (none).
    pub closed spec fn meta(&self) -> Seq<(String, String)> {
        self.metadata@
    }

    /// A reader before `open`.
    pub fn new() -> (r: Self)
        ensures
            r.state() == (Mp3State {
                first_frame_offset: 0,
                current_pts: 0,
                spf: 1152,
                total_frames: 0,
                frames_read: 0,
                delay: 0,
                padding: 0,
            }),
            r.stream_list().len() == 0,
            r.meta().len() == 0,
    {
        Mp3Demuxer {
            streams: Vec::new(),
            first_frame_offset: 0,
            current_pts: 0,
            samples_per_frame: 1152,
            total_frames: 0,
            frames_read: 0,
            encoder_delay: 0,
            encoder_padding: 0,
            metadata: Vec::new(),
        }
    }

    /// A boxed reader, for a registry.
    pub fn create() -> (r: TaoResult<Box<dyn Demuxer>>)
        ensures
            r matches Ok(d) && d.format_kind() == FormatId::Mp3Container && d.stream_seq().len() == 0,
    {
        Ok(Box::new(Mp3Demuxer::new()))
    }

    /// Skips an ID3v2 tag at the cursor; without one, goes back to offset 0.
    fn skip_id3v2(io: &mut IoContext) -> (r: TaoResult<u64>)
        requires
            io_in_range(*old(io)),
        ensures
            final(io).contents() == old(io).contents(),
            match id3_skip(old(io).contents(), old(io).cursor() as int) {
                Ok(s) => r == Ok::<u64, TaoError>(s as u64) && final(io).cursor() == s,
                Err(k) => r matches Err(e) && e.kind() == k,
            },
    {
        let ghost d = io.contents();
        let ghost c = io.cursor() as int;
        let header = io.read_bytes(10)?;
        assert(header@ =~= d.subrange(c, c + 10));
        if !(header[0] == 0x49 && header[1] == 0x44 && header[2] == 0x33) {
            assert(d.subrange(c, c + 3) != seq![0x49u8, 0x44, 0x33]) by {
                assert(d.subrange(c, c + 3)[0] == header@[0]);
                assert(d.subrange(c, c + 3)[1] == header@[1]);
                assert(d.subrange(c, c + 3)[2] == header@[2]);
            }
            io.seek(SeekFrom::Start(0))?;
            return Ok(0);
        }
        assert(d.subrange(c, c + 3) =~= seq![0x49u8, 0x44, 0x33]);
        let size = syncsafe_len(header[6], header[7], header[8], header[9]) as u64;
        let total_tag_size = 10 + size;
        io.seek(SeekFrom::Start(total_tag_size))?;
        Ok(total_tag_size)
    }

    /// Finds the first frame from the cursor (within 64 KiB) whose next
    /// frame header is valid, and leaves the cursor on it.
    fn find_first_frame(io: &mut IoContext) -> (r: TaoResult<(u64, FrameHeader)>)
        requires
            io_in_range(*old(io)),
        ensures
            final(io).contents() == old(io).contents(),
            match first_frame(old(io).contents(), old(io).cursor() as int, (old(io).cursor() + 65536) as int) {
                Ok((pos, fh)) => r == Ok::<(u64, FrameHeader), TaoError>((pos as u64, fh)) && final(io).cursor() == pos,
                Err(k) => r matches Err(e) && e.kind() == k,
            },
            r matches Ok((p, fh)) ==> final(io).cursor() == p && p + 4 <= old(io).contents().len() && mp3_header(
                word_at(old(io).contents(), p as int),
            ) == Some(fh),
    {
        let ghost d = io.contents();
        let start = io.position()?;
        let limit = start + 65536;
        let mut pos = start;
        while pos < limit
            invariant
                io.contents() == d,
                d == old(io).contents(),
                io_in_range(*old(io)),
                start == old(io).cursor(),
                limit == start + 65536,
                start <= pos <= limit,
                io.cursor() <= 0x20_0000_0000_0000,
                first_frame(d, start as int, limit as int) == first_frame(d, pos as int, limit as int),
            ensures
                first_frame(d, start as int, limit as int) == Err::<(int, FrameHeader), ErrorKind>(ErrorKind::InvalidData),
                io.contents() == d,
                io.cursor() <= 0x20_0000_0000_0000,
            decreases limit - pos,
        {
            io.seek(SeekFrom::Start(pos))?;
            let header_val = match read_word(io) {
                Ok(v) => v,
                Err(_) => {
                    assert(first_frame(d, pos as int, limit as int) == Err::<(int, FrameHeader), ErrorKind>(ErrorKind::InvalidData));
                    break;
                },
            };
            match parse_frame_header(header_val) {
                Some(fh) => {
                    let next_pos = pos + fh.frame_size as u64;
                    if io.seek(SeekFrom::Start(next_pos)).is_ok() {
                        match read_word(io) {
                            Ok(next_val) => {
                                if parse_frame_header(next_val).is_some() {
                                    io.seek(SeekFrom::Start(pos))?;
                                    assert(first_frame(d, pos as int, limit as int) == Ok::<(int, FrameHeader), ErrorKind>((pos as int, fh)));
                                    return Ok((pos, fh));
                                }
                            },
                            Err(_) => {},
                        }
                    }
                },
                None => {},
            }
            assert(first_frame(d, pos as int, limit as int) == first_frame(d, pos + 1, limit as int));
            pos = pos + 1;
        }
        Err(invalid_data("MP3: no valid MPEG audio frame"))
    }

    /// Reads the Xing/Info or VBRI header of the frame at `frame_offset`.
    #[verifier::rlimit(60)]
    fn parse_vbr_header(io: &mut IoContext, frame_offset: u64, fh: &FrameHeader) -> (r: TaoResult<(Option<u32>, u32, u32)>)
        requires
            io_in_range(*old(io)),
            frame_offset <= old(io).contents().len(),
        ensures
            final(io).contents() == old(io).contents(),
            final(io).cursor() <= old(io).contents().len() + 64,
            match vbr_info(old(io).contents(), frame_offset as int, *fh) {
                Ok(v) => r == Ok::<(Option<u32>, u32, u32), TaoError>(v),
                Err(k) => r matches Err(e) && e.kind() == k,
            },
    {
        let ghost d = io.contents();
        let xing_offset: u64 = if fh.version == MpegVersion::V1 {
            if fh.channel_mode == 3 {
                17
            } else {
                32
            }
        } else {
            if fh.channel_mode == 3 {
                9
            } else {
                17
            }
        };
        let abs_offset = frame_offset + 4 + xing_offset;
        io.seek(SeekFrom::Start(abs_offset))?;
        let ghost a = abs_offset as int;
        match io.read_bytes(4) {
            Ok(tag) => {
                assert(tag@ =~= d.subrange(a, a + 4));
                let is_xing = (tag[0] == 0x58 && tag[1] == 0x69 && tag[2] == 0x6E && tag[3] == 0x67)
                    || (tag[0] == 0x49 && tag[1] == 0x6E && tag[2] == 0x66 && tag[3] == 0x6F);
                assert(is_xing == xing_tag(tag@));
                if is_xing {
                    let flags = read_word(io)?;
                    let total_frames = if flags % 2 == 1 {
                        Some(read_word(io)?)
                    } else {
                        None
                    };
                    if (flags / 2) % 2 == 1 {
                        let _ = read_word(io);
                    }
                    if (flags / 4) % 2 == 1 {
                        let _ = io.read_bytes(100);
                    }
                    if (flags / 8) % 2 == 1 {
                        let _ = read_word(io);
                    }
                    let ghost q4 = io.cursor() as int;
                    match io.read_bytes(24) {
                        Ok(lame) => {
                            assert(lame@ =~= d.subrange(q4, q4 + 24));
                            let encoder_delay = (lame[21] as u32) * 16 + (lame[22] as u32) / 16;
                            let encoder_padding = ((lame[22] as u32) % 16) * 256 + lame[23] as u32;
                            if encoder_delay <= 2880 && encoder_padding <= 2880 && (encoder_delay > 0
                                || encoder_padding > 0) {
                                return Ok((total_frames, encoder_delay, encoder_padding));
                            }
                        },
                        Err(_) => {},
                    }
                    return Ok((total_frames, 0, 0));
                }
            },
            Err(_) => {},
        }
        let vbri_offset = frame_offset + 4 + 32;
        io.seek(SeekFrom::Start(vbri_offset))?;
        let ghost v = vbri_offset as int;
        match io.read_bytes(4) {
            Ok(tag) => {
                assert(tag@ =~= d.subrange(v, v + 4));
                if tag[0] == 0x56 && tag[1] == 0x42 && tag[2] == 0x52 && tag[3] == 0x49 {
                    let _version = io.read_u16_be()?;
                    let _delay = io.read_u16_be()?;
                    let _quality = io.read_u16_be()?;
                    let _total_bytes = io.read_u32_be()?;
                    let total_frames = read_word(io)?;
                    return Ok((Some(total_frames), 0, 0));
                }
            },
            Err(_) => {},
        }
        Ok((None, 0, 0))
    }

    /// What `open` does (see `mp3_open`): on success the stream is added
    /// and the cursor is on the first data frame.
    pub open spec fn open_post(old_self: Self, new_self: Self, old_io: IoContext, new_io: IoContext, r: TaoResult<()>) -> bool {
        &&& new_io.contents() == old_io.contents()
        &&& match mp3_open(old_io.contents(), old_io.cursor() as int, old_self.state()) {
            Ok((st, sv)) => {
                &&& r is Ok
                &&& new_self.state() == st
                &&& stream_views(new_self.stream_list()) == stream_views(old_self.stream_list()).push(sv)
                &&& new_io.cursor() == st.first_frame_offset
            },
            Err(k) => {
                &&& r matches Err(e) && e.kind() == k
                &&& new_self.stream_list() == old_self.stream_list()
                &&& new_self.state() == old_self.state()
            },
        }
    }

    /// Skips an ID3v2 tag, finds the first frame, reads its VBR header and
    /// sets up the audio stream.
    #[verifier::rlimit(80)]
    #[verifier::spinoff_prover]
    pub fn open_mp3(&mut self, io: &mut IoContext) -> (r: TaoResult<()>)
        requires
            io_in_range(*old(io)),
        ensures
            Self::open_post(*old(self), *final(self), *old(io), *final(io), r),
    {
        let ghost d = io.contents();
        Self::skip_id3v2(io)?;
        let (frame_offset, fh) = Self::find_first_frame(io)?;
        let ghost st0 = self.state();
        assert(io.contents() == d);
        assert(frame_offset + 4 <= d.len());
        assert(io.cursor() == frame_offset);
        assert(io_in_range(*io));
        self.first_frame_offset = frame_offset;
        self.samples_per_frame = fh.samples_per_frame;
        match Self::parse_vbr_header(io, frame_offset, &fh) {
            Ok((frames_opt, delay, padding)) => {
                match frames_opt {
                    Some(frames) => {
                        self.total_frames = frames;
                    },
                    None => {},
                }
                self.encoder_delay = delay as u16;
                self.encoder_padding = padding as u16;
                self.first_frame_offset = frame_offset + fh.frame_size as u64;
            },
            Err(_) => {},
        }
        let channels: u32 = if fh.channel_mode == 3 {
            1
        } else {
            2
        };
        let codec_id = if fh.layer == 2 {
            CodecId::Mp2
        } else {
            CodecId::Mp3
        };
        proof {
            lemma_mp3_header_bounds(word_at(d, frame_offset as int));
        }
        let time_base = Rational::new(1, fh.sample_rate as i32);
        let tf = self.total_frames as u64;
        let spf = fh.samples_per_frame as u64;
        assert(tf * spf <= 0xFFFF_FFFF * 1152) by (nonlinear_arith)
            requires
                tf <= 0xFFFF_FFFF,
                spf <= 1152,
        ;
        let duration: i64 = if self.total_frames > 0 {
            (tf * spf) as i64
        } else {
            -1
        };
        let mut extra_data: Vec<u8> = Vec::new();
        if self.encoder_delay > 0 || self.encoder_padding > 0 {
            let front_skip: u32 = self.encoder_delay as u32 + 529;
            let valid_total: u64 = if self.total_frames > 0 {
                let total_spf = tf * spf;
                let a = if total_spf > self.encoder_delay as u64 {
                    total_spf - self.encoder_delay as u64
                } else {
                    0
                };
                if a > self.encoder_padding as u64 {
                    a - self.encoder_padding as u64
                } else {
                    0
                }
            } else {
                0
            };
            crate::endian::push_le32(&mut extra_data, front_skip);
            crate::endian::push_le32(&mut extra_data, self.encoder_padding as u32);
            crate::endian::push_le32(&mut extra_data, (valid_total % 0x1_0000_0000) as u32);
            crate::endian::push_le32(&mut extra_data, (valid_total / 0x1_0000_0000) as u32);
        }
        let stream = Stream {
            index: 0,
            media_type: MediaType::Audio,
            codec_id,
            time_base,
            duration,
            start_time: 0,
            nb_frames: self.total_frames as u64,
            extra_data,
            params: StreamParams::Audio(
                AudioStreamParams {
                    sample_rate: fh.sample_rate,
                    channel_layout: ChannelLayout::from_channels(channels),
                    sample_format: SampleFormat::F32,
                    bit_rate: fh.bitrate as u64,
                    frame_size: fh.samples_per_frame,
                },
            ),
            metadata: Vec::new(),
        };
        proof {
            let st = self.state();
            assert(stream.duration == mp3_stream(fh, st).duration);
            assert(stream.extra_data@ == gapless_bytes(st));
            assert(stream.params == mp3_stream(fh, st).params);
            assert(stream_view(stream) == mp3_stream(fh, st));
        }
        self.streams.push(stream);
        assert(stream_views(self.streams@) =~= stream_views(old(self).streams@).push(mp3_stream(fh, self.state())));
        io.seek(SeekFrom::Start(self.first_frame_offset))?;
        Ok(())
    }

    /// What `read_packet` does: the next frame from the cursor (see
    /// `mp3_next`), timed by the samples read before it.
    pub open spec fn read_post(old_self: Self, new_self: Self, old_io: IoContext, new_io: IoContext, r: TaoResult<Packet>) -> bool {
        &&& new_io.contents() == old_io.contents()
        &&& new_self.stream_list() == old_self.stream_list()
        &&& match mp3_next(old_io.contents(), old_io.cursor() as int) {
            Ok((c, fh)) => {
                &&& r matches Ok(p) && {
                    &&& p.payload() == old_io.contents().subrange(c, c + fh.frame_size)
                    &&& p.stream_index == 0
                    &&& p.pts == old_self.state().current_pts
                    &&& p.dts == p.pts
                    &&& p.is_keyframe
                    &&& p.duration == 0
                    &&& p.time_base == old_self.stream_list()[0].time_base
                    &&& p.pos == -1
                }
                &&& new_io.cursor() == c + fh.frame_size
                &&& new_self.state() == (Mp3State {
                    current_pts: (old_self.state().current_pts + fh.samples_per_frame) as i64,
                    frames_read: (old_self.state().frames_read + 1) as u64,
                    ..old_self.state()
                })
            },
            Err(k) => {
                &&& r matches Err(e) && e.kind() == k
                &&& new_self.state() == old_self.state()
            },
        }
    }

    /// Reads the next frame, skipping bytes that do not start one.
    pub fn read_mp3_packet(&mut self, io: &mut IoContext) -> (r: TaoResult<Packet>)
        requires
            io_in_range(*old(io)),
            old(self).stream_list().len() > 0,
            old(self).state().current_pts <= i64::MAX - 1152,
            old(self).state().frames_read < u64::MAX,
        ensures
            Self::read_post(*old(self), *final(self), *old(io), *final(io), r),
    {
        let ghost d = io.contents();
        let ghost target = mp3_next(d, io.cursor() as int);
        loop
            invariant
                io.contents() == d,
                d == old(io).contents(),
                io_in_range(*io),
                target == mp3_next(d, io.cursor() as int),
                target == mp3_next(old(io).contents(), old(io).cursor() as int),
                *self == *old(self),
                old(self).stream_list().len() > 0,
                old(self).state().current_pts <= i64::MAX - 1152,
                old(self).state().frames_read < u64::MAX,
            decreases d.len() - io.cursor(),
        {
            let pos = io.position()?;
            let hb = io.read_bytes(4)?;
            let header_val = u32_from_be(hb[0], hb[1], hb[2], hb[3]);
            match parse_frame_header(header_val) {
                Some(fh) => {
                    let rest = io.read_bytes((fh.frame_size - 4) as usize)?;
                    let mut frame_data: Vec<u8> = Vec::new();
                    crate::endian::push_all(&mut frame_data, hb.as_slice());
                    crate::endian::push_all(&mut frame_data, rest.as_slice());
                    proof {
                        let c = pos as int;
                        assert(frame_data@ =~= d.subrange(c, c + fh.frame_size));
                    }
                    let mut pkt = Packet::from_vec(frame_data);
                    pkt.stream_index = 0;
                    pkt.pts = self.current_pts;
                    pkt.dts = self.current_pts;
                    pkt.is_keyframe = true;
                    pkt.time_base = self.streams[0].time_base;
                    self.current_pts = self.current_pts + fh.samples_per_frame as i64;
                    self.frames_read = self.frames_read + 1;
                    return Ok(pkt);
                },
                None => {},
            }
            io.seek(SeekFrom::Start(pos + 1))?;
        }
    }
}

impl Demuxer for Mp3Demuxer {
    open spec fn open_admits(&self, io: IoContext) -> bool {
        true
    }

    fn open_admitted(&self, io: &IoContext) -> (b: bool)
        ensures
            b == self.open_admits(*io),
    {
        true
    }

    open spec fn format_kind(&self) -> FormatId {
        FormatId::Mp3Container
    }

    open spec fn stream_seq(&self) -> Seq<Stream> {
        self.stream_list()
    }

    open spec fn seek_admits(&self, stream_index: usize, timestamp: i64) -> bool {
        true
    }

    open spec fn read_admits(&self) -> bool {
        &&& self.stream_list().len() > 0
        &&& self.state().current_pts <= i64::MAX - 1152
        &&& self.state().frames_read < u64::MAX
    }

    fn read_admitted(&self) -> (b: bool)
        ensures
            b == self.read_admits(),
    {
        self.streams.len() > 0 && self.current_pts <= i64::MAX - 1152 && self.frames_read < u64::MAX
    }

    fn seek_admitted(&self, stream_index: usize, timestamp: i64) -> (b: bool)
        ensures
            b == self.seek_admits(stream_index, timestamp),
    {
        true
    }


    fn format_id(&self) -> (r: FormatId)
        ensures
            r == FormatId::Mp3Container,
    {
        FormatId::Mp3Container
    }

    fn name(&self) -> (r: &'static str)
        ensures
            r@ == "mp3"@,
    {
        "mp3"
    }

    fn open(&mut self, io: &mut IoContext) -> (r: TaoResult<()>)
        ensures
            Self::open_post(*old(self), *final(self), *old(io), *final(io), r),
    {
        self.open_mp3(io)
    }

    fn streams(&self) -> (r: &[Stream])
        ensures
            r@ == self.stream_list(),
    {
        self.streams.as_slice()
    }

    fn read_packet(&mut self, io: &mut IoContext) -> (r: TaoResult<Packet>)
        ensures
            Self::read_post(*old(self), *final(self), *old(io), *final(io), r),
    {
        self.read_mp3_packet(io)
    }

    /// Seeking is not implemented: always `NotImplemented`, and nothing
    /// changes.
    fn seek(&mut self, io: &mut IoContext, stream_index: usize, timestamp: i64, flags: SeekFlags) -> (r: TaoResult<()>)
        ensures
            r matches Err(e) && e.kind() == ErrorKind::NotImplemented,
            *final(self) == *old(self),
            *final(io) == *old(io),
    {
        Err(not_implemented("MP3 seek is not implemented"))
    }

    fn metadata(&self) -> (r: &[(String, String)])
        ensures
            r@ == self.meta(),
    {
        self.metadata.as_slice()
    }
}

} // verus!
