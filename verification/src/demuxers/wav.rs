//! WAV (RIFF/WAVE): a RIFF container whose `fmt ` chunk describes PCM or
//! compressed audio and whose `data` chunk holds the samples.

use vstd::prelude::*;
use crate::probe::{
    FormatProbe, ProbeScore, SCORE_EXTENSION, SCORE_MAX, has_tag, tag_at, str_views,
    name_ascii_ends_in, filename_ascii_ends_in, tag_is,
};
use crate::packet_data::bytes_from_vec;
use crate::format_id::FormatId;
use crate::error::{ErrorKind, TaoError, TaoResult, invalid_data, unsupported};
use crate::io::{IoContext, SeekFrom, bytes_at};
use crate::endian::{le16, le32};
use crate::media::{
    AudioStreamParams, ChannelLayout, CodecId, MediaType, Packet, Rational, SampleFormat,
    SeekFlags, Stream, StreamParams,
};
use crate::demuxer::{Demuxer, io_in_range};

verus! {

/// `fmt ` chunk id.
pub open spec fn fmt_tag() -> Seq<u8> {
    seq![0x66u8, 0x6D, 0x74, 0x20]
}

/// `data` chunk id.
pub open spec fn data_tag() -> Seq<u8> {
    seq![0x64u8, 0x61, 0x74, 0x61]
}

/// The fields of a `fmt ` chunk.
#[derive(Debug, Clone, Copy, PartialEq, Eq, Structural)]
pub struct WavFmt {
    /// Format code (1 PCM, 3 IEEE float).
    pub audio_format: u16,
    /// Channel count.
    pub channels: u16,
    /// Sample rate in Hz.
    pub sample_rate: u32,
    /// Bytes per second.
    pub byte_rate: u32,
    /// Bytes per sample frame.
    pub block_align: u16,
    /// Bits per sample.
    pub bits_per_sample: u16,
}

/// Little-endian `u16` of `d` at `p`.
pub open spec fn le16_at(d: Seq<u8>, p: int) -> u16 {
    le16(d[p], d[p + 1]) as u16
}

/// Little-endian `u32` of `d` at `p`.
pub open spec fn le32_at(d: Seq<u8>, p: int) -> u32 {
    le32(d[p], d[p + 1], d[p + 2], d[p + 3]) as u32
}

/// The `fmt ` fields whose 16 bytes start at `p`.
pub open spec fn wav_fmt_at(d: Seq<u8>, p: int) -> WavFmt {
    WavFmt {
        audio_format: le16_at(d, p),
        channels: le16_at(d, p + 2),
        sample_rate: le32_at(d, p + 4),
        byte_rate: le32_at(d, p + 8),
        block_align: le16_at(d, p + 12),
        bits_per_sample: le16_at(d, p + 14),
    }
}

/// Where the chunk walk of a WAV header ends.
pub enum WavScan {
    /// A `data` chunk after a `fmt ` chunk: the format, the offset of the
    /// data and its size.
    Found(WavFmt, int, u64),
    /// The walk stopped on an error of this kind.
    Failed(ErrorKind),
    /// The chunks ran out before a `data` chunk; the last `fmt ` seen.
    Ended(Option<WavFmt>),
}

/// The position after the chunk of `size` bytes whose header is at `p`,
/// its pad byte included.
pub open spec fn wav_next_chunk(p: int, size: int) -> int {
    p + 8 + size + size % 2
}

/// The chunk walk from position `p`, with `fmt` the format seen so far:
/// `fmt ` chunks set it, `data` ends the walk, other chunks are skipped.
pub open spec fn wav_scan(d: Seq<u8>, p: int, fmt: Option<WavFmt>) -> WavScan
    decreases d.len() - p,
{
    if p < 0 || p + 4 > d.len() {
        WavScan::Ended(fmt)
    } else if p + 8 > d.len() {
        WavScan::Failed(ErrorKind::Eof)
    } else {
        let size = le32_at(d, p + 4) as int;
        let next = wav_next_chunk(p, size);
        if d.subrange(p, p + 4) == fmt_tag() {
            if size < 16 {
                WavScan::Failed(ErrorKind::InvalidData)
            } else if p + 24 > d.len() {
                WavScan::Failed(ErrorKind::Eof)
            } else if next + 4 > d.len() {
                WavScan::Ended(Some(wav_fmt_at(d, p + 8)))
            } else {
                wav_scan(d, next, Some(wav_fmt_at(d, p + 8)))
            }
        } else if d.subrange(p, p + 4) == data_tag() {
            match fmt {
                Some(f) => WavScan::Found(f, p + 8, size as u64),
                None => WavScan::Failed(ErrorKind::InvalidData),
            }
        } else if next + 4 > d.len() {
            WavScan::Ended(fmt)
        } else {
            wav_scan(d, next, fmt)
        }
    }
}

/// Codec of a WAV format code and bit depth; `None` when unsupported.
pub open spec fn wav_codec(audio_format: u16, bits: u16) -> Option<CodecId> {
    if audio_format == 1 {
        if bits == 8 {
            Some(CodecId::PcmU8)
        } else if bits == 16 {
            Some(CodecId::PcmS16le)
        } else if bits == 24 {
            Some(CodecId::PcmS24le)
        } else if bits == 32 {
            Some(CodecId::PcmS32le)
        } else {
            None
        }
    } else if audio_format == 3 && bits == 32 {
        Some(CodecId::PcmF32le)
    } else {
        None
    }
}

/// Sample format of a PCM codec.
pub open spec fn pcm_sample_format(c: CodecId) -> SampleFormat {
    match c {
        CodecId::PcmU8 => SampleFormat::U8,
        CodecId::PcmS16le => SampleFormat::S16,
        CodecId::PcmS24le | CodecId::PcmS32le => SampleFormat::S32,
        CodecId::PcmF32le => SampleFormat::F32,
        _ => SampleFormat::Unknown,
    }
}

/// What opening a WAV file whose header starts at `p` leads to: the
/// format, the data offset and size, or the kind of error.
pub open spec fn wav_open_outcome(d: Seq<u8>, p: int) -> Result<(WavFmt, int, u64), ErrorKind> {
    if p + 4 > d.len() {
        Err(ErrorKind::Eof)
    } else if d.subrange(p, p + 4) != riff_tag() {
        Err(ErrorKind::InvalidData)
    } else if p + 12 > d.len() {
        Err(ErrorKind::Eof)
    } else if d.subrange(p + 8, p + 12) != wave_tag() {
        Err(ErrorKind::InvalidData)
    } else {
        match wav_scan(d, p + 12, None) {
            WavScan::Found(f, off, size) => match wav_codec(f.audio_format, f.bits_per_sample) {
                Some(_) => Ok((f, off, size)),
                None => Err(ErrorKind::Unsupported),
            },
            WavScan::Failed(k) => Err(k),
            WavScan::Ended(_) => Err(ErrorKind::InvalidData),
        }
    }
}

/// The RIFF chunk tag.
pub open spec fn riff_tag() -> Seq<u8> {
    seq![0x52u8, 0x49, 0x46, 0x46]
}

/// The WAVE form type.
pub open spec fn wave_tag() -> Seq<u8> {
    seq![0x57u8, 0x41, 0x56, 0x45]
}

/// What the WAV probe answers.
pub open spec fn wav_probe_score(d: Seq<u8>, filename: Option<&str>) -> Option<ProbeScore> {
    if tag_at(d, 0, riff_tag()) && tag_at(d, 8, wave_tag()) {
        Some(SCORE_MAX)
    } else if name_ascii_ends_in(filename, seq![".wav"@, ".wave"@]) {
        Some(SCORE_EXTENSION)
    } else {
        None
    }
}

/// Recogniser of WAV files.
pub struct WavProbe;

impl FormatProbe for WavProbe {
    fn probe(&self, data: &[u8], filename: Option<&str>) -> (r: Option<ProbeScore>)
        ensures
            r == wav_probe_score(data@, filename),
    {
        if has_tag(data, 0, &[0x52u8, 0x49, 0x46, 0x46]) && has_tag(data, 8, &[0x57u8, 0x41, 0x56, 0x45]) {
            return Some(SCORE_MAX);
        }
        let exts: [&str; 2] = [".wav", ".wave"];
        assert(str_views(exts@) =~= seq![".wav"@, ".wave"@]);
        if filename_ascii_ends_in(filename, exts.as_slice()) {
            return Some(SCORE_EXTENSION);
        }
        None
    }

    fn format_id(&self) -> (r: FormatId)
        ensures
            r == FormatId::Wav,
    {
        FormatId::Wav
    }
}


/// Whether `s` is the audio stream of a WAV file with format `f` and
/// `size` bytes of data.
pub open spec fn wav_stream_is(s: Stream, f: WavFmt, size: u64) -> bool {
    let codec = wav_codec(f.audio_format, f.bits_per_sample)->Some_0;
    let frames: u64 = if f.block_align > 0 { size / f.block_align as u64 } else { 0 };
    &&& s.index == 0
    &&& s.media_type == MediaType::Audio
    &&& s.codec_id == codec
    &&& s.time_base == Rational::new_spec(1, f.sample_rate as i32)
    &&& s.duration == frames as i64
    &&& s.start_time == 0
    &&& s.nb_frames == frames
    &&& s.extra_data@.len() == 0
    &&& s.metadata@.len() == 0
    &&& s.params matches StreamParams::Audio(a) && {
        &&& a.sample_rate == f.sample_rate
        &&& a.channel_layout.channels == f.channels as u32
        &&& a.sample_format == pcm_sample_format(codec)
        &&& a.bit_rate == f.sample_rate as int * f.channels as int * f.bits_per_sample as int
        &&& a.frame_size == 0
    }
}

/// Bytes read per packet for a block alignment: 4096 sample frames, or
/// 4096 bytes when the alignment is 0.
pub open spec fn wav_packet_size(block_align: u16) -> usize {
    if block_align == 0 { 4096 } else { (block_align * 4096) as usize }
}

/// Bytes the next packet takes: what is left of the data, at most
/// `packet_size`, cut to whole frames of `block_align` bytes.
pub open spec fn wav_chunk_len(size: u64, pos: u64, packet_size: usize, block_align: u16) -> nat {
    let remaining = size - pos;
    let want = if packet_size < remaining { packet_size as int } else { remaining };
    (if block_align > 0 { want / block_align as int * block_align as int } else { want }) as nat
}

/// Rounding down to a multiple stays below the value.
pub proof fn lemma_round_down(x: int, b: int)
    requires
        x >= 0,
        b > 0,
    ensures
        0 <= x / b * b <= x,
{
    assert(0 <= x / b * b <= x) by (nonlinear_arith)
        requires
            x >= 0,
            b > 0,
    ;
}

/// Reader of WAV files.
pub struct WavDemuxer {
    streams: Vec<Stream>,
    data_offset: u64,
    data_size: u64,
    data_pos: u64,
    packet_size: usize,
    block_align: u16,
    sample_rate: u32,
    metadata: Vec<(String, String)>,
}

impl WavDemuxer {
    /// Offset of the sample data in the file.
    pub closed spec fn data_start(&self) -> u64 {
        self.data_offset
    }

    /// Size of the sample data.
    pub closed spec fn data_len(&self) -> u64 {
        self.data_size
    }

    /// Bytes of sample data already read.
    pub closed spec fn data_read(&self) -> u64 {
        self.data_pos
    }

    /// Bytes read per packet at most.
    pub closed spec fn packet_bytes(&self) -> usize {
        self.packet_size
    }

    /// Bytes per sample frame.
    pub closed spec fn frame_bytes(&self) -> u16 {
        self.block_align
    }

    /// Sample rate.
    pub closed spec fn rate(&self) -> u32 {
        self.sample_rate
    }

    /// The streams.
    pub closed spec fn stream_list(&self) -> Seq<Stream> {
        self.streams@
    }

    /// Bounds that every state of the demuxer keeps.
    #[verifier::type_invariant]
    closed spec fn wf(&self) -> bool {
        &&& self.data_offset <= 0x20_0000_0000_0000
        &&& self.data_size <= 0xFFFF_FFFF
        &&& self.data_pos <= 0xFFFF_FFFF
        &&& self.packet_size > 0
        &&& self.metadata@.len() == 0
    }

    /// What `open` does: on a well-formed header, sets up the audio stream
    /// and leaves the cursor at the sample data; otherwise fails with the
    /// error kind `wav_open_outcome` gives.
    pub open spec fn open_post(old_self: Self, new_self: Self, old_io: IoContext, new_io: IoContext, r: TaoResult<()>) -> bool {
        &&& new_io.contents() == old_io.contents()
        &&& match wav_open_outcome(old_io.contents(), old_io.cursor() as int) {
            Ok((f, off, size)) => {
                &&& r is Ok
                &&& new_io.cursor() == off
                &&& new_self.stream_list().len() == 1
                &&& wav_stream_is(new_self.stream_list()[0], f, size)
                &&& new_self.data_start() == off
                &&& new_self.data_len() == size
                &&& new_self.data_read() == 0
                &&& new_self.frame_bytes() == f.block_align
                &&& new_self.rate() == f.sample_rate
                &&& new_self.packet_bytes() == wav_packet_size(f.block_align)
            },
            Err(k) => {
                &&& r matches Err(e) && e.kind() == k
                &&& new_self.stream_list() == old_self.stream_list()
                &&& new_self.data_read() == old_self.data_read()
            },
        }
    }

    /// What `read_packet` does: the next whole frames of sample data, at
    /// most `packet_bytes`, read at the cursor, with their timestamps.
    pub open spec fn read_post(old_self: Self, new_self: Self, old_io: IoContext, new_io: IoContext, r: TaoResult<Packet>) -> bool {
        let n = wav_chunk_len(old_self.data_len(), old_self.data_read(), old_self.packet_bytes(), old_self.frame_bytes());
        let ba = old_self.frame_bytes() as int;
        &&& new_self.stream_list() == old_self.stream_list()
        &&& new_self.data_start() == old_self.data_start()
        &&& new_self.data_len() == old_self.data_len()
        &&& new_self.frame_bytes() == old_self.frame_bytes()
        &&& new_self.rate() == old_self.rate()
        &&& new_self.packet_bytes() == old_self.packet_bytes()
        &&& new_io.contents() == old_io.contents()
        &&& if old_self.data_read() >= old_self.data_len() || n == 0 {
            r == Err::<Packet, TaoError>(TaoError::Eof) && new_self.data_read() == old_self.data_read() && new_io == old_io
        } else if !old_io.can_read(n) {
            r == Err::<Packet, TaoError>(TaoError::Eof) && new_self.data_read() == old_self.data_read()
                && IoContext::read_post(old_io, new_io, n, false)
        } else {
            &&& r matches Ok(pkt) && ({
                &&& pkt.payload() == bytes_at(old_io.contents(), old_io.cursor(), n)
                &&& pkt.stream_index == 0
                &&& pkt.pts == (if ba > 0 { old_self.data_read() as int / ba } else { 0 })
                &&& pkt.dts == pkt.pts
                &&& pkt.duration == (if ba > 0 { n as int / ba } else { 0 })
                &&& pkt.time_base == Rational::new_spec(1, old_self.rate() as i32)
                &&& pkt.is_keyframe
                &&& pkt.pos == old_self.data_start() + old_self.data_read()
            })
            &&& new_self.data_read() == old_self.data_read() + n
            &&& new_io.cursor() == old_io.cursor() + n
        }
    }

    /// What `seek` does: with a nonzero frame size, moves to the first byte
    /// of frame `timestamp`, clamped to the end of the data.
    pub open spec fn seek_post(old_self: Self, new_self: Self, old_io: IoContext, new_io: IoContext, timestamp: i64, r: TaoResult<()>) -> bool {
        let ba = old_self.frame_bytes() as int;
        let wanted = (if timestamp > 0 { timestamp as int } else { 0 }) * ba;
        let clamped = if wanted < old_self.data_len() { wanted } else { old_self.data_len() as int };
        let aligned = clamped / ba * ba;
        &&& new_self.stream_list() == old_self.stream_list()
        &&& new_self.data_start() == old_self.data_start()
        &&& new_self.data_len() == old_self.data_len()
        &&& new_self.frame_bytes() == old_self.frame_bytes()
        &&& new_self.rate() == old_self.rate()
        &&& new_self.packet_bytes() == old_self.packet_bytes()
        &&& new_io.contents() == old_io.contents()
        &&& if ba == 0 {
            r matches Err(e) && e.kind() == ErrorKind::InvalidData && new_self.data_read() == old_self.data_read()
                && new_io == old_io
        } else {
            &&& r is Ok
            &&& new_self.data_read() == aligned
            &&& new_io.cursor() == old_self.data_start() + aligned
        }
    }

    /// A demuxer before `open`.
    pub fn new() -> (r: Self)
        ensures
            r.stream_list().len() == 0,
            r.data_start() == 0,
            r.data_len() == 0,
            r.data_read() == 0,
            r.frame_bytes() == 0,
            r.rate() == 0,
    {
        WavDemuxer {
            streams: Vec::new(),
            data_offset: 0,
            data_size: 0,
            data_pos: 0,
            packet_size: 4096,
            block_align: 0,
            sample_rate: 0,
            metadata: Vec::new(),
        }
    }

    /// Codec of a WAV format code and bit depth.
    fn resolve_codec_id(audio_format: u16, bits_per_sample: u16) -> (r: TaoResult<CodecId>)
        ensures
            match wav_codec(audio_format, bits_per_sample) {
                Some(c) => r == Ok::<CodecId, TaoError>(c),
                None => r matches Err(e) && e.kind() == ErrorKind::Unsupported,
            },
    {
        if audio_format == 1 {
            match bits_per_sample {
                8 => Ok(CodecId::PcmU8),
                16 => Ok(CodecId::PcmS16le),
                24 => Ok(CodecId::PcmS24le),
                32 => Ok(CodecId::PcmS32le),
                _ => Err(unsupported("unsupported PCM bit depth")),
            }
        } else if audio_format == 3 {
            match bits_per_sample {
                32 => Ok(CodecId::PcmF32le),
                _ => Err(unsupported("unsupported float bit depth")),
            }
        } else {
            Err(unsupported("unsupported WAV format code"))
        }
    }

    /// Sample format of a PCM codec.
    fn resolve_sample_format(codec_id: CodecId) -> (r: SampleFormat)
        ensures
            r == pcm_sample_format(codec_id),
    {
        match codec_id {
            CodecId::PcmU8 => SampleFormat::U8,
            CodecId::PcmS16le => SampleFormat::S16,
            CodecId::PcmS24le | CodecId::PcmS32le => SampleFormat::S32,
            CodecId::PcmF32le => SampleFormat::F32,
            _ => SampleFormat::Unknown,
        }
    }

    /// Reads the 16 bytes of `fmt ` fields.
    fn read_fmt_fields(io: &mut IoContext) -> (r: TaoResult<WavFmt>)
        ensures
            IoContext::read_post(*old(io), *final(io), 16, r is Ok),
            r is Err ==> r == Err::<WavFmt, TaoError>(TaoError::Eof),
            r matches Ok(f) ==> f == wav_fmt_at(old(io).contents(), old(io).cursor() as int),
    {
        let audio_format = io.read_u16_le()?;
        let channels = io.read_u16_le()?;
        let sample_rate = io.read_u32_le()?;
        let byte_rate = io.read_u32_le()?;
        let block_align = io.read_u16_le()?;
        let bits_per_sample = io.read_u16_le()?;
        Ok(WavFmt { audio_format, channels, sample_rate, byte_rate, block_align, bits_per_sample })
    }

    /// Reads the `RIFF` tag, the file size and the `WAVE` tag.
    fn read_riff_header(io: &mut IoContext) -> (r: TaoResult<()>)
        ensures
            final(io).contents() == old(io).contents(),
            ({
                let d = old(io).contents();
                let p = old(io).cursor() as int;
                if p + 4 > d.len() {
                    r matches Err(e) && e.kind() == ErrorKind::Eof
                } else if d.subrange(p, p + 4) != riff_tag() {
                    r matches Err(e) && e.kind() == ErrorKind::InvalidData
                } else if p + 12 > d.len() {
                    r matches Err(e) && e.kind() == ErrorKind::Eof
                } else if d.subrange(p + 8, p + 12) != wave_tag() {
                    r matches Err(e) && e.kind() == ErrorKind::InvalidData
                } else {
                    r is Ok && final(io).cursor() == p + 12
                }
            }),
    {
        let ghost d = io.contents();
        let ghost p = io.cursor() as int;
        let riff = io.read_tag()?;
        assert(riff@ =~= d.subrange(p, p + 4));
        assert(seq![0x52u8, 0x49, 0x46, 0x46] =~= riff_tag());
        if !tag_is(&riff, &[0x52u8, 0x49, 0x46, 0x46]) {
            return Err(invalid_data("not a RIFF file"));
        }
        let _file_size = io.read_u32_le()?;
        let wave = io.read_tag()?;
        assert(wave@ =~= d.subrange(p + 8, p + 12));
        assert(seq![0x57u8, 0x41, 0x56, 0x45] =~= wave_tag());
        if !tag_is(&wave, &[0x57u8, 0x41, 0x56, 0x45]) {
            return Err(invalid_data("not a WAVE file"));
        }
        Ok(())
    }

    /// Walks the chunks from the cursor up to the `data` chunk; returns the
    /// last `fmt ` fields, the data offset and the data size.
    fn scan_chunks(io: &mut IoContext) -> (r: TaoResult<(WavFmt, u64, u64)>)
        requires
            old(io).contents().len() <= 0x1_0000_0000_0000,
            old(io).cursor() <= old(io).contents().len(),
            0x40_0000_0000_0000 <= usize::MAX,
        ensures
            final(io).contents() == old(io).contents(),
            r matches Ok((f, off, size)) ==> size <= 0xFFFF_FFFF && off <= old(io).contents().len(),
            match wav_scan(old(io).contents(), old(io).cursor() as int, None) {
                WavScan::Found(f, off, size) => r == Ok::<(WavFmt, u64, u64), TaoError>(
                    (f, off as u64, size),
                ) && final(io).cursor() == off && off <= old(io).contents().len(),
                WavScan::Failed(k) => r matches Err(e) && e.kind() == k,
                WavScan::Ended(_) => r matches Err(e) && e.kind() == ErrorKind::InvalidData,
            },
    {
        let ghost d = io.contents();
        let ghost start = wav_scan(d, io.cursor() as int, None);
        let mut fmt_found = false;
        let mut fmt = WavFmt {
            audio_format: 0,
            channels: 0,
            sample_rate: 0,
            byte_rate: 0,
            block_align: 0,
            bits_per_sample: 0,
        };
        loop
            invariant
                io.contents() == d,
                d == old(io).contents(),
                d.len() <= 0x1_0000_0000_0000,
                0x40_0000_0000_0000 <= usize::MAX,
                io.cursor() <= d.len() + 0x2_0000_0010,
                start == wav_scan(d, old(io).cursor() as int, None),
                start == wav_scan(d, io.cursor() as int, if fmt_found { Some(fmt) } else { None }),
            decreases d.len() + 8 - (if io.cursor() < d.len() + 8 { io.cursor() as int } else { d.len() + 8int }),
        {
            let ghost c = io.cursor() as int;
            let chunk_id = match io.read_tag() {
                Ok(t) => t,
                Err(_) => {
                    if !fmt_found {
                        return Err(invalid_data("no fmt chunk"));
                    }
                    return Err(invalid_data("no data chunk"));
                },
            };
            let chunk_size = io.read_u32_le()? as u64;
            assert(chunk_id@ =~= d.subrange(c, c + 4));
            assert(seq![0x66u8, 0x6D, 0x74, 0x20] =~= fmt_tag());
            assert(seq![0x64u8, 0x61, 0x74, 0x61] =~= data_tag());
            if tag_is(&chunk_id, &[0x66u8, 0x6D, 0x74, 0x20]) {
                if chunk_size < 16 {
                    return Err(invalid_data("fmt chunk shorter than 16 bytes"));
                }
                fmt = Self::read_fmt_fields(io)?;
                if chunk_size > 16 {
                    io.skip((chunk_size - 16) as usize)?;
                }
                fmt_found = true;
            } else if tag_is(&chunk_id, &[0x64u8, 0x61, 0x74, 0x61]) {
                if !fmt_found {
                    return Err(invalid_data("data chunk before fmt chunk"));
                }
                let data_offset = io.position()?;
                return Ok((fmt, data_offset, chunk_size));
            } else {
                io.skip(chunk_size as usize)?;
            }
            if chunk_size % 2 != 0 {
                io.skip(1)?;
            }
        }
    }

    /// Reads the RIFF/WAVE header and the chunks up to `data`, and sets up
    /// the audio stream.
    pub fn open_wav(&mut self, io: &mut IoContext) -> (r: TaoResult<()>)
        requires
            io_in_range(*old(io)),
        ensures
            Self::open_post(*old(self), *final(self), *old(io), *final(io), r),
    {
        proof {
            use_type_invariant(&*self);
        }
        Self::read_riff_header(io)?;
        let (fmt, data_offset, data_size) = Self::scan_chunks(io)?;
        let codec_id = Self::resolve_codec_id(fmt.audio_format, fmt.bits_per_sample);
        self.data_offset = data_offset;
        self.data_size = data_size;
        let codec_id = codec_id?;
        let sample_format = Self::resolve_sample_format(codec_id);
        let channel_layout = ChannelLayout::from_channels(fmt.channels as u32);
        let time_base = Rational::new(1, fmt.sample_rate as i32);
        let total_samples: u64 = if fmt.block_align > 0 {
            data_size / (fmt.block_align as u64)
        } else {
            0
        };
        assert(fmt.sample_rate as u64 * fmt.channels as u64 <= 0xFFFF_FFFF_FFFF_FFFF) by (nonlinear_arith)
            requires
                fmt.sample_rate <= 0xFFFF_FFFF,
                fmt.channels <= 0xFFFF,
        ;
        assert(fmt.sample_rate as u64 * fmt.channels as u64 * fmt.bits_per_sample as u64 <= 0xFFFF_FFFF_FFFF_FFFF) by (nonlinear_arith)
            requires
                fmt.sample_rate <= 0xFFFF_FFFF,
                fmt.channels <= 0xFFFF,
                fmt.bits_per_sample <= 0xFFFF,
        ;
        let bit_rate = fmt.sample_rate as u64 * fmt.channels as u64 * fmt.bits_per_sample as u64;
        let stream = Stream {
            index: 0,
            media_type: MediaType::Audio,
            codec_id,
            time_base,
            duration: total_samples as i64,
            start_time: 0,
            nb_frames: total_samples,
            extra_data: Vec::new(),
            params: StreamParams::Audio(
                AudioStreamParams {
                    sample_rate: fmt.sample_rate,
                    channel_layout,
                    sample_format,
                    bit_rate,
                    frame_size: 0,
                },
            ),
            metadata: Vec::new(),
        };
        let mut streams: Vec<Stream> = Vec::new();
        streams.push(stream);
        self.streams = streams;
        self.block_align = fmt.block_align;
        self.sample_rate = fmt.sample_rate;
        self.data_pos = 0;
        let samples_per_packet: u32 = 4096;
        let mut packet_size = (fmt.block_align as u32 * samples_per_packet) as usize;
        if packet_size == 0 {
            packet_size = 4096;
        }
        self.packet_size = packet_size;
        Ok(())
    }

    /// Reads the next packet: up to `packet_bytes` of sample data, cut to
    /// whole sample frames, at the cursor.
    pub fn read_wav_packet(&mut self, io: &mut IoContext) -> (r: TaoResult<Packet>)
        ensures
            Self::read_post(*old(self), *final(self), *old(io), *final(io), r),
    {
        proof {
            use_type_invariant(&*self);
        }
        if self.data_pos >= self.data_size {
            return Err(TaoError::Eof);
        }
        let remaining = (self.data_size - self.data_pos) as usize;
        let read_size = if self.packet_size < remaining {
            self.packet_size
        } else {
            remaining
        };
        let aligned_size = if self.block_align > 0 {
            let ba = self.block_align as usize;
            proof {
                lemma_round_down(read_size as int, ba as int);
            }
            (read_size / ba) * ba
        } else {
            read_size
        };
        if aligned_size == 0 {
            return Err(TaoError::Eof);
        }
        let data = io.read_bytes(aligned_size)?;
        let sample_offset: u64 = if self.block_align > 0 {
            self.data_pos / (self.block_align as u64)
        } else {
            0
        };
        let nb_samples: i64 = if self.block_align > 0 {
            aligned_size as i64 / (self.block_align as i64)
        } else {
            0
        };
        let mut pkt = Packet::from_vec(data);
        pkt.stream_index = 0;
        pkt.pts = sample_offset as i64;
        pkt.dts = pkt.pts;
        pkt.duration = nb_samples;
        pkt.time_base = Rational::new(1, self.sample_rate as i32);
        pkt.is_keyframe = true;
        pkt.pos = (self.data_offset + self.data_pos) as i64;
        self.data_pos = self.data_pos + aligned_size as u64;
        Ok(pkt)
    }

    /// Moves to sample frame `timestamp` (clamped to the data): the cursor
    /// goes to the frame's first byte.
    pub fn seek_wav(&mut self, io: &mut IoContext, timestamp: i64) -> (r: TaoResult<()>)
        requires
            io_in_range(*old(io)),
            (if timestamp > 0 { timestamp as int } else { 0 }) * old(self).frame_bytes() <= u64::MAX,
        ensures
            Self::seek_post(*old(self), *final(self), *old(io), *final(io), timestamp, r),
    {
        proof {
            use_type_invariant(&*self);
        }
        if !io.is_seekable() {
            return Err(unsupported("seeking needs a seekable input"));
        }
        if self.block_align == 0 {
            return Err(invalid_data("block_align is 0"));
        }
        let sample: u64 = if timestamp > 0 {
            timestamp as u64
        } else {
            0
        };
        let byte_offset = sample * (self.block_align as u64);
        let byte_offset = if byte_offset < self.data_size {
            byte_offset
        } else {
            self.data_size
        };
        let ba = self.block_align as u64;
        proof {
            lemma_round_down(byte_offset as int, ba as int);
        }
        let aligned_offset = (byte_offset / ba) * ba;
        io.seek(SeekFrom::Start(self.data_offset + aligned_offset))?;
        self.data_pos = aligned_offset;
        Ok(())
    }
}


impl WavDemuxer {
    /// A boxed demuxer, for a registry.
    pub fn create() -> (r: TaoResult<Box<dyn Demuxer>>)
        ensures
            r matches Ok(d) && d.format_kind() == FormatId::Wav && d.stream_seq().len() == 0,
    {
        Ok(Box::new(WavDemuxer::new()))
    }
}

impl Demuxer for WavDemuxer {
    open spec fn open_admits(&self, io: IoContext) -> bool {
        true
    }

    fn open_admitted(&self, io: &IoContext) -> (b: bool)
        ensures
            b == self.open_admits(*io),
    {
        true
    }

    open spec fn format_kind(&self) -> FormatId {
        FormatId::Wav
    }

    open spec fn stream_seq(&self) -> Seq<Stream> {
        self.stream_list()
    }

    open spec fn seek_admits(&self, stream_index: usize, timestamp: i64) -> bool {
        (if timestamp > 0 { timestamp as int } else { 0 }) * self.frame_bytes() <= u64::MAX
    }

    open spec fn read_admits(&self) -> bool {
        true
    }

    fn read_admitted(&self) -> (b: bool)
        ensures
            b == self.read_admits(),
    {
        true
    }

    fn seek_admitted(&self, stream_index: usize, timestamp: i64) -> (b: bool)
        ensures
            b == self.seek_admits(stream_index, timestamp),
    {
        let t: u128 = if timestamp > 0 { timestamp as u128 } else { 0 };
        let f: u128 = self.block_align as u128;
        assert(t * f <= 0x8000_0000_0000_0000 * 0x10000) by (nonlinear_arith)
            requires
                t <= 0x8000_0000_0000_0000,
                f <= 0x10000,
        ;
        t * f <= u64::MAX as u128
    }


    fn format_id(&self) -> (r: FormatId)
        ensures
            r == FormatId::Wav,
    {
        FormatId::Wav
    }

    fn name(&self) -> (r: &'static str)
        ensures
            r@ == "wav"@,
    {
        "wav"
    }

    fn open(&mut self, io: &mut IoContext) -> (r: TaoResult<()>)
        ensures
            Self::open_post(*old(self), *final(self), *old(io), *final(io), r),
    {
        self.open_wav(io)
    }

    fn streams(&self) -> (r: &[Stream])
        ensures
            r@ == self.stream_list(),
    {
        self.streams.as_slice()
    }

    fn read_packet(&mut self, io: &mut IoContext) -> (r: TaoResult<Packet>)
        ensures
            Self::read_post(*old(self), *final(self), *old(io), *final(io), r),
    {
        self.read_wav_packet(io)
    }

    fn seek(&mut self, io: &mut IoContext, stream_index: usize, timestamp: i64, flags: SeekFlags) -> (r: TaoResult<()>)
        ensures
            Self::seek_post(*old(self), *final(self), *old(io), *final(io), timestamp, r),
    {
        self.seek_wav(io, timestamp)
    }

    fn metadata(&self) -> (r: &[(String, String)])
        ensures
            r@.len() == 0,
    {
        proof {
            use_type_invariant(self);
        }
        self.metadata.as_slice()
    }
}

} // verus!
