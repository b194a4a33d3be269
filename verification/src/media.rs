//! Media vocabulary shared by demuxers and muxers: codecs, media types,
//! rational time bases, audio/video parameters, streams and packets.

use vstd::prelude::*;
use vstd::string::StringSliceAdditionalSpecFns;
use bytes::Bytes;
use crate::packet_data::{bytes_content, bytes_from_vec};

verus! {

/// "No timestamp" marker.
pub const NOPTS_VALUE: i64 = -9223372036854775808i64;

/// Kind of media a stream carries.
#[derive(Debug, Clone, Copy, PartialEq, Eq, Structural)]
pub enum MediaType {
    /// Video.
    Video,
    /// Audio.
    Audio,
    /// Subtitles.
    Subtitle,
    /// Other data.
    Data,
}

/// Codec identifiers known to the container layer.
#[derive(Debug, Clone, Copy, PartialEq, Eq, Structural)]
pub enum CodecId {
    /// No / unknown codec.
    Unknown,
    /// H.264 / AVC.
    H264,
    /// H.265 / HEVC.
    H265,
    /// MPEG-4 Part 2 video.
    Mpeg4,
    /// MPEG-1 video.
    Mpeg1Video,
    /// MPEG-2 video.
    Mpeg2Video,
    /// VP8.
    Vp8,
    /// VP9.
    Vp9,
    /// AV1.
    Av1,
    /// Motion JPEG.
    Mjpeg,
    /// Theora.
    Theora,
    /// Uncompressed video.
    RawVideo,
    /// AAC.
    Aac,
    /// MPEG audio layer III.
    Mp3,
    /// MPEG audio layer II.
    Mp2,
    /// AC-3.
    Ac3,
    /// E-AC-3.
    Eac3,
    /// DTS.
    Dts,
    /// FLAC.
    Flac,
    /// Opus.
    Opus,
    /// Vorbis.
    Vorbis,
    /// Apple Lossless.
    Alac,
    /// PCM unsigned 8 bit.
    PcmU8,
    /// PCM signed 16 bit little endian.
    PcmS16le,
    /// PCM signed 16 bit big endian.
    PcmS16be,
    /// PCM signed 24 bit little endian.
    PcmS24le,
    /// PCM signed 32 bit little endian.
    PcmS32le,
    /// PCM 32 bit float little endian.
    PcmF32le,
    /// WebVTT subtitles.
    Webvtt,
    /// ASS/SSA subtitles.
    Ass,
}

/// Media type of each codec.
pub open spec fn codec_media_type(c: CodecId) -> MediaType {
    match c {
        CodecId::H264 | CodecId::H265 | CodecId::Mpeg4 | CodecId::Mpeg1Video
        | CodecId::Mpeg2Video | CodecId::Vp8 | CodecId::Vp9 | CodecId::Av1 | CodecId::Mjpeg
        | CodecId::Theora | CodecId::RawVideo => MediaType::Video,
        CodecId::Aac | CodecId::Mp3 | CodecId::Mp2 | CodecId::Ac3 | CodecId::Eac3 | CodecId::Dts
        | CodecId::Flac | CodecId::Opus | CodecId::Vorbis | CodecId::Alac | CodecId::PcmU8
        | CodecId::PcmS16le | CodecId::PcmS16be | CodecId::PcmS24le | CodecId::PcmS32le
        | CodecId::PcmF32le => MediaType::Audio,
        CodecId::Webvtt | CodecId::Ass => MediaType::Subtitle,
        CodecId::Unknown => MediaType::Data,
    }
}

/// The short name of each codec.
pub open spec fn codec_name(c: CodecId) -> &'static str {
    match c {
        CodecId::Unknown => "unknown",
        CodecId::H264 => "h264",
        CodecId::H265 => "hevc",
        CodecId::Mpeg4 => "mpeg4",
        CodecId::Mpeg1Video => "mpeg1video",
        CodecId::Mpeg2Video => "mpeg2video",
        CodecId::Vp8 => "vp8",
        CodecId::Vp9 => "vp9",
        CodecId::Av1 => "av1",
        CodecId::Mjpeg => "mjpeg",
        CodecId::Theora => "theora",
        CodecId::RawVideo => "rawvideo",
        CodecId::Aac => "aac",
        CodecId::Mp3 => "mp3",
        CodecId::Mp2 => "mp2",
        CodecId::Ac3 => "ac3",
        CodecId::Eac3 => "eac3",
        CodecId::Dts => "dts",
        CodecId::Flac => "flac",
        CodecId::Opus => "opus",
        CodecId::Vorbis => "vorbis",
        CodecId::Alac => "alac",
        CodecId::PcmU8 => "pcm_u8",
        CodecId::PcmS16le => "pcm_s16le",
        CodecId::PcmS16be => "pcm_s16be",
        CodecId::PcmS24le => "pcm_s24le",
        CodecId::PcmS32le => "pcm_s32le",
        CodecId::PcmF32le => "pcm_f32le",
        CodecId::Webvtt => "webvtt",
        CodecId::Ass => "ass",
    }
}

/// Every codec name is ASCII, so its bytes are its characters, and it is
/// at most ten bytes long.
pub proof fn lemma_codec_name_short(c: CodecId)
    ensures
        vstd::string::is_ascii(codec_name(c)),
        codec_name(c).spec_bytes().len() == codec_name(c)@.len(),
        codec_name(c).spec_bytes().len() <= 10,
{
    broadcast use vstd::string::is_ascii_spec_bytes;
    match c {
        CodecId::Unknown => {
            reveal_strlit("unknown");
        },
        CodecId::H264 => {
            reveal_strlit("h264");
        },
        CodecId::H265 => {
            reveal_strlit("hevc");
        },
        CodecId::Mpeg4 => {
            reveal_strlit("mpeg4");
        },
        CodecId::Mpeg1Video => {
            reveal_strlit("mpeg1video");
        },
        CodecId::Mpeg2Video => {
            reveal_strlit("mpeg2video");
        },
        CodecId::Vp8 => {
            reveal_strlit("vp8");
        },
        CodecId::Vp9 => {
            reveal_strlit("vp9");
        },
        CodecId::Av1 => {
            reveal_strlit("av1");
        },
        CodecId::Mjpeg => {
            reveal_strlit("mjpeg");
        },
        CodecId::Theora => {
            reveal_strlit("theora");
        },
        CodecId::RawVideo => {
            reveal_strlit("rawvideo");
        },
        CodecId::Aac => {
            reveal_strlit("aac");
        },
        CodecId::Mp3 => {
            reveal_strlit("mp3");
        },
        CodecId::Mp2 => {
            reveal_strlit("mp2");
        },
        CodecId::Ac3 => {
            reveal_strlit("ac3");
        },
        CodecId::Eac3 => {
            reveal_strlit("eac3");
        },
        CodecId::Dts => {
            reveal_strlit("dts");
        },
        CodecId::Flac => {
            reveal_strlit("flac");
        },
        CodecId::Opus => {
            reveal_strlit("opus");
        },
        CodecId::Vorbis => {
            reveal_strlit("vorbis");
        },
        CodecId::Alac => {
            reveal_strlit("alac");
        },
        CodecId::PcmU8 => {
            reveal_strlit("pcm_u8");
        },
        CodecId::PcmS16le => {
            reveal_strlit("pcm_s16le");
        },
        CodecId::PcmS16be => {
            reveal_strlit("pcm_s16be");
        },
        CodecId::PcmS24le => {
            reveal_strlit("pcm_s24le");
        },
        CodecId::PcmS32le => {
            reveal_strlit("pcm_s32le");
        },
        CodecId::PcmF32le => {
            reveal_strlit("pcm_f32le");
        },
        CodecId::Webvtt => {
            reveal_strlit("webvtt");
        },
        CodecId::Ass => {
            reveal_strlit("ass");
        },
    }
}

impl CodecId {
    /// The codec's short name.
    pub fn name(&self) -> (r: &'static str)
        ensures
            r == codec_name(*self),
    {
        match self {
            CodecId::Unknown => "unknown",
            CodecId::H264 => "h264",
            CodecId::H265 => "hevc",
            CodecId::Mpeg4 => "mpeg4",
            CodecId::Mpeg1Video => "mpeg1video",
            CodecId::Mpeg2Video => "mpeg2video",
            CodecId::Vp8 => "vp8",
            CodecId::Vp9 => "vp9",
            CodecId::Av1 => "av1",
            CodecId::Mjpeg => "mjpeg",
            CodecId::Theora => "theora",
            CodecId::RawVideo => "rawvideo",
            CodecId::Aac => "aac",
            CodecId::Mp3 => "mp3",
            CodecId::Mp2 => "mp2",
            CodecId::Ac3 => "ac3",
            CodecId::Eac3 => "eac3",
            CodecId::Dts => "dts",
            CodecId::Flac => "flac",
            CodecId::Opus => "opus",
            CodecId::Vorbis => "vorbis",
            CodecId::Alac => "alac",
            CodecId::PcmU8 => "pcm_u8",
            CodecId::PcmS16le => "pcm_s16le",
            CodecId::PcmS16be => "pcm_s16be",
            CodecId::PcmS24le => "pcm_s24le",
            CodecId::PcmS32le => "pcm_s32le",
            CodecId::PcmF32le => "pcm_f32le",
            CodecId::Webvtt => "webvtt",
            CodecId::Ass => "ass",
        }
    }

    /// The media type this codec carries.
    pub fn media_type(&self) -> (r: MediaType)
        ensures
            r == codec_media_type(*self),
    {
        match self {
            CodecId::H264 | CodecId::H265 | CodecId::Mpeg4 | CodecId::Mpeg1Video
            | CodecId::Mpeg2Video | CodecId::Vp8 | CodecId::Vp9 | CodecId::Av1 | CodecId::Mjpeg
            | CodecId::Theora | CodecId::RawVideo => MediaType::Video,
            CodecId::Aac | CodecId::Mp3 | CodecId::Mp2 | CodecId::Ac3 | CodecId::Eac3
            | CodecId::Dts | CodecId::Flac | CodecId::Opus | CodecId::Vorbis | CodecId::Alac
            | CodecId::PcmU8 | CodecId::PcmS16le | CodecId::PcmS16be | CodecId::PcmS24le
            | CodecId::PcmS32le | CodecId::PcmF32le => MediaType::Audio,
            CodecId::Webvtt | CodecId::Ass => MediaType::Subtitle,
            CodecId::Unknown => MediaType::Data,
        }
    }
}

/// A rational number, used for time bases and frame rates.
#[derive(Debug, Clone, Copy, PartialEq, Eq, Structural)]
pub struct Rational {
    /// Numerator.
    pub num: i32,
    /// Denominator.
    pub den: i32,
}

impl Rational {
    /// Builds `num / den`.
    pub fn new(num: i32, den: i32) -> (r: Self)
        ensures
            r.num == num,
            r.den == den,
    {
        Rational { num, den }
    }
}

/// Audio sample formats.
#[derive(Debug, Clone, Copy, PartialEq, Eq, Structural)]
pub enum SampleFormat {
    /// Unknown.
    Unknown,
    /// Unsigned 8 bit.
    U8,
    /// Signed 16 bit.
    S16,
    /// Signed 32 bit.
    S32,
    /// 32 bit float.
    F32,
    /// 64 bit float.
    F64,
}

/// Bytes of one sample of each format (0 when unknown).
pub open spec fn sample_bytes(f: SampleFormat) -> u32 {
    match f {
        SampleFormat::Unknown => 0,
        SampleFormat::U8 => 1,
        SampleFormat::S16 => 2,
        SampleFormat::S32 => 4,
        SampleFormat::F32 => 4,
        SampleFormat::F64 => 8,
    }
}

impl SampleFormat {
    /// Bytes of one sample (0 when unknown).
    pub fn bytes_per_sample(&self) -> (r: u32)
        ensures
            r == sample_bytes(*self),
    {
        match self {
            SampleFormat::Unknown => 0,
            SampleFormat::U8 => 1,
            SampleFormat::S16 => 2,
            SampleFormat::S32 => 4,
            SampleFormat::F32 => 4,
            SampleFormat::F64 => 8,
        }
    }
}

/// Pixel formats.
#[derive(Debug, Clone, Copy, PartialEq, Eq, Structural)]
pub enum PixelFormat {
    /// Unknown.
    Unknown,
    /// Planar YUV 4:2:0.
    Yuv420p,
    /// Packed BGR 8:8:8.
    Bgr24,
    /// Packed BGRA 8:8:8:8.
    Bgra,
    /// 8 bit gray.
    Gray8,
}

/// Channel layout, described by its channel count.
#[derive(Debug, Clone, Copy, PartialEq, Eq, Structural)]
pub struct ChannelLayout {
    /// Number of channels.
    pub channels: u32,
}

impl ChannelLayout {
    /// The layout with `channels` channels.
    pub fn from_channels(channels: u32) -> (r: Self)
        ensures
            r.channels == channels,
    {
        ChannelLayout { channels }
    }
}

/// Video stream parameters.
#[derive(Debug, Clone)]
pub struct VideoStreamParams {
    /// Width in pixels.
    pub width: u32,
    /// Height in pixels.
    pub height: u32,
    /// Pixel format.
    pub pixel_format: PixelFormat,
    /// Frame rate.
    pub frame_rate: Rational,
    /// Sample aspect ratio.
    pub sample_aspect_ratio: Rational,
    /// Bit rate in bits per second, 0 when unknown.
    pub bit_rate: u64,
}

/// Audio stream parameters.
#[derive(Debug, Clone)]
pub struct AudioStreamParams {
    /// Sample rate in Hz.
    pub sample_rate: u32,
    /// Channel layout.
    pub channel_layout: ChannelLayout,
    /// Sample format.
    pub sample_format: SampleFormat,
    /// Bit rate in bits per second, 0 when unknown.
    pub bit_rate: u64,
    /// Samples per frame (1024 for AAC, 1152 for MP3), 0 when unknown.
    pub frame_size: u32,
}

/// Stream specific parameters.
#[derive(Debug, Clone)]
pub enum StreamParams {
    /// Video stream.
    Video(VideoStreamParams),
    /// Audio stream.
    Audio(AudioStreamParams),
    /// Subtitle stream.
    Subtitle,
    /// Anything else.
    Other,
}

/// One stream of a container.
#[derive(Debug, Clone)]
pub struct Stream {
    /// Position of the stream in the container, from 0.
    pub index: usize,
    /// Media type.
    pub media_type: MediaType,
    /// Codec.
    pub codec_id: CodecId,
    /// Time base of the stream's timestamps.
    pub time_base: Rational,
    /// Duration in `time_base` units, -1 when unknown.
    pub duration: i64,
    /// Start time in `time_base` units.
    pub start_time: i64,
    /// Number of frames, 0 when unknown.
    pub nb_frames: u64,
    /// Codec private data.
    pub extra_data: Vec<u8>,
    /// Stream specific parameters.
    pub params: StreamParams,
    /// Metadata (title, language, ...).
    pub metadata: Vec<(String, String)>,
}

/// A compressed packet read from or written to a container.
#[derive(Debug)]
pub struct Packet {
    /// Index of the stream the packet belongs to.
    pub stream_index: usize,
    /// Payload.
    pub data: Bytes,
    /// Presentation timestamp, `NOPTS_VALUE` when unknown.
    pub pts: i64,
    /// Decoding timestamp, `NOPTS_VALUE` when unknown.
    pub dts: i64,
    /// Whether the packet starts a keyframe.
    pub is_keyframe: bool,
    /// Duration in `time_base` units, 0 when unknown.
    pub duration: i64,
    /// Time base of the timestamps.
    pub time_base: Rational,
    /// Byte position in the input, -1 when unknown.
    pub pos: i64,
}

impl Packet {
    /// The payload bytes.
    pub open spec fn payload(&self) -> Seq<u8> {
        bytes_content(self.data)
    }

    /// A packet holding `data`, with no timestamps and no stream assigned.
    pub fn from_data(data: Bytes) -> (p: Self)
        ensures
            p.data == data,
            p.stream_index == 0,
            p.pts == NOPTS_VALUE,
            p.dts == NOPTS_VALUE,
            !p.is_keyframe,
            p.duration == 0,
            p.time_base == Rational::new_spec(0, 1),
            p.pos == -1,
    {
        Packet {
            stream_index: 0,
            data,
            pts: NOPTS_VALUE,
            dts: NOPTS_VALUE,
            is_keyframe: false,
            duration: 0,
            time_base: Rational { num: 0, den: 1 },
            pos: -1,
        }
    }

    /// A packet holding the bytes of `data`.
    pub fn from_vec(data: Vec<u8>) -> (p: Self)
        ensures
            p.payload() == data@,
            p.stream_index == 0,
            p.pts == NOPTS_VALUE,
            p.dts == NOPTS_VALUE,
            !p.is_keyframe,
            p.duration == 0,
            p.time_base == Rational::new_spec(0, 1),
            p.pos == -1,
    {
        Packet::from_data(bytes_from_vec(data))
    }
}

impl Rational {
    /// Spec constructor.
    pub open spec fn new_spec(num: i32, den: i32) -> Rational {
        Rational { num, den }
    }
}

/// Seek flags.
#[derive(Debug, Clone, Copy, PartialEq, Eq, Structural)]
pub struct SeekFlags {
    /// Seek to the nearest keyframe before the target.
    pub backward: bool,
    /// Seek by byte position rather than timestamp.
    pub byte: bool,
    /// Accept any frame, not only keyframes.
    pub any: bool,
}

impl Default for SeekFlags {
    /// Backward, by timestamp, keyframes only.
    fn default() -> (r: Self)
        ensures
            r.backward,
            !r.byte,
            !r.any,
    {
        SeekFlags { backward: true, byte: false, any: false }
    }
}

/// Program information.
#[derive(Debug, Clone)]
pub struct DemuxerProgram {
    /// Program id.
    pub id: i64,
    /// Indices of the streams in the program.
    pub stream_indices: Vec<usize>,
    /// Program metadata.
    pub metadata: Vec<(String, String)>,
}

/// Stream group information.
#[derive(Debug, Clone)]
pub struct DemuxerStreamGroup {
    /// Group id.
    pub id: i64,
    /// Indices of the streams in the group.
    pub stream_indices: Vec<usize>,
    /// Group metadata.
    pub metadata: Vec<(String, String)>,
}

} // verus!
