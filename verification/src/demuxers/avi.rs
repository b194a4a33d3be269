//! AVI: a RIFF container with an `hdrl` list of stream headers and a
//! `movi` list of interleaved data chunks, optionally indexed by `idx1`.

use vstd::prelude::*;
use crate::probe::{
    FormatProbe, ProbeScore, SCORE_EXTENSION, SCORE_MAX, SCORE_MIME, has_tag, tag_at, tag_is, str_views,
    name_ascii_ends_in, filename_ascii_ends_in, name_lower_ends_with, filename_lower_ends_with,
    ext_lower_in, filename_lower_ext_in, ext_matches_ci, filename_ext_is,
};
use crate::format_id::FormatId;
use crate::io::{IoContext, SeekFrom, bytes_at, lemma_bytes_at_subrange, readable};
use crate::demuxer::{Demuxer, MAX_INPUT_LEN, io_in_range};
use crate::error::{ErrorKind, TaoError, TaoResult, invalid_data, unsupported};
use crate::endian::{copy_bytes, u16_from_le, u32_from_le};
use crate::endian::{le16, le32};
use crate::media::{
    AudioStreamParams, ChannelLayout, CodecId, MediaType, Packet, PixelFormat, Rational, SampleFormat, Stream,
    SeekFlags, StreamParams, VideoStreamParams,
};
use crate::text::{str_eq, to_uppercase, trim, trim_seq, unicode_uppercase, utf8_lossy, utf8_lossy_chars};

verus! {

/// The RIFF chunk tag.
pub open spec fn riff_tag() -> Seq<u8> {
    seq![0x52u8, 0x49, 0x46, 0x46]
}

/// The `AVI ` form type.
pub open spec fn avi_tag() -> Seq<u8> {
    seq![0x41u8, 0x56, 0x49, 0x20]
}

/// What the AVI probe answers.
pub open spec fn avi_probe_score(d: Seq<u8>, filename: Option<&str>) -> Option<ProbeScore> {
    if tag_at(d, 0, riff_tag()) && tag_at(d, 8, avi_tag()) {
        Some(SCORE_MAX)
    } else if name_lower_ends_with(filename, ".avi"@) {
        Some(SCORE_EXTENSION)
    } else {
        None
    }
}

/// Recogniser of AVI files.
pub struct AviProbe;

impl FormatProbe for AviProbe {
    fn probe(&self, data: &[u8], filename: Option<&str>) -> (r: Option<ProbeScore>)
        ensures
            r == avi_probe_score(data@, filename),
    {
        if has_tag(data, 0, &[0x52u8, 0x49, 0x46, 0x46]) && has_tag(data, 8, &[0x41u8, 0x56, 0x49, 0x20]) {
            return Some(SCORE_MAX);
        }
        if filename_lower_ends_with(filename, ".avi") {
            return Some(SCORE_EXTENSION);
        }
        None
    }

    fn format_id(&self) -> (r: FormatId)
        ensures
            r == FormatId::Avi,
    {
        FormatId::Avi
    }
}

/// `s` without its trailing NUL characters.
pub open spec fn trim_end_nul_seq(s: Seq<char>) -> Seq<char>
    decreases s.len(),
{
    if s.len() > 0 && s.last() == '\0' {
        trim_end_nul_seq(s.drop_last())
    } else {
        s
    }
}

proof fn lemma_trim_end_nul_at(s: Seq<char>, j: int)
    requires
        0 <= j <= s.len(),
        forall|k: int| j <= k < s.len() ==> #[trigger] s[k] == '\0',
        j == 0 || s[j - 1] != '\0',
    ensures
        trim_end_nul_seq(s) == s.subrange(0, j),
    decreases s.len() - j,
{
    if j == s.len() {
        assert(s.subrange(0, j) =~= s);
    } else {
        let t = s.drop_last();
        assert forall|k: int| j <= k < t.len() implies #[trigger] t[k] == '\0' by {
            assert(t[k] == s[k]);
        }
        lemma_trim_end_nul_at(t, j);
        assert(t.subrange(0, j) =~= s.subrange(0, j));
    }
}

/// `s` without its trailing NUL characters.
pub fn trim_end_nul(s: &str) -> (r: &str)
    ensures
        r@ == trim_end_nul_seq(s@),
{
    let n = s.unicode_len();
    let mut j: usize = n;
    while j > 0 && s.get_char(j - 1) == '\0'
        invariant
            n == s@.len(),
            j <= n,
            forall|k: int| j <= k < n ==> #[trigger] s@[k] == '\0',
        decreases j,
    {
        j = j - 1;
    }
    proof {
        lemma_trim_end_nul_at(s@, j as int);
    }
    s.substring_char(0, j)
}

/// Codec named by an upper-case stream handler FourCC, if one is known.
pub open spec fn handler_name_codec(s: Seq<char>) -> Option<CodecId> {
    if s == "H264"@ || s == "X264"@ || s == "AVC1"@ {
        Some(CodecId::H264)
    } else if s == "H265"@ || s == "HEVC"@ || s == "HVC1"@ {
        Some(CodecId::H265)
    } else if s == "VP80"@ {
        Some(CodecId::Vp8)
    } else if s == "VP90"@ {
        Some(CodecId::Vp9)
    } else if s == "AV01"@ {
        Some(CodecId::Av1)
    } else if s == "MP4V"@ || s == "XVID"@ || s == "DIVX"@ {
        Some(CodecId::Mpeg4)
    } else if s == "MJPG"@ || s == "JPEG"@ {
        Some(CodecId::Mjpeg)
    } else if s == "THEO"@ {
        Some(CodecId::Theora)
    } else {
        None
    }
}

/// Codec named by an upper-case stream handler FourCC.
pub fn handler_codec(s: &str) -> (r: Option<CodecId>)
    ensures
        r == handler_name_codec(s@),
{
    if str_eq(s, "H264") || str_eq(s, "X264") || str_eq(s, "AVC1") {
        Some(CodecId::H264)
    } else if str_eq(s, "H265") || str_eq(s, "HEVC") || str_eq(s, "HVC1") {
        Some(CodecId::H265)
    } else if str_eq(s, "VP80") {
        Some(CodecId::Vp8)
    } else if str_eq(s, "VP90") {
        Some(CodecId::Vp9)
    } else if str_eq(s, "AV01") {
        Some(CodecId::Av1)
    } else if str_eq(s, "MP4V") || str_eq(s, "XVID") || str_eq(s, "DIVX") {
        Some(CodecId::Mpeg4)
    } else if str_eq(s, "MJPG") || str_eq(s, "JPEG") {
        Some(CodecId::Mjpeg)
    } else if str_eq(s, "THEO") {
        Some(CodecId::Theora)
    } else {
        None
    }
}

/// Codec named by an upper-case `biCompression` FourCC; `Unknown` when
/// none is known.
pub open spec fn compression_name_codec(s: Seq<char>) -> CodecId {
    if s == "H264"@ || s == "AVC1"@ {
        CodecId::H264
    } else if s == "HEVC"@ || s == "HVC1"@ {
        CodecId::H265
    } else if s == "VP80"@ {
        CodecId::Vp8
    } else if s == "VP90"@ {
        CodecId::Vp9
    } else if s == "MJPG"@ {
        CodecId::Mjpeg
    } else if s == "MP4V"@ || s == "XVID"@ || s == "DIVX"@ || s == "DX50"@ {
        CodecId::Mpeg4
    } else {
        CodecId::Unknown
    }
}

/// Codec named by an upper-case `biCompression` FourCC.
pub fn compression_codec(s: &str) -> (r: CodecId)
    ensures
        r == compression_name_codec(s@),
{
    if str_eq(s, "H264") || str_eq(s, "AVC1") {
        CodecId::H264
    } else if str_eq(s, "HEVC") || str_eq(s, "HVC1") {
        CodecId::H265
    } else if str_eq(s, "VP80") {
        CodecId::Vp8
    } else if str_eq(s, "VP90") {
        CodecId::Vp9
    } else if str_eq(s, "MJPG") {
        CodecId::Mjpeg
    } else if str_eq(s, "MP4V") || str_eq(s, "XVID") || str_eq(s, "DIVX") || str_eq(s, "DX50") {
        CodecId::Mpeg4
    } else {
        CodecId::Unknown
    }
}

/// Formats four bytes as four characters, each byte `b` as the character
/// with code point `b`, through `format!` with `char`'s `Display`, which
/// writes the character itself.
#[verifier::external_body]
fn fourcc_text(b0: u8, b1: u8, b2: u8, b3: u8) -> (r: String)
    ensures
        r@ == seq![b0 as char, b1 as char, b2 as char, b3 as char],
{
    format!("{}{}{}{}", b0 as char, b1 as char, b2 as char, b3 as char)
}

/// The text of a `biCompression` value: its four little-endian bytes as
/// characters.
pub open spec fn compression_chars(bi: u32) -> Seq<char> {
    seq![(bi % 256) as u8 as char, ((bi / 256) % 256) as u8 as char, ((bi / 65536) % 256) as u8 as char, (bi / 16777216) as u8 as char]
}

/// Video codec of a stream: from the stream handler FourCC (its lossy
/// text without trailing NULs or surrounding white space, upper-cased);
/// failing that, raw video when `biCompression` is 0, else the codec its
/// upper-cased FourCC names.
pub open spec fn avi_video_codec(handler: Seq<u8>, bi: u32) -> CodecId {
    match handler_name_codec(unicode_uppercase(trim_seq(trim_end_nul_seq(utf8_lossy_chars(handler))))) {
        Some(c) => c,
        None => if bi == 0 {
            CodecId::RawVideo
        } else {
            compression_name_codec(unicode_uppercase(compression_chars(bi)))
        },
    }
}

/// The video codec of a stream from its handler FourCC and `biCompression`.
pub fn resolve_video_codec(fcc_handler: &[u8; 4], bi_compression: u32) -> (r: CodecId)
    ensures
        r == avi_video_codec(fcc_handler@, bi_compression),
{
    let text = utf8_lossy(fcc_handler.as_slice());
    let upper = to_uppercase(trim(trim_end_nul(text.as_str())));
    match handler_codec(upper.as_str()) {
        Some(c) => c,
        None => {
            if bi_compression == 0 {
                CodecId::RawVideo
            } else {
                let t = fourcc_text(
                    (bi_compression % 256) as u8,
                    ((bi_compression / 256) % 256) as u8,
                    ((bi_compression / 65536) % 256) as u8,
                    (bi_compression / 16777216) as u8,
                );
                compression_codec(to_uppercase(t.as_str()).as_str())
            }
        },
    }
}

/// Audio codec for a WAVE format tag and sample size; `None` when the
/// combination is not handled.
pub open spec fn avi_audio_codec(tag: u16, bits: u16) -> Option<CodecId> {
    if tag == 1 {
        if bits == 8 {
            Some(CodecId::PcmU8)
        } else if bits == 16 {
            Some(CodecId::PcmS16le)
        } else if bits == 24 {
            Some(CodecId::PcmS24le)
        } else if bits == 32 {
            Some(CodecId::PcmS32le)
        } else {
            None
        }
    } else if tag == 3 {
        if bits == 32 { Some(CodecId::PcmF32le) } else { None }
    } else if tag == 0x50 || tag == 0x55 {
        Some(CodecId::Mp3)
    } else if tag == 0x160 {
        Some(CodecId::Aac)
    } else {
        None
    }
}

/// The audio codec for a WAVE format tag and sample size; `Unsupported`
/// for a combination not handled.
pub fn resolve_audio_codec(format_tag: u16, bits_per_sample: u16) -> (r: TaoResult<CodecId>)
    ensures
        match avi_audio_codec(format_tag, bits_per_sample) {
            Some(c) => r == Ok::<CodecId, TaoError>(c),
            None => r is Err && r->Err_0 is Unsupported,
        },
{
    if format_tag == 1 {
        if bits_per_sample == 8 {
            Ok(CodecId::PcmU8)
        } else if bits_per_sample == 16 {
            Ok(CodecId::PcmS16le)
        } else if bits_per_sample == 24 {
            Ok(CodecId::PcmS24le)
        } else if bits_per_sample == 32 {
            Ok(CodecId::PcmS32le)
        } else {
            Err(unsupported("PCM sample size not handled"))
        }
    } else if format_tag == 3 {
        if bits_per_sample == 32 {
            Ok(CodecId::PcmF32le)
        } else {
            Err(unsupported("float sample size not handled"))
        }
    } else if format_tag == 0x50 || format_tag == 0x55 {
        Ok(CodecId::Mp3)
    } else if format_tag == 0x160 {
        Ok(CodecId::Aac)
    } else {
        Err(unsupported("audio format tag not handled"))
    }
}

/// Sample format of a PCM codec; `Unknown` for the others.
pub open spec fn avi_sample_format(c: CodecId) -> SampleFormat {
    match c {
        CodecId::PcmU8 => SampleFormat::U8,
        CodecId::PcmS16le => SampleFormat::S16,
        CodecId::PcmS24le | CodecId::PcmS32le => SampleFormat::S32,
        CodecId::PcmF32le => SampleFormat::F32,
        _ => SampleFormat::Unknown,
    }
}

/// The sample format of a PCM codec.
pub fn resolve_sample_format(codec_id: CodecId) -> (r: SampleFormat)
    ensures
        r == avi_sample_format(codec_id),
{
    match codec_id {
        CodecId::PcmU8 => SampleFormat::U8,
        CodecId::PcmS16le => SampleFormat::S16,
        CodecId::PcmS24le | CodecId::PcmS32le => SampleFormat::S32,
        CodecId::PcmF32le => SampleFormat::F32,
        _ => SampleFormat::Unknown,
    }
}

/// Pixel format of uncompressed video by bit count; YUV 4:2:0 for
/// compressed video.
pub open spec fn avi_pixel_format(bi: u32, bits: u16) -> PixelFormat {
    if bi == 0 {
        if bits == 24 {
            PixelFormat::Bgr24
        } else if bits == 32 {
            PixelFormat::Bgra
        } else if bits == 8 {
            PixelFormat::Gray8
        } else {
            PixelFormat::Unknown
        }
    } else {
        PixelFormat::Yuv420p
    }
}

/// The pixel format from `biCompression` and the bit count.
pub fn resolve_pixel_format(bi_compression: u32, bi_bit_count: u16) -> (r: PixelFormat)
    ensures
        r == avi_pixel_format(bi_compression, bi_bit_count),
{
    if bi_compression == 0 {
        if bi_bit_count == 24 {
            PixelFormat::Bgr24
        } else if bi_bit_count == 32 {
            PixelFormat::Bgra
        } else if bi_bit_count == 8 {
            PixelFormat::Gray8
        } else {
            PixelFormat::Unknown
        }
    } else {
        PixelFormat::Yuv420p
    }
}

/// A stream as plain values.
pub struct StreamView {
    /// Position of the stream.
    pub index: usize,
    /// Media type.
    pub media_type: MediaType,
    /// Codec.
    pub codec_id: CodecId,
    /// Time base.
    pub time_base: Rational,
    /// Duration.
    pub duration: i64,
    /// Start time.
    pub start_time: i64,
    /// Frame count.
    pub nb_frames: u64,
    /// Codec private data.
    pub extra: Seq<u8>,
    /// Parameters.
    pub params: StreamParams,
    /// Metadata.
    pub metadata: Seq<(String, String)>,
}

/// The plain values of a stream.
pub open spec fn stream_view(s: Stream) -> StreamView {
    StreamView {
        index: s.index,
        media_type: s.media_type,
        codec_id: s.codec_id,
        time_base: s.time_base,
        duration: s.duration,
        start_time: s.start_time,
        nb_frames: s.nb_frames,
        extra: s.extra_data@,
        params: s.params,
        metadata: s.metadata@,
    }
}

/// The plain values of each stream.
pub open spec fn stream_views(v: Seq<Stream>) -> Seq<StreamView> {
    Seq::new(v.len(), |i: int| stream_view(v[i]))
}

/// The `LIST` chunk tag.
pub open spec fn list_tag() -> Seq<u8> {
    seq![0x4Cu8, 0x49, 0x53, 0x54]
}

/// `size - 4`, wrapping below 0 as a 32-bit value.
pub open spec fn minus4(size: u32) -> u32 {
    if size >= 4 { (size - 4) as u32 } else { (size + 0x1_0000_0000 - 4) as u32 }
}

/// The chunk header at `p`: its id (for a `LIST`, the list type), its
/// size (for a `LIST`, without the list type), whether it is a list, and
/// where its body starts; `None` when the data ends inside the header.
pub open spec fn chunk_hdr(d: Seq<u8>, p: int) -> Option<(Seq<u8>, u32, bool, int)> {
    if p < 0 || p + 8 > d.len() {
        None
    } else {
        let size = le32(d[p + 4], d[p + 5], d[p + 6], d[p + 7]) as u32;
        if d.subrange(p, p + 4) == list_tag() {
            if p + 12 > d.len() {
                None
            } else {
                Some((d.subrange(p + 8, p + 12), minus4(size), true, p + 12))
            }
        } else {
            Some((d.subrange(p, p + 4), size, false, p + 8))
        }
    }
}

/// Where the cursor ends when a read at `p` runs out of data.
pub open spec fn eof_at(d: Seq<u8>, p: int) -> int {
    if p >= d.len() { p } else { d.len() as int }
}

/// `x` past the pad byte that follows a body of odd size.
pub open spec fn padded(x: int, size: u32) -> int {
    if size % 2 != 0 { x + 1 } else { x }
}

/// Little-endian 16-bit value of `f` at `i`.
pub open spec fn u16_at(f: Seq<u8>, i: int) -> u16 {
    le16(f[i], f[i + 1]) as u16
}

/// Little-endian 32-bit value of `f` at `i`.
pub open spec fn u32_at(f: Seq<u8>, i: int) -> u32 {
    le32(f[i], f[i + 1], f[i + 2], f[i + 3]) as u32
}

/// Four-byte tags.
pub open spec fn tag_hdrl() -> Seq<u8> { seq![0x68u8, 0x64, 0x72, 0x6C] }
/// `strl`.
pub open spec fn tag_strl() -> Seq<u8> { seq![0x73u8, 0x74, 0x72, 0x6C] }
/// `avih`.
pub open spec fn tag_avih() -> Seq<u8> { seq![0x61u8, 0x76, 0x69, 0x68] }
/// `strh`.
pub open spec fn tag_strh() -> Seq<u8> { seq![0x73u8, 0x74, 0x72, 0x68] }
/// `strf`.
pub open spec fn tag_strf() -> Seq<u8> { seq![0x73u8, 0x74, 0x72, 0x66] }
/// `vids`.
pub open spec fn tag_vids() -> Seq<u8> { seq![0x76u8, 0x69, 0x64, 0x73] }
/// `auds`.
pub open spec fn tag_auds() -> Seq<u8> { seq![0x61u8, 0x75, 0x64, 0x73] }
/// `movi`.
pub open spec fn tag_movi() -> Seq<u8> { seq![0x6Du8, 0x6F, 0x76, 0x69] }
/// `idx1`.
pub open spec fn tag_idx1() -> Seq<u8> { seq![0x69u8, 0x64, 0x78, 0x31] }

/// What a stream list has gathered so far.
pub struct StrlState {
    /// Stream type FourCC of the last `strh`.
    pub fcc_type: Seq<u8>,
    /// Handler FourCC of the last `strh`.
    pub handler: Seq<u8>,
    /// Time scale of the last `strh`.
    pub scale: u32,
    /// Rate of the last `strh`.
    pub rate: u32,
    /// Body of the last `strf`.
    pub format: Seq<u8>,
    /// The streams.
    pub streams: Seq<StreamView>,
    /// Index the next stream gets.
    pub next_index: usize,
}

/// The stream a video `strh` adds.
pub open spec fn strh_video_stream(index: usize, codec: CodecId, scale: u32, rate: u32, length: u32) -> StreamView {
    StreamView {
        index,
        media_type: MediaType::Video,
        codec_id: codec,
        time_base: Rational::new_spec(scale as i32, rate as i32),
        duration: length as i64,
        start_time: 0,
        nb_frames: length as u64,
        extra: seq![],
        params: StreamParams::Video(VideoStreamParams {
            width: 0,
            height: 0,
            pixel_format: PixelFormat::Yuv420p,
            frame_rate: Rational::new_spec(rate as i32, scale as i32),
            sample_aspect_ratio: Rational::new_spec(1, 1),
            bit_rate: 0,
        }),
        metadata: seq![],
    }
}

/// The stream an audio `strf` with body `f` and codec `c` adds.
pub open spec fn strf_audio_stream(index: usize, c: CodecId, f: Seq<u8>) -> StreamView {
    StreamView {
        index,
        media_type: MediaType::Audio,
        codec_id: c,
        time_base: Rational::new_spec(1, u32_at(f, 4) as i32),
        duration: -1i64,
        start_time: 0,
        nb_frames: 0,
        extra: f,
        params: StreamParams::Audio(AudioStreamParams {
            sample_rate: u32_at(f, 4),
            channel_layout: ChannelLayout { channels: u16_at(f, 2) as u32 },
            sample_format: avi_sample_format(c),
            bit_rate: 0,
            frame_size: u16_at(f, 12) as u32,
        }),
        metadata: seq![],
    }
}

/// The stream a video `strf` with body `f` adds when no video stream of
/// the previous index exists.
pub open spec fn strf_video_stream(index: usize, st: StrlState, f: Seq<u8>) -> StreamView {
    StreamView {
        index,
        media_type: MediaType::Video,
        codec_id: avi_video_codec(st.handler, u32_at(f, 16)),
        time_base: Rational::new_spec(st.scale as i32, st.rate as i32),
        duration: -1i64,
        start_time: 0,
        nb_frames: 0,
        extra: f,
        params: StreamParams::Video(VideoStreamParams {
            width: u32_at(f, 4),
            height: u32_at(f, 8),
            pixel_format: avi_pixel_format(u32_at(f, 16), u16_at(f, 14)),
            frame_rate: Rational::new_spec(st.rate as i32, st.scale as i32),
            sample_aspect_ratio: Rational::new_spec(1, 1),
            bit_rate: 0,
        }),
        metadata: seq![],
    }
}

/// A video stream updated by a `strf` with body `f`: codec, private data
/// and, for video parameters, size and pixel format.
pub open spec fn strf_video_update(s: StreamView, st: StrlState, f: Seq<u8>) -> StreamView {
    StreamView {
        codec_id: avi_video_codec(st.handler, u32_at(f, 16)),
        extra: f,
        params: match s.params {
            StreamParams::Video(v) => StreamParams::Video(VideoStreamParams {
                width: u32_at(f, 4),
                height: u32_at(f, 8),
                pixel_format: avi_pixel_format(u32_at(f, 16), u16_at(f, 14)),
                ..v
            }),
            p => p,
        },
        ..s
    }
}

/// The first video stream of index `idx` from `k`.
pub open spec fn video_at(v: Seq<StreamView>, idx: usize, k: int) -> Option<int>
    decreases v.len() - k,
{
    if k < 0 || k >= v.len() {
        None
    } else if v[k].index == idx && v[k].media_type == MediaType::Video {
        Some(k)
    } else {
        video_at(v, idx, k + 1)
    }
}

/// `i - 1`, wrapping below 0.
pub open spec fn prev_index(i: usize) -> usize {
    if i == 0 { usize::MAX } else { (i - 1) as usize }
}

/// A `strh` chunk of `size` bytes whose body starts at `q`: it must hold
/// 48 bytes; it sets the stream type, handler and rates, and adds a video
/// stream when the handler names a known codec (an unknown one leaves the
/// pad byte of an odd size unread).
pub open spec fn strh_step(d: Seq<u8>, q: int, size: u32, st: StrlState) -> (StrlState, Option<ErrorKind>, int) {
    if size < 48 {
        (st, Some(ErrorKind::InvalidData), q)
    } else if q + 36 > d.len() {
        (st, Some(ErrorKind::Eof), eof_at(d, q))
    } else {
        let st1 = StrlState {
            fcc_type: d.subrange(q, q + 4),
            handler: d.subrange(q + 4, q + 8),
            scale: u32_at(d, q + 20),
            rate: u32_at(d, q + 24),
            ..st
        };
        let length = u32_at(d, q + 32);
        let q2 = q + size;
        if st1.fcc_type == tag_vids() {
            let c = avi_video_codec(st1.handler, 0);
            if c == CodecId::Unknown {
                (st1, None, q2)
            } else {
                (StrlState {
                    streams: st1.streams.push(strh_video_stream(st1.next_index, c, st1.scale, st1.rate, length)),
                    next_index: (st1.next_index + 1) as usize,
                    ..st1
                }, None, padded(q2, size))
            }
        } else if st1.fcc_type == tag_auds() {
            (StrlState { format: seq![], ..st1 }, None, padded(q2, size))
        } else {
            (st1, None, padded(q2, size))
        }
    }
}

/// A `strf` chunk of `size` bytes whose body starts at `q`: its body is
/// kept; for an audio stream of 18 bytes or more it adds an audio stream
/// (`Unsupported` for a format not handled); for a video stream of 40 bytes
/// or more it completes the video stream of the previous index, or adds one.
pub open spec fn strf_step(d: Seq<u8>, q: int, size: u32, st: StrlState) -> (StrlState, Option<ErrorKind>, int) {
    if size > 0 && q + size > d.len() {
        (st, Some(ErrorKind::Eof), eof_at(d, q))
    } else {
        let f = if size == 0 { Seq::<u8>::empty() } else { d.subrange(q, q + size) };
        let st1 = StrlState { format: f, ..st };
        let q2 = padded(q + size, size);
        if st.fcc_type == tag_auds() && f.len() >= 18 {
            match avi_audio_codec(u16_at(f, 0), u16_at(f, 14)) {
                None => (st1, Some(ErrorKind::Unsupported), q + size),
                Some(c) => (StrlState {
                    streams: st1.streams.push(strf_audio_stream(st1.next_index, c, f)),
                    next_index: (st1.next_index + 1) as usize,
                    ..st1
                }, None, q2),
            }
        } else if st.fcc_type == tag_vids() && f.len() >= 40 {
            match video_at(st1.streams, prev_index(st1.next_index), 0) {
                Some(i) => (StrlState {
                    streams: st1.streams.update(i, strf_video_update(st1.streams[i], st1, f)),
                    ..st1
                }, None, q2),
                None => (StrlState {
                    streams: st1.streams.push(strf_video_stream(st1.next_index, st1, f)),
                    next_index: (st1.next_index + 1) as usize,
                    ..st1
                }, None, q2),
            }
        } else {
            (st1, None, q2)
        }
    }
}

/// One chunk of a stream list at `p`: sub-lists and chunks other than
/// `strh` and `strf` are skipped. The state after it, the error that stops
/// the walk if any, and where the cursor ends.
pub open spec fn strl_step(d: Seq<u8>, p: int, st: StrlState) -> (StrlState, Option<ErrorKind>, int) {
    match chunk_hdr(d, p) {
        None => (st, Some(ErrorKind::Eof), eof_at(d, p)),
        Some((id, size, list, q)) => {
            if list {
                (st, None, q + size)
            } else if id == tag_strh() {
                strh_step(d, q, size, st)
            } else if id == tag_strf() {
                strf_step(d, q, size, st)
            } else {
                (st, None, padded(q + size, size))
            }
        },
    }
}

/// A chunk of a stream list moves the cursor forward, past its header
/// when no error stops the walk.
pub proof fn lemma_strl_step(d: Seq<u8>, p: int, st: StrlState)
    requires
        0 <= p,
    ensures
        strl_step(d, p, st).2 >= p,
        strl_step(d, p, st).1 is None ==> strl_step(d, p, st).2 >= p + 8,
{
}

/// The chunks of a stream list from `p` to `end`, one after the other,
/// until one stops the walk with an error. The state reached, the error
/// if any, and where the cursor ends.
pub open spec fn strl_walk(d: Seq<u8>, p: int, end: int, st: StrlState) -> (StrlState, Option<ErrorKind>, int)
    decreases (if p < end { end - p } else { 0 }),
{
    if p >= end || p < 0 {
        (st, None, p)
    } else {
        let r = strl_step(d, p, st);
        match r.1 {
            Some(_) => r,
            None => {
                proof {
                    lemma_strl_step(d, p, st);
                }
                strl_walk(d, r.2, end, r.0)
            },
        }
    }
}

/// Walking a stream list never moves the cursor back.
pub proof fn lemma_strl_walk_cursor(d: Seq<u8>, p: int, end: int, st: StrlState)
    requires
        0 <= p,
    ensures
        strl_walk(d, p, end, st).2 >= p,
    decreases (if p < end { end - p } else { 0 }),
{
    if p < end {
        lemma_strl_step(d, p, st);
        let r = strl_step(d, p, st);
        if r.1 is None {
            lemma_strl_walk_cursor(d, r.2, end, r.0);
        }
    }
}

/// What the header list has gathered: the streams and the index the next
/// stream gets.
pub struct HdrlState {
    /// The streams.
    pub streams: Seq<StreamView>,
    /// Index the next stream gets.
    pub next_index: usize,
}

/// The state a stream list starts from.
pub open spec fn strl_start(st: HdrlState) -> StrlState {
    StrlState {
        fcc_type: seq![0u8, 0, 0, 0],
        handler: seq![0u8, 0, 0, 0],
        scale: 1,
        rate: 1,
        format: seq![],
        streams: st.streams,
        next_index: st.next_index,
    }
}

/// The chunks of the header list from `p` to `end`: `avih` must hold 56
/// bytes; each `strl` list is walked; other chunks are skipped. The state
/// reached, the error that stopped the walk if any, and where the cursor
/// ends.
pub open spec fn hdrl_walk(d: Seq<u8>, p: int, end: int, st: HdrlState) -> (HdrlState, Option<ErrorKind>, int)
    decreases (if p < end { end - p } else { 0 }),
{
    if p >= end {
        (st, None, p)
    } else {
        match chunk_hdr(d, p) {
            None => (st, Some(ErrorKind::Eof), eof_at(d, p)),
            Some((id, size, list, q)) => {
                if !list && id == tag_avih() {
                    if size < 56 {
                        (st, Some(ErrorKind::InvalidData), q)
                    } else if q + 56 > d.len() {
                        (st, Some(ErrorKind::Eof), eof_at(d, q))
                    } else {
                        hdrl_walk(d, padded(q + size, size), end, st)
                    }
                } else if list && id == tag_strl() {
                    let r = strl_walk(d, q, q + size, strl_start(st));
                    let st2 = HdrlState { streams: r.0.streams, next_index: r.0.next_index };
                    match r.1 {
                        Some(e) => (st2, Some(e), r.2),
                        None => {
                            proof {
                                lemma_strl_walk_cursor(d, q, q + size, strl_start(st));
                            }
                            hdrl_walk(d, r.2, end, st2)
                        },
                    }
                } else if list {
                    hdrl_walk(d, q + size, end, st)
                } else {
                    hdrl_walk(d, padded(q + size, size), end, st)
                }
            },
        }
    }
}

/// Whether the positions the AVI walks reach stay far inside `i64`.
pub open spec fn avi_io_ok(io: IoContext) -> bool {
    &&& io.contents().len() <= MAX_INPUT_LEN
    &&& io.cursor() <= 0x100_0000_0000_0000
    &&& 0x40_0000_0000_0000 <= usize::MAX
}

/// Reads a chunk header: the id (for a `LIST`, the list type), the size
/// (for a `LIST`, without the list type) and whether it is a list.
fn read_riff_chunk_header(io: &mut IoContext) -> (r: TaoResult<([u8; 4], u32, bool)>)
    requires
        avi_io_ok(*old(io)),
    ensures
        final(io).contents() == old(io).contents(),
        match chunk_hdr(old(io).contents(), old(io).cursor() as int) {
            None => r is Err && r->Err_0 is Eof && final(io).cursor() == eof_at(old(io).contents(), old(io).cursor() as int),
            Some((id, size, list, q)) => r matches Ok((t, sz, l)) && t@ == id && sz == size && l == list && final(io).cursor() == q,
        },
{
    let ghost d = io.contents();
    let ghost p = io.cursor() as int;
    let chunk_id = io.read_tag()?;
    let chunk_size = io.read_u32_le()?;
    proof {
        lemma_bytes_at_subrange(d, p as nat, 4);
    }
    let list: [u8; 4] = [0x4C, 0x49, 0x53, 0x54];
    assert(list@ =~= list_tag());
    if tag_is(&chunk_id, &list) {
        let list_type = io.read_tag()?;
        proof {
            lemma_bytes_at_subrange(d, (p + 8) as nat, 4);
        }
        let size = if chunk_size >= 4 { chunk_size - 4 } else { chunk_size + 0xFFFF_FFFC };
        Ok((list_type, size, true))
    } else {
        Ok((chunk_id, chunk_size, false))
    }
}

/// An `idx1` entry.
#[derive(Clone, Copy)]
pub struct Idx1Entry {
    /// Chunk id, such as `00dc`.
    pub chunk_id: [u8; 4],
    /// Flags (0x10: keyframe).
    pub flags: u32,
    /// Offset of the chunk from the `movi` list data.
    pub offset: u32,
    /// Data size.
    pub size: u32,
}

/// Reader of AVI files.
pub struct AviDemuxer {
    streams: Vec<Stream>,
    movi_data_start: u64,
    movi_list_size: u64,
    idx1_entries: Vec<Idx1Entry>,
    idx_pos: usize,
    frame_counts: Vec<i64>,
    metadata: Vec<(String, String)>,
}

impl AviDemuxer {
    /// The streams found.
    pub closed spec fn stream_list(&self) -> Seq<Stream> {
        self.streams@
    }

    /// Offset of the `movi` list data.
    pub closed spec fn movi_start(&self) -> u64 {
        self.movi_data_start
    }

    /// Size of the `movi` list.
    pub closed spec fn movi_size(&self) -> u64 {
        self.movi_list_size
    }

    /// The `idx1` index.
    pub closed spec fn index(&self) -> Seq<Idx1Entry> {
        self.idx1_entries@
    }

    /// Position in the index of the next packet.
    pub closed spec fn index_pos(&self) -> usize {
        self.idx_pos
    }

    /// Packets read per stream.
    pub closed spec fn counts(&self) -> Seq<i64> {
        self.frame_counts@
    }

    /// Container metadata.
    pub closed spec fn meta(&self) -> Seq<(String, String)> {
        self.metadata@
    }

    /// A demuxer before `open`.
    pub fn new() -> (r: Self)
        ensures
            r.stream_list().len() == 0,
            r.movi_start() == 0,
            r.movi_size() == 0,
            r.index().len() == 0,
            r.index_pos() == 0,
            r.counts().len() == 0,
            r.meta().len() == 0,
    {
        AviDemuxer {
            streams: Vec::new(),
            movi_data_start: 0,
            movi_list_size: 0,
            idx1_entries: Vec::new(),
            idx_pos: 0,
            frame_counts: Vec::new(),
            metadata: Vec::new(),
        }
    }
}

/// The state a stream list walk is in, from its local values.
pub open spec fn strl_state(fcc_type: Seq<u8>, handler: Seq<u8>, scale: u32, rate: u32, format: Seq<u8>, streams: Seq<Stream>, next_index: usize) -> StrlState {
    StrlState { fcc_type, handler, scale, rate, format, streams: stream_views(streams), next_index }
}

/// The kind of an optional error, as a result.
pub open spec fn result_is(r: TaoResult<()>, e: Option<ErrorKind>) -> bool {
    match e {
        None => r is Ok,
        Some(k) => r is Err && r->Err_0.kind() == k,
    }
}

/// The locals of a stream list walk.
pub struct StrlLocals {
    /// Stream type FourCC.
    pub fcc_type: [u8; 4],
    /// Handler FourCC.
    pub fcc_handler: [u8; 4],
    /// Time scale.
    pub scale: u32,
    /// Rate.
    pub rate: u32,
    /// Body of the last `strf`.
    pub stream_format: Vec<u8>,
    /// Index the next stream gets.
    pub stream_index: usize,
}

/// The state a stream list walk is in, from its locals and the streams.
pub open spec fn strl_of(l: StrlLocals, streams: Seq<Stream>) -> StrlState {
    strl_state(l.fcc_type@, l.fcc_handler@, l.scale, l.rate, l.stream_format@, streams, l.stream_index)
}

impl AviDemuxer {
    /// Whether only the streams differ between two states.
    pub closed spec fn same_but_streams(a: Self, b: Self) -> bool {
        &&& b.movi_data_start == a.movi_data_start
        &&& b.movi_list_size == a.movi_list_size
        &&& b.idx1_entries == a.idx1_entries
        &&& b.idx_pos == a.idx_pos
        &&& b.frame_counts == a.frame_counts
        &&& b.metadata == a.metadata
    }

    /// Takes a `strh` chunk whose body is at the cursor.
    fn strh_chunk(&mut self, io: &mut IoContext, size: u32, l: &mut StrlLocals) -> (r: TaoResult<()>)
        requires
            avi_io_ok(*old(io)),
            old(io).cursor() <= 0x80_0000_0000_0000,
            old(l).stream_index <= old(io).cursor(),
        ensures
            final(io).contents() == old(io).contents(),
            ({
                let w = strh_step(old(io).contents(), old(io).cursor() as int, size, strl_of(*old(l), old(self).streams@));
                &&& strl_of(*final(l), final(self).streams@) == w.0
                &&& final(io).cursor() == w.2
                &&& result_is(r, w.1)
            }),
            final(io).cursor() <= old(io).cursor() + 0x1_0000_0001,
            final(l).stream_index <= final(io).cursor(),
            Self::same_but_streams(*old(self), *final(self)),
    {
        let ghost d = io.contents();
        let ghost q = io.cursor() as int;
        if size < 48 {
            return Err(invalid_data("strh chunk shorter than 48 bytes"));
        }
        let h = io.read_bytes(36)?;
        proof {
            lemma_bytes_at_subrange(d, q as nat, 36);
        }
        l.fcc_type = [h[0], h[1], h[2], h[3]];
        l.fcc_handler = [h[4], h[5], h[6], h[7]];
        l.scale = u32_from_le(h[20], h[21], h[22], h[23]);
        l.rate = u32_from_le(h[24], h[25], h[26], h[27]);
        let length = u32_from_le(h[32], h[33], h[34], h[35]);
        assert(l.fcc_type@ =~= d.subrange(q, q + 4));
        assert(l.fcc_handler@ =~= d.subrange(q + 4, q + 8));
        io.skip((size - 36) as usize)?;
        let vids: [u8; 4] = [0x76, 0x69, 0x64, 0x73];
        let auds: [u8; 4] = [0x61, 0x75, 0x64, 0x73];
        assert(vids@ =~= tag_vids());
        assert(auds@ =~= tag_auds());
        if tag_is(&l.fcc_type, &vids) {
            let codec_id = resolve_video_codec(&l.fcc_handler, 0);
            if codec_id == CodecId::Unknown {
                return Ok(());
            }
            let stream = Stream {
                index: l.stream_index,
                media_type: MediaType::Video,
                codec_id,
                time_base: Rational::new(l.scale as i32, l.rate as i32),
                duration: length as i64,
                start_time: 0,
                nb_frames: length as u64,
                extra_data: Vec::new(),
                params: StreamParams::Video(VideoStreamParams {
                    width: 0,
                    height: 0,
                    pixel_format: PixelFormat::Yuv420p,
                    frame_rate: Rational::new(l.rate as i32, l.scale as i32),
                    sample_aspect_ratio: Rational::new(1, 1),
                    bit_rate: 0,
                }),
                metadata: Vec::new(),
            };
            let ghost before = self.streams@;
            self.streams.push(stream);
            proof {
                assert(stream_views(self.streams@) =~= stream_views(before).push(strh_video_stream(l.stream_index, codec_id, l.scale, l.rate, length)));
            }
            l.stream_index = l.stream_index + 1;
        } else if tag_is(&l.fcc_type, &auds) {
            l.stream_format.clear();
        }
        if size % 2 != 0 {
            io.skip(1)?;
        }
        Ok(())
    }

    /// Takes a `strf` chunk whose body is at the cursor.
    fn strf_chunk(&mut self, io: &mut IoContext, size: u32, l: &mut StrlLocals) -> (r: TaoResult<()>)
        requires
            avi_io_ok(*old(io)),
            old(io).cursor() <= 0x80_0000_0000_0000,
            old(l).stream_index <= old(io).cursor(),
        ensures
            final(io).contents() == old(io).contents(),
            ({
                let w = strf_step(old(io).contents(), old(io).cursor() as int, size, strl_of(*old(l), old(self).streams@));
                &&& strl_of(*final(l), final(self).streams@) == w.0
                &&& final(io).cursor() == w.2
                &&& result_is(r, w.1)
            }),
            final(io).cursor() <= old(io).cursor() + 0x1_0000_0001,
            final(l).stream_index <= final(io).cursor(),
            Self::same_but_streams(*old(self), *final(self)),
    {
        let ghost d = io.contents();
        let ghost q = io.cursor() as int;
        let ghost st0 = strl_of(*l, self.streams@);
        l.stream_format = io.read_bytes(size as usize)?;
        proof {
            if size > 0 {
                lemma_bytes_at_subrange(d, q as nat, size as nat);
            } else {
                assert(l.stream_format@ =~= Seq::<u8>::empty());
            }
        }
        let vids: [u8; 4] = [0x76, 0x69, 0x64, 0x73];
        let auds: [u8; 4] = [0x61, 0x75, 0x64, 0x73];
        assert(vids@ =~= tag_vids());
        assert(auds@ =~= tag_auds());
        if tag_is(&l.fcc_type, &auds) && l.stream_format.len() >= 18 {
            let f = &l.stream_format;
            let format_tag = u16_from_le(f[0], f[1]);
            let channels = u16_from_le(f[2], f[3]);
            let sample_rate = u32_from_le(f[4], f[5], f[6], f[7]);
            let block_align = u16_from_le(f[12], f[13]);
            let bits_per_sample = u16_from_le(f[14], f[15]);
            let codec_id = resolve_audio_codec(format_tag, bits_per_sample)?;
            let stream = Stream {
                index: l.stream_index,
                media_type: MediaType::Audio,
                codec_id,
                time_base: Rational::new(1, sample_rate as i32),
                duration: -1,
                start_time: 0,
                nb_frames: 0,
                extra_data: copy_bytes(l.stream_format.as_slice()),
                params: StreamParams::Audio(AudioStreamParams {
                    sample_rate,
                    channel_layout: ChannelLayout::from_channels(channels as u32),
                    sample_format: resolve_sample_format(codec_id),
                    bit_rate: 0,
                    frame_size: block_align as u32,
                }),
                metadata: Vec::new(),
            };
            let ghost before = self.streams@;
            self.streams.push(stream);
            proof {
                assert(stream_views(self.streams@) =~= stream_views(before).push(strf_audio_stream(l.stream_index, codec_id, l.stream_format@)));
            }
            l.stream_index = l.stream_index + 1;
        } else if tag_is(&l.fcc_type, &vids) && l.stream_format.len() >= 40 {
            let f = &l.stream_format;
            let width = u32_from_le(f[4], f[5], f[6], f[7]);
            let height = u32_from_le(f[8], f[9], f[10], f[11]);
            let bi_bit_count = u16_from_le(f[14], f[15]);
            let bi_compression = u32_from_le(f[16], f[17], f[18], f[19]);
            let want = if l.stream_index == 0 { usize::MAX } else { l.stream_index - 1 };
            let found = self.find_video(want);
            let codec_id = resolve_video_codec(&l.fcc_handler, bi_compression);
            let pixel_format = resolve_pixel_format(bi_compression, bi_bit_count);
            let ghost stv = strl_of(*l, self.streams@);
            match found {
                Some(i) => {
                    let ghost before = self.streams@;
                    let mut s = self.streams.remove(i);
                    s.codec_id = codec_id;
                    s.extra_data = copy_bytes(l.stream_format.as_slice());
                    s.params = match s.params {
                        StreamParams::Video(v) => StreamParams::Video(VideoStreamParams { width, height, pixel_format, ..v }),
                        other => other,
                    };
                    self.streams.insert(i, s);
                    proof {
                        assert(stream_views(self.streams@) =~= stream_views(before).update(i as int, strf_video_update(stream_views(before)[i as int], stv, l.stream_format@)));
                    }
                },
                None => {
                    let stream = Stream {
                        index: l.stream_index,
                        media_type: MediaType::Video,
                        codec_id,
                        time_base: Rational::new(l.scale as i32, l.rate as i32),
                        duration: -1,
                        start_time: 0,
                        nb_frames: 0,
                        extra_data: copy_bytes(l.stream_format.as_slice()),
                        params: StreamParams::Video(VideoStreamParams {
                            width,
                            height,
                            pixel_format,
                            frame_rate: Rational::new(l.rate as i32, l.scale as i32),
                            sample_aspect_ratio: Rational::new(1, 1),
                            bit_rate: 0,
                        }),
                        metadata: Vec::new(),
                    };
                    let ghost before = self.streams@;
                    self.streams.push(stream);
                    proof {
                        assert(stream_views(self.streams@) =~= stream_views(before).push(strf_video_stream(l.stream_index, stv, l.stream_format@)));
                    }
                    l.stream_index = l.stream_index + 1;
                },
            }
        }
        if size % 2 != 0 {
            io.skip(1)?;
        }
        Ok(())
    }

    /// Walks a stream list up to `strl_end`, adding and completing streams.
    fn parse_strl(&mut self, io: &mut IoContext, strl_end: u64, stream_index: &mut usize) -> (r: TaoResult<()>)
        requires
            avi_io_ok(*old(io)),
            old(io).cursor() <= strl_end + 0x2_0000_0000,
            strl_end <= 0x80_0000_0000_0000,
            *old(stream_index) <= old(io).cursor(),
        ensures
            final(io).contents() == old(io).contents(),
            ({
                let w = strl_walk(old(io).contents(), old(io).cursor() as int, strl_end as int,
                    strl_state(seq![0u8, 0, 0, 0], seq![0u8, 0, 0, 0], 1, 1, seq![], old(self).streams@, *old(stream_index)));
                &&& stream_views(final(self).streams@) == w.0.streams
                &&& *final(stream_index) == w.0.next_index
                &&& final(io).cursor() == w.2
                &&& result_is(r, w.1)
            }),
            final(io).cursor() <= strl_end + 0x2_0000_0000,
            *final(stream_index) <= final(io).cursor(),
            Self::same_but_streams(*old(self), *final(self)),
    {
        let ghost d = io.contents();
        let ghost target = strl_walk(d, io.cursor() as int, strl_end as int,
            strl_state(seq![0u8, 0, 0, 0], seq![0u8, 0, 0, 0], 1, 1, seq![], self.streams@, *stream_index));
        let mut l = StrlLocals {
            fcc_type: [0, 0, 0, 0],
            fcc_handler: [0, 0, 0, 0],
            scale: 1,
            rate: 1,
            stream_format: Vec::new(),
            stream_index: *stream_index,
        };
        assert(l.fcc_type@ =~= seq![0u8, 0, 0, 0]);
        assert(l.fcc_handler@ =~= seq![0u8, 0, 0, 0]);
        let strh: [u8; 4] = [0x73, 0x74, 0x72, 0x68];
        let strf: [u8; 4] = [0x73, 0x74, 0x72, 0x66];
        assert(strh@ =~= tag_strh());
        assert(strf@ =~= tag_strf());
        loop
            invariant_except_break
                strl_walk(d, io.cursor() as int, strl_end as int, strl_of(l, self.streams@)) == target,
            invariant
                avi_io_ok(*io),
                io.contents() == d,
                d == old(io).contents(),
                io.cursor() <= strl_end + 0x2_0000_0000,
                strl_end <= 0x80_0000_0000_0000,
                l.stream_index <= io.cursor(),
                strh@ == tag_strh(),
                strf@ == tag_strf(),
                target == strl_walk(d, old(io).cursor() as int, strl_end as int,
                    strl_state(seq![0u8, 0, 0, 0], seq![0u8, 0, 0, 0], 1, 1, seq![], old(self).streams@, *old(stream_index))),
                Self::same_but_streams(*old(self), *self),
            ensures
                avi_io_ok(*io),
                io.contents() == d,
                io.cursor() <= strl_end + 0x2_0000_0000,
                l.stream_index <= io.cursor(),
                target == (strl_of(l, self.streams@), None::<ErrorKind>, io.cursor() as int),
                Self::same_but_streams(*old(self), *self),
            decreases strl_end + 1 - (if io.cursor() < strl_end { io.cursor() as int } else { strl_end as int + 1 }),
        {
            let pos = match io.position() {
                Ok(v) => v,
                Err(e) => {
                    return Err(e);
                },
            };
            if pos >= strl_end {
                break;
            }
            let ghost p = io.cursor() as int;
            let (sub_id, sub_size, sub_is_list) = match read_riff_chunk_header(io) {
                Ok(v) => v,
                Err(e) => {
                    *stream_index = l.stream_index;
                    return Err(e);
                },
            };
            let r = if sub_is_list {
                io.skip(sub_size as usize)
            } else if tag_is(&sub_id, &strh) {
                self.strh_chunk(io, sub_size, &mut l)
            } else if tag_is(&sub_id, &strf) {
                self.strf_chunk(io, sub_size, &mut l)
            } else {
                let r0 = io.skip(sub_size as usize);
                if sub_size % 2 != 0 {
                    let _ = io.skip(1);
                }
                r0
            };
            assert(strl_step(d, p, strl_of(l, self.streams@)) == strl_step(d, p, strl_of(l, self.streams@)));
            match r {
                Ok(()) => {},
                Err(e) => {
                    *stream_index = l.stream_index;
                    return Err(e);
                },
            }
        }
        *stream_index = l.stream_index;
        Ok(())
    }

    /// The first video stream of index `idx`.
    fn find_video(&self, idx: usize) -> (r: Option<usize>)
        ensures
            video_at(stream_views(self.streams@), idx, 0) == (match r {
                Some(i) => Some(i as int),
                None => None::<int>,
            }),
            r matches Some(i) ==> i < self.streams@.len(),
    {
        let mut i: usize = 0;
        while i < self.streams.len()
            invariant
                i <= self.streams@.len(),
                video_at(stream_views(self.streams@), idx, 0) == video_at(stream_views(self.streams@), idx, i as int),
            decreases self.streams.len() - i,
        {
            assert(stream_views(self.streams@)[i as int] == stream_view(self.streams@[i as int]));
            if self.streams[i].index == idx && self.streams[i].media_type == MediaType::Video {
                return Some(i);
            }
            i = i + 1;
        }
        None
    }
}

impl AviDemuxer {
    /// Walks the header list of `list_size` bytes at the cursor: checks the
    /// main header and reads each stream list; on success every stream's
    /// packet count starts at 0.
    fn parse_hdrl(&mut self, io: &mut IoContext, list_size: u32) -> (r: TaoResult<()>)
        requires
            avi_io_ok(*old(io)),
            old(io).cursor() <= 0x40_0000_0000_0000,
        ensures
            final(io).contents() == old(io).contents(),
            ({
                let w = hdrl_walk(old(io).contents(), old(io).cursor() as int, old(io).cursor() + list_size,
                    HdrlState { streams: stream_views(old(self).streams@), next_index: 0 });
                &&& stream_views(final(self).streams@) == w.0.streams
                &&& final(io).cursor() == w.2
                &&& result_is(r, w.1)
            }),
            final(io).cursor() <= old(io).cursor() + list_size + 0x4_0000_0000,
            final(self).movi_data_start == old(self).movi_data_start,
            final(self).movi_list_size == old(self).movi_list_size,
            final(self).idx1_entries == old(self).idx1_entries,
            final(self).idx_pos == old(self).idx_pos,
            final(self).metadata == old(self).metadata,
            r is Ok ==> final(self).frame_counts@ == Seq::new(final(self).streams@.len(), |i: int| 0i64),
            r is Err ==> final(self).frame_counts == old(self).frame_counts,
    {
        let ghost d = io.contents();
        let start = match io.position() {
            Ok(v) => v,
            Err(e) => {
                return Err(e);
            },
        };
        let end = start + list_size as u64;
        let ghost target = hdrl_walk(d, start as int, end as int, HdrlState { streams: stream_views(self.streams@), next_index: 0 });
        let mut stream_index: usize = 0;
        let avih: [u8; 4] = [0x61, 0x76, 0x69, 0x68];
        let strl: [u8; 4] = [0x73, 0x74, 0x72, 0x6C];
        assert(avih@ =~= tag_avih());
        assert(strl@ =~= tag_strl());
        loop
            invariant_except_break
                hdrl_walk(d, io.cursor() as int, end as int, HdrlState { streams: stream_views(self.streams@), next_index: stream_index }) == target,
            invariant
                avi_io_ok(*io),
                io.contents() == d,
                d == old(io).contents(),
                start == old(io).cursor(),
                end == start + list_size,
                end <= 0x40_0001_0000_0000,
                io.cursor() <= end + 0x4_0000_0000,
                stream_index <= io.cursor(),
                avih@ == tag_avih(),
                strl@ == tag_strl(),
                target == hdrl_walk(d, start as int, end as int, HdrlState { streams: stream_views(old(self).streams@), next_index: 0 }),
                Self::same_but_streams(*old(self), *self),
            ensures
                avi_io_ok(*io),
                io.contents() == d,
                io.cursor() <= end + 0x4_0000_0000,
                target == (HdrlState { streams: stream_views(self.streams@), next_index: stream_index }, None::<ErrorKind>, io.cursor() as int),
                Self::same_but_streams(*old(self), *self),
            decreases end + 1 - (if io.cursor() < end { io.cursor() as int } else { end as int + 1 }),
        {
            let pos = match io.position() {
                Ok(v) => v,
                Err(e) => {
                    return Err(e);
                },
            };
            if pos >= end {
                break;
            }
            let ghost p = io.cursor() as int;
            let (chunk_id, chunk_size, is_list) = read_riff_chunk_header(io)?;
            if !is_list && tag_is(&chunk_id, &avih) {
                if chunk_size < 56 {
                    return Err(invalid_data("avih chunk shorter than 56 bytes"));
                }
                let _main_header = io.read_bytes(56)?;
                if chunk_size > 56 {
                    io.skip((chunk_size - 56) as usize)?;
                }
            } else if is_list && tag_is(&chunk_id, &strl) {
                let here = match io.position() {
                    Ok(v) => v,
                    Err(e) => {
                        return Err(e);
                    },
                };
                let strl_end = here + chunk_size as u64;
                let ghost sst = strl_state(seq![0u8, 0, 0, 0], seq![0u8, 0, 0, 0], 1, 1, seq![], self.streams@, stream_index);
                proof {
                    lemma_strl_walk_cursor(d, here as int, strl_end as int, sst);
                }
                self.parse_strl(io, strl_end, &mut stream_index)?;
            } else {
                io.skip(chunk_size as usize)?;
            }
            if chunk_size % 2 != 0 && !is_list {
                io.skip(1)?;
            }
        }
        let n = self.streams.len();
        let mut counts: Vec<i64> = Vec::new();
        let mut k: usize = 0;
        while k < n
            invariant
                k <= n,
                counts@ =~= Seq::new(k as nat, |i: int| 0i64),
            decreases n - k,
        {
            counts.push(0);
            k = k + 1;
        }
        self.frame_counts = counts;
        Ok(())
    }
}

/// The `idx1` entry at `p`.
pub open spec fn idx_entry_at(d: Seq<u8>, p: int) -> Idx1Entry {
    Idx1Entry {
        chunk_id: [d[p], d[p + 1], d[p + 2], d[p + 3]],
        flags: u32_at(d, p + 4),
        offset: u32_at(d, p + 8),
        size: u32_at(d, p + 12),
    }
}

/// The `n` entries of an `idx1` body at `q` that the data holds whole.
pub open spec fn idx_entries(d: Seq<u8>, q: int, n: int) -> Seq<Idx1Entry> {
    let avail = if q >= d.len() { 0 } else { (d.len() - q) / 16 };
    let m = if n <= avail { n } else { avail };
    Seq::new(m as nat, |i: int| idx_entry_at(d, q + 16 * i))
}

/// What opening has gathered.
pub struct OpenState {
    /// The streams.
    pub streams: Seq<StreamView>,
    /// Packets read per stream.
    pub counts: Seq<i64>,
    /// Offset of the `movi` list header plus 4 (0: none seen).
    pub movi_start: int,
    /// Offset of the `movi` list data.
    pub movi_data: int,
    /// Size of the `movi` list.
    pub movi_size: int,
    /// The `idx1` index.
    pub index: Seq<Idx1Entry>,
}

/// `n` zeros.
pub open spec fn zeros(n: nat) -> Seq<i64> {
    Seq::new(n, |i: int| 0i64)
}

/// One top-level chunk at `p` while opening: `hdrl` lists are walked (and
/// reset the packet counts), the `movi` list is noted and passed over, an
/// `idx1` chunk after a `movi` list is read and ends the walk, other chunks
/// are skipped. The state after it, the error if any, the cursor, and
/// whether the walk ends.
pub open spec fn open_step(d: Seq<u8>, p: int, st: OpenState) -> (OpenState, Option<ErrorKind>, int, bool) {
    match chunk_hdr(d, p) {
        None => (st, None, eof_at(d, p), true),
        Some((id, size, list, q)) => {
            if list && id == tag_hdrl() {
                let w = hdrl_walk(d, q, q + size, HdrlState { streams: st.streams, next_index: 0 });
                match w.1 {
                    Some(e) => (OpenState { streams: w.0.streams, ..st }, Some(e), w.2, true),
                    None => (OpenState { streams: w.0.streams, counts: zeros(w.0.streams.len()), ..st }, None, w.2, false),
                }
            } else if list && id == tag_movi() {
                (OpenState { movi_start: q - 8, movi_data: q, movi_size: size as int, ..st }, None, q + size, false)
            } else if !list && id == tag_idx1() {
                if st.movi_start > 0 {
                    let n = size / 16;
                    let got = idx_entries(d, q, n as int);
                    let st2 = OpenState { index: st.index + got, ..st };
                    if n == 0 || q + 16 * n <= d.len() {
                        (st2, None, q + 16 * n, true)
                    } else {
                        (st2, Some(ErrorKind::Eof), eof_at(d, q), true)
                    }
                } else {
                    (st, None, q, true)
                }
            } else {
                (st, None, padded(q + size, if list { 0 } else { size }), false)
            }
        },
    }
}

/// Opening from `p`: top-level chunks one after the other until the data
/// ends, an `idx1` chunk, or an error.
pub open spec fn open_walk(d: Seq<u8>, p: int, st: OpenState) -> (OpenState, Option<ErrorKind>, int)
    decreases (if 0 <= p < d.len() + 1 { d.len() + 1 - p } else { 0 }),
{
    if p < 0 || p > d.len() {
        let r = open_step(d, p, st);
        (r.0, r.1, r.2)
    } else {
        let r = open_step(d, p, st);
        if r.3 || r.2 <= p {
            (r.0, r.1, r.2)
        } else {
            open_walk(d, r.2, r.0)
        }
    }
}

impl AviDemuxer {
    /// Reads the `idx1` entries of a chunk of `chunk_size` bytes at the
    /// cursor, appending them to the index.
    fn parse_idx1(&mut self, io: &mut IoContext, chunk_size: u32) -> (r: TaoResult<()>)
        requires
            avi_io_ok(*old(io)),
        ensures
            final(io).contents() == old(io).contents(),
            ({
                let d = old(io).contents();
                let q = old(io).cursor() as int;
                let n = (chunk_size / 16) as int;
                &&& final(self).idx1_entries@ == old(self).idx1_entries@ + idx_entries(d, q, n)
                &&& if n == 0 || q + 16 * n <= d.len() {
                    r is Ok && final(io).cursor() == q + 16 * n
                } else {
                    r is Err && r->Err_0 is Eof && final(io).cursor() == eof_at(d, q)
                }
            }),
            final(self).streams == old(self).streams,
            final(self).movi_data_start == old(self).movi_data_start,
            final(self).movi_list_size == old(self).movi_list_size,
            final(self).idx_pos == old(self).idx_pos,
            final(self).frame_counts == old(self).frame_counts,
            final(self).metadata == old(self).metadata,
    {
        let ghost d = io.contents();
        let ghost q = io.cursor() as int;
        let n = (chunk_size / 16) as usize;
        let mut k: usize = 0;
        while k < n
            invariant
                k <= n,
                n == chunk_size / 16,
                avi_io_ok(*io),
                io.contents() == d,
                d == old(io).contents(),
                q == old(io).cursor(),
                io.cursor() == q + 16 * k,
                q + 16 * k <= d.len() || k == 0,
                self.idx1_entries@ == old(self).idx1_entries@ + Seq::new(k as nat, |i: int| idx_entry_at(d, q + 16 * i)),
                self.streams == old(self).streams,
                self.movi_data_start == old(self).movi_data_start,
                self.movi_list_size == old(self).movi_list_size,
                self.idx_pos == old(self).idx_pos,
                self.frame_counts == old(self).frame_counts,
                self.metadata == old(self).metadata,
            decreases n - k,
        {
            let e = match io.read_bytes(16) {
                Ok(v) => v,
                Err(err) => {
                    proof {
                        assert(idx_entries(d, q, n as int) =~= Seq::new(k as nat, |i: int| idx_entry_at(d, q + 16 * i)));
                    }
                    return Err(err);
                },
            };
            proof {
                lemma_bytes_at_subrange(d, (q + 16 * k) as nat, 16);
            }
            let ghost before = self.idx1_entries@;
            self.idx1_entries.push(Idx1Entry {
                chunk_id: [e[0], e[1], e[2], e[3]],
                flags: u32_from_le(e[4], e[5], e[6], e[7]),
                offset: u32_from_le(e[8], e[9], e[10], e[11]),
                size: u32_from_le(e[12], e[13], e[14], e[15]),
            });
            proof {
                assert(self.idx1_entries@.last() == idx_entry_at(d, q + 16 * k));
                assert(self.idx1_entries@ =~= old(self).idx1_entries@ + Seq::new((k + 1) as nat, |i: int| idx_entry_at(d, q + 16 * i)));
            }
            k = k + 1;
        }
        proof {
            if n > 0 {
                assert(idx_entries(d, q, n as int) =~= Seq::new(n as nat, |i: int| idx_entry_at(d, q + 16 * i)));
            } else {
                assert(idx_entries(d, q, n as int) =~= Seq::<Idx1Entry>::empty());
                assert(self.idx1_entries@ =~= old(self).idx1_entries@ + idx_entries(d, q, n as int));
            }
        }
        Ok(())
    }
}

/// The `RIFF` form type of AVI files, `AVI `.
pub open spec fn avi_form() -> Seq<u8> {
    seq![0x41u8, 0x56, 0x49, 0x20]
}

impl AviDemuxer {
    /// The state opening starts from.
    pub closed spec fn open_start(&self) -> OpenState {
        OpenState {
            streams: stream_views(self.streams@),
            counts: self.frame_counts@,
            movi_start: 0,
            movi_data: 0,
            movi_size: 0,
            index: self.idx1_entries@,
        }
    }

    /// Whether the demuxer holds the state `st`, with the `movi` list
    /// noted as `movi_data` and `movi_size` when `set` holds.
    pub closed spec fn holds(&self, old_self: Self, st: OpenState, set: bool) -> bool {
        &&& stream_views(self.streams@) == st.streams
        &&& self.frame_counts@ == st.counts
        &&& self.idx1_entries@ == st.index
        &&& self.idx_pos == old_self.idx_pos
        &&& self.metadata == old_self.metadata
        &&& if set {
            self.movi_data_start == st.movi_data && self.movi_list_size == st.movi_size
        } else {
            self.movi_data_start == old_self.movi_data_start && self.movi_list_size == old_self.movi_list_size
        }
    }

    /// What `open` does: the file must start with `RIFF`, a size and
    /// `AVI ` (`InvalidData` otherwise, `Eof` when it is shorter); the
    /// top-level chunks are then walked (`open_walk`), and at least one
    /// stream must come out (`InvalidData`). The cursor is put at the
    /// `movi` data when there is no index.
    pub open spec fn open_post(old_self: Self, new_self: Self, old_io: IoContext, new_io: IoContext, r: TaoResult<()>) -> bool {
        let d = old_io.contents();
        let p = old_io.cursor() as int;
        &&& new_io.contents() == d
        &&& if p + 4 > d.len() {
            r is Err && r->Err_0 is Eof && new_self == old_self
        } else if d.subrange(p, p + 4) != riff_tag() {
            r is Err && r->Err_0 is InvalidData && new_self == old_self
        } else if p + 12 > d.len() {
            r is Err && r->Err_0 is Eof && new_self == old_self
        } else if d.subrange(p + 8, p + 12) != avi_form() {
            r is Err && r->Err_0 is InvalidData && new_self == old_self
        } else {
            let w = open_walk(d, p + 12, old_self.open_start());
            match w.1 {
                Some(e) => r is Err && r->Err_0.kind() == e && new_self.holds(old_self, w.0, false) && new_io.cursor() == w.2,
                None => if w.0.streams.len() == 0 {
                    r is Err && r->Err_0 is InvalidData && new_self.holds(old_self, w.0, false) && new_io.cursor() == w.2
                } else {
                    &&& r is Ok
                    &&& new_self.holds(old_self, w.0, true)
                    &&& new_io.cursor() == (if w.0.index.len() == 0 { w.0.movi_data } else { w.2 })
                },
            }
        }
    }

    /// The opening state from the demuxer and the `movi` values noted.
    pub closed spec fn open_state(&self, ms: u64, md: u64, mz: u64) -> OpenState {
        OpenState {
            streams: stream_views(self.streams@),
            counts: self.frame_counts@,
            movi_start: ms as int,
            movi_data: md as int,
            movi_size: mz as int,
            index: self.idx1_entries@,
        }
    }

    /// Takes one top-level chunk; `Ok(true)` when the walk ends.
    fn open_chunk(&mut self, io: &mut IoContext, movi_start: &mut u64, movi_data_start: &mut u64, movi_list_size: &mut u64) -> (r: TaoResult<bool>)
        requires
            avi_io_ok(*old(io)),
            old(io).cursor() <= old(io).contents().len() + 0x8_0000_0000,
            old(io).cursor() >= 12,
            *old(movi_start) <= 0x10_0000_0000_0000,
            *old(movi_data_start) <= 0x10_0000_0000_0000,
        ensures
            final(io).contents() == old(io).contents(),
            ({
                let st = open_step(old(io).contents(), old(io).cursor() as int, old(self).open_state(*old(movi_start), *old(movi_data_start), *old(movi_list_size)));
                &&& final(self).open_state(*final(movi_start), *final(movi_data_start), *final(movi_list_size)) == st.0
                &&& final(io).cursor() == st.2
                &&& match st.1 {
                    Some(e) => r is Err && r->Err_0.kind() == e,
                    None => r == Ok::<bool, TaoError>(st.3),
                }
            }),
            *final(movi_start) <= 0x10_0000_0000_0000,
            *final(movi_data_start) <= 0x10_0000_0000_0000,
            final(io).cursor() <= final(io).contents().len() + 0x8_0000_0000 || r != Ok::<bool, TaoError>(false),
            final(self).idx_pos == old(self).idx_pos,
            final(self).metadata == old(self).metadata,
            final(self).movi_data_start == old(self).movi_data_start,
            final(self).movi_list_size == old(self).movi_list_size,
    {
        let ghost d = io.contents();
        let ghost pc = io.cursor() as int;
        let hdrl: [u8; 4] = [0x68, 0x64, 0x72, 0x6C];
        let movi: [u8; 4] = [0x6D, 0x6F, 0x76, 0x69];
        let idx1: [u8; 4] = [0x69, 0x64, 0x78, 0x31];
        assert(hdrl@ =~= tag_hdrl());
        assert(movi@ =~= tag_movi());
        assert(idx1@ =~= tag_idx1());
        let (chunk_id, chunk_size, is_list) = match read_riff_chunk_header(io) {
            Ok(v) => v,
            Err(_) => {
                return Ok(true);
            },
        };
        if is_list && tag_is(&chunk_id, &hdrl) {
            self.parse_hdrl(io, chunk_size)?;
            Ok(false)
        } else if is_list && tag_is(&chunk_id, &movi) {
            let here = match io.position() {
                Ok(v) => v,
                Err(e) => {
                    return Err(e);
                },
            };
            *movi_start = here - 8;
            *movi_data_start = here;
            *movi_list_size = chunk_size as u64;
            let _ = io.seek(SeekFrom::Current(chunk_size as i64));
            Ok(false)
        } else if !is_list && tag_is(&chunk_id, &idx1) {
            if *movi_start > 0 {
                self.parse_idx1(io, chunk_size)?;
            }
            Ok(true)
        } else {
            io.skip(chunk_size as usize)?;
            if chunk_size % 2 != 0 && !is_list {
                io.skip(1)?;
            }
            Ok(false)
        }
    }

    /// Reads the RIFF header and the top-level chunks.
    fn open_avi(&mut self, io: &mut IoContext) -> (r: TaoResult<()>)
        requires
            io_in_range(*old(io)),
        ensures
            Self::open_post(*old(self), *final(self), *old(io), *final(io), r),
    {
        let ghost d = io.contents();
        let ghost p = io.cursor() as int;
        let riff = io.read_tag()?;
        proof {
            lemma_bytes_at_subrange(d, p as nat, 4);
        }
        let riff_t: [u8; 4] = [0x52, 0x49, 0x46, 0x46];
        assert(riff_t@ =~= riff_tag());
        if !tag_is(&riff, &riff_t) {
            return Err(invalid_data("not a RIFF file"));
        }
        let _file_size = io.read_u32_le()?;
        let form = io.read_tag()?;
        proof {
            lemma_bytes_at_subrange(d, (p + 8) as nat, 4);
        }
        let avi_t: [u8; 4] = [0x41, 0x56, 0x49, 0x20];
        assert(avi_t@ =~= avi_form());
        if !tag_is(&form, &avi_t) {
            return Err(invalid_data("not an AVI file"));
        }
        let ghost target = open_walk(d, p + 12, self.open_start());
        let mut movi_start: u64 = 0;
        let mut movi_data_start: u64 = 0;
        let mut movi_list_size: u64 = 0;
        assert(self.open_state(0, 0, 0) == self.open_start());
        loop
            invariant_except_break
                open_walk(d, io.cursor() as int, self.open_state(movi_start, movi_data_start, movi_list_size)) == target,
            invariant
                avi_io_ok(*io),
                io.contents() == d,
                d == old(io).contents(),
                io.cursor() <= d.len() + 0x8_0000_0000,
                io.cursor() >= 12,
                movi_start <= 0x10_0000_0000_0000,
                movi_data_start <= 0x10_0000_0000_0000,
                target == open_walk(d, p + 12, old(self).open_start()),
                p == old(io).cursor(),
                p + 12 <= d.len(),
                d.subrange(p, p + 4) == riff_tag(),
                d.subrange(p + 8, p + 12) == avi_form(),
                self.idx_pos == old(self).idx_pos,
                self.metadata == old(self).metadata,
                self.movi_data_start == old(self).movi_data_start,
                self.movi_list_size == old(self).movi_list_size,
            ensures
                avi_io_ok(*io),
                io.contents() == d,
                movi_data_start <= 0x10_0000_0000_0000,
                target == (self.open_state(movi_start, movi_data_start, movi_list_size), None::<ErrorKind>, io.cursor() as int),
                self.idx_pos == old(self).idx_pos,
                self.metadata == old(self).metadata,
                self.movi_data_start == old(self).movi_data_start,
                self.movi_list_size == old(self).movi_list_size,
            decreases d.len() + 1 - (if io.cursor() <= d.len() { io.cursor() as int } else { d.len() + 1int }),
        {
            let ghost pc = io.cursor() as int;
            let ghost stb = self.open_state(movi_start, movi_data_start, movi_list_size);
            proof {
                lemma_open_step_moves(d, pc, stb);
            }
            let done = match self.open_chunk(io, &mut movi_start, &mut movi_data_start, &mut movi_list_size) {
                Ok(b) => b,
                Err(e) => {
                    proof {
                        let st = open_step(d, pc, stb);
                        assert(target == (st.0, st.1, st.2));
                    }
                    return Err(e);
                },
            };
            if done {
                break;
            }
        }
        if self.streams.len() == 0 {
            return Err(invalid_data("no stream found in the AVI data"));
        }
        self.movi_data_start = movi_data_start;
        self.movi_list_size = movi_list_size;
        if self.idx1_entries.len() == 0 {
            let _ = io.seek(SeekFrom::Start(movi_data_start));
        }
        Ok(())
    }
}

/// A top-level chunk that does not end the walk moves the cursor forward.
pub proof fn lemma_open_step_moves(d: Seq<u8>, p: int, st: OpenState)
    requires
        0 <= p,
    ensures
        !open_step(d, p, st).3 ==> open_step(d, p, st).2 > p,
{
    match chunk_hdr(d, p) {
        None => {},
        Some((id, size, list, q)) => {
            if list && id == tag_hdrl() {
                lemma_hdrl_walk_cursor(d, q, q + size, HdrlState { streams: st.streams, next_index: 0 });
            }
        },
    }
}

/// Walking the header list never moves the cursor back.
pub proof fn lemma_hdrl_walk_cursor(d: Seq<u8>, p: int, end: int, st: HdrlState)
    requires
        0 <= p,
    ensures
        hdrl_walk(d, p, end, st).2 >= p,
    decreases (if p < end { end - p } else { 0 }),
{
    if p < end {
        match chunk_hdr(d, p) {
            None => {},
            Some((id, size, list, q)) => {
                if !list && id == tag_avih() {
                    if size >= 56 && q + 56 <= d.len() {
                        lemma_hdrl_walk_cursor(d, padded(q + size, size), end, st);
                    }
                } else if list && id == tag_strl() {
                    let r = strl_walk(d, q, q + size, strl_start(st));
                    lemma_strl_walk_cursor(d, q, q + size, strl_start(st));
                    if r.1 is None {
                        lemma_hdrl_walk_cursor(d, r.2, end, HdrlState { streams: r.0.streams, next_index: r.0.next_index });
                    }
                } else if list {
                    lemma_hdrl_walk_cursor(d, q + size, end, st);
                } else {
                    lemma_hdrl_walk_cursor(d, padded(q + size, size), end, st);
                }
            },
        }
    }
}

/// Whether `b` is an ASCII digit.
pub open spec fn is_digit(b: u8) -> bool {
    0x30 <= b && b <= 0x39
}

/// Stream number of an index entry's chunk id: its first two bytes read as
/// decimal digits, in 8-bit arithmetic that wraps.
pub open spec fn entry_stream(id: [u8; 4]) -> u8 {
    ((((id[0] + 208) % 256) * 10 + (id[1] + 208) % 256) % 256) as u8
}

/// `n`, but at most the last stream index.
pub open spec fn clamp_index(n: int, count: int) -> int {
    let last = if count > 0 { count - 1 } else { 0 };
    if n < last { n } else { last }
}

/// Scanning the `movi` data from `p` to `end` for the next data chunk: a
/// chunk whose id starts with two digits and ends in `dc`, `db` or `wb`.
/// Other chunks are skipped with their pad byte. The chunk found (offset,
/// id, size) or `None` when the list or the data ends, and where the cursor
/// ends.
pub open spec fn movi_scan(d: Seq<u8>, p: int, end: int) -> (Option<(int, Seq<u8>, u32)>, int)
    decreases (if p < end { end - p } else { 0 }),
{
    if p >= end || p < 0 {
        (None, p)
    } else if p + 8 > d.len() {
        (None, eof_at(d, p))
    } else {
        let id = d.subrange(p, p + 4);
        let size = u32_at(d, p + 4);
        let q = p + 8;
        let next = padded(q + size, size);
        let video = (id[2] == 0x64 && id[3] == 0x63) || (id[2] == 0x64 && id[3] == 0x62);
        let audio = id[2] == 0x77 && id[3] == 0x62;
        if !(is_digit(id[0]) && is_digit(id[1])) || !(video || audio) {
            movi_scan(d, next, end)
        } else if size > 0 && q + size > d.len() {
            (None, eof_at(d, q))
        } else {
            (Some((p, id, size)), next)
        }
    }
}

impl AviDemuxer {
    /// Whether a read can run: streams exist, one count per stream, and no
    /// count at its limit.
    /// Whether reading can go on (see `can_read`), computed.
    pub fn can_read_now(&self) -> (b: bool)
        ensures
            b == self.can_read(),
    {
        if self.streams.len() == 0 || self.frame_counts.len() != self.streams.len() {
            return false;
        }
        let mut i: usize = 0;
        while i < self.frame_counts.len()
            invariant
                i <= self.frame_counts@.len(),
                forall|k: int| 0 <= k < i ==> self.frame_counts@[k] < i64::MAX,
            decreases self.frame_counts@.len() - i,
        {
            if self.frame_counts[i] == i64::MAX {
                return false;
            }
            i = i + 1;
        }
        self.movi_data_start <= 0x10_0000_0000_0000 && self.movi_list_size <= u32::MAX as u64
            && self.idx1_entries.len() as u64 <= MAX_INPUT_LEN
    }

    pub open spec fn can_read(&self) -> bool {
        &&& self.stream_list().len() > 0
        &&& self.counts().len() == self.stream_list().len()
        &&& forall|i: int| 0 <= i < self.counts().len() ==> #[trigger] self.counts()[i] < i64::MAX
        &&& self.movi_start() <= 0x10_0000_0000_0000
        &&& self.movi_size() <= u32::MAX
        &&& self.index().len() <= MAX_INPUT_LEN
    }

    /// Whether `pk` is the packet of stream `si` at packet count `pts`
    /// with bytes `data`, position `pos` and keyframe flag `key`.
    pub open spec fn packet_is(&self, pk: Packet, si: int, pts: i64, data: Seq<u8>, pos: int, key: bool) -> bool {
        &&& pk.stream_index == si
        &&& pk.payload() == data
        &&& pk.pts == pts
        &&& pk.dts == pts
        &&& pk.duration == 1
        &&& pk.time_base == self.stream_list()[si].time_base
        &&& pk.is_keyframe == key
        &&& pk.pos == pos
    }

    /// What reading a packet does. With an index: the next entry's chunk
    /// is read at its offset from the `movi` data (`Eof` past the last
    /// entry or when the data ends); its stream is the number its id
    /// names, at most the last stream; it is a keyframe when flagged so or
    /// for audio. Without an index: the `movi` data is scanned from the
    /// cursor (`movi_scan`); each packet is a keyframe. The stream's count
    /// gives the timestamps and goes up by one.
    pub open spec fn read_post(old_self: Self, new_self: Self, old_io: IoContext, new_io: IoContext, r: TaoResult<Packet>) -> bool {
        let d = old_io.contents();
        let n = old_self.stream_list().len() as int;
        &&& new_io.contents() == d
        &&& new_self.stream_list() == old_self.stream_list()
        &&& new_self.index() == old_self.index()
        &&& new_self.movi_start() == old_self.movi_start()
        &&& new_self.movi_size() == old_self.movi_size()
        &&& if old_self.index().len() > 0 {
            if old_self.index_pos() >= old_self.index().len() {
                r is Err && r->Err_0 is Eof && new_self == old_self && new_io == old_io
            } else {
                let e = old_self.index()[old_self.index_pos() as int];
                let off = old_self.movi_start() + e.offset + 8;
                &&& new_self.index_pos() == old_self.index_pos() + 1
                &&& if !readable(d, off as nat, e.size as nat) {
                    r is Err && r->Err_0 is Eof && new_self.counts() == old_self.counts() && new_io.cursor() == eof_at(d, off)
                } else {
                    let si = clamp_index(entry_stream(e.chunk_id) as int, n);
                    let pts = old_self.counts()[si];
                    &&& new_io.cursor() == off + e.size
                    &&& new_self.counts() == old_self.counts().update(si, (pts + 1) as i64)
                    &&& r matches Ok(pk) && old_self.packet_is(pk, si, pts, bytes_at(d, off as nat, e.size as nat), off,
                        e.flags & 0x10 != 0 || old_self.stream_list()[si].media_type == MediaType::Audio)
                }
            }
        } else {
            let sc = movi_scan(d, old_io.cursor() as int, old_self.movi_start() + old_self.movi_size());
            &&& new_self.index_pos() == old_self.index_pos()
            &&& new_io.cursor() == sc.1
            &&& match sc.0 {
                None => r is Err && r->Err_0 is Eof && new_self.counts() == old_self.counts(),
                Some((p, id, size)) => {
                    let si = clamp_index((id[0] - 0x30) * 10 + (id[1] - 0x30), n);
                    let pts = old_self.counts()[si];
                    &&& new_self.counts() == old_self.counts().update(si, (pts + 1) as i64)
                    &&& r matches Ok(pk) && old_self.packet_is(pk, si, pts, bytes_at(d, (p + 8) as nat, size as nat), p, true)
                },
            }
        }
    }
}

impl AviDemuxer {
    /// Builds the packet of stream `si` with bytes `data`, counting it.
    fn emit(&mut self, data: Vec<u8>, si: usize, pos: i64, key: bool) -> (pk: Packet)
        requires
            si < old(self).streams@.len(),
            si < old(self).frame_counts@.len(),
            old(self).frame_counts@[si as int] < i64::MAX,
        ensures
            old(self).packet_is(pk, si as int, old(self).frame_counts@[si as int], data@, pos as int, key),
            final(self).frame_counts@ == old(self).frame_counts@.update(si as int, (old(self).frame_counts@[si as int] + 1) as i64),
            final(self).streams == old(self).streams,
            final(self).idx1_entries == old(self).idx1_entries,
            final(self).idx_pos == old(self).idx_pos,
            final(self).movi_data_start == old(self).movi_data_start,
            final(self).movi_list_size == old(self).movi_list_size,
            final(self).metadata == old(self).metadata,
    {
        let pts = self.frame_counts[si];
        self.frame_counts.set(si, pts + 1);
        let mut pkt = Packet::from_vec(data);
        pkt.stream_index = si;
        pkt.pts = pts;
        pkt.dts = pts;
        pkt.duration = 1;
        pkt.time_base = self.streams[si].time_base;
        pkt.is_keyframe = key;
        pkt.pos = pos;
        pkt
    }

    /// Reads the chunk of the next index entry.
    fn read_indexed(&mut self, io: &mut IoContext) -> (r: TaoResult<Packet>)
        requires
            io_in_range(*old(io)),
            old(self).can_read(),
            old(self).index().len() > 0,
        ensures
            Self::read_post(*old(self), *final(self), *old(io), *final(io), r),
    {
        if self.idx_pos >= self.idx1_entries.len() {
            return Err(TaoError::Eof);
        }
        let e = self.idx1_entries[self.idx_pos];
        self.idx_pos = self.idx_pos + 1;
        let off = self.movi_data_start + e.offset as u64 + 8;
        let _ = io.seek(SeekFrom::Start(off));
        let data = io.read_bytes(e.size as usize)?;
        let num = ((e.chunk_id[0] as u32 + 208) % 256 * 10 + (e.chunk_id[1] as u32 + 208) % 256) % 256;
        let last = self.streams.len() - 1;
        let si = if (num as usize) < last { num as usize } else { last };
        let key = (e.flags & 0x10) != 0 || self.streams[si].media_type == MediaType::Audio;
        assert(self.counts()[si as int] < i64::MAX);
        let pk = self.emit(data, si, off as i64, key);
        Ok(pk)
    }

    /// Scans the `movi` data from the cursor for the next data chunk.
    fn read_scanned(&mut self, io: &mut IoContext) -> (r: TaoResult<Packet>)
        requires
            io_in_range(*old(io)),
            old(self).can_read(),
            old(self).index().len() == 0,
        ensures
            Self::read_post(*old(self), *final(self), *old(io), *final(io), r),
    {
        let ghost d = io.contents();
        let end = self.movi_data_start + self.movi_list_size;
        let ghost target = movi_scan(d, io.cursor() as int, end as int);
        loop
            invariant
                avi_io_ok(*io),
                io.contents() == d,
                d == old(io).contents(),
                *self == *old(self),
                end == old(self).movi_start() + old(self).movi_size(),
                end <= 0x10_0001_0000_0000,
                io.cursor() <= 0x10_0003_0000_0000,
                old(self).can_read(),
                old(self).index().len() == 0,
                target == movi_scan(d, old(io).cursor() as int, end as int),
                movi_scan(d, io.cursor() as int, end as int) == target,
            decreases end + 1 - (if io.cursor() < end { io.cursor() as int } else { end as int + 1 }),
        {
            let pos = match io.position() {
                Ok(v) => v,
                Err(e) => {
                    return Err(e);
                },
            };
            if pos >= end {
                return Err(TaoError::Eof);
            }
            let chunk_id = match io.read_tag() {
                Ok(t) => t,
                Err(e) => {
                    assert(target == (None::<(int, Seq<u8>, u32)>, eof_at(d, pos as int)));
                    return Err(e);
                },
            };
            let chunk_size = match io.read_u32_le() {
                Ok(v) => v,
                Err(e) => {
                    assert(target == (None::<(int, Seq<u8>, u32)>, eof_at(d, pos as int)));
                    return Err(e);
                },
            };
            proof {
                lemma_bytes_at_subrange(d, pos as nat, 4);
            }
            let ghost id = d.subrange(pos as int, pos + 4);
            assert(chunk_id@ == id);
            let digits = 0x30 <= chunk_id[0] && chunk_id[0] <= 0x39 && 0x30 <= chunk_id[1] && chunk_id[1] <= 0x39;
            let is_video = (chunk_id[2] == 0x64 && chunk_id[3] == 0x63) || (chunk_id[2] == 0x64 && chunk_id[3] == 0x62);
            let is_audio = chunk_id[2] == 0x77 && chunk_id[3] == 0x62;
            if !digits || !(is_video || is_audio) {
                io.skip(chunk_size as usize)?;
                if chunk_size % 2 != 0 {
                    io.skip(1)?;
                }
                continue;
            }
            let ghost q = io.cursor() as int;
            let data = io.read_bytes(chunk_size as usize)?;
            if chunk_size % 2 != 0 {
                io.skip(1)?;
            }
            let num = ((chunk_id[0] - 0x30) as usize) * 10 + (chunk_id[1] - 0x30) as usize;
            let last = self.streams.len() - 1;
            let si = if num < last { num } else { last };
            assert(self.counts()[si as int] < i64::MAX);
            let pk = self.emit(data, si, pos as i64, true);
            return Ok(pk);
        }
    }

    /// Reads the next packet.
    fn read_avi_packet(&mut self, io: &mut IoContext) -> (r: TaoResult<Packet>)
        requires
            io_in_range(*old(io)),
            old(self).can_read(),
        ensures
            Self::read_post(*old(self), *final(self), *old(io), *final(io), r),
    {
        if self.idx1_entries.len() > 0 {
            self.read_indexed(io)
        } else {
            self.read_scanned(io)
        }
    }
}

/// Stream number of an index entry as seeking reads it: each of the first
/// two bytes less `'0'`, stopping at 0, in 8-bit arithmetic that wraps.
pub open spec fn seek_snum(id: [u8; 4]) -> u8 {
    ((((if id[0] >= 48 { id[0] - 48 } else { 0 }) * 10) + (if id[1] >= 48 { id[1] - 48 } else { 0 })) % 256) as u8
}

/// Position in the index of entry number `target` of stream `si`, looking
/// from `i` with `count` entries of that stream seen; 0 when there is none.
pub open spec fn seek_index_from(ix: Seq<Idx1Entry>, si: usize, target: int, i: int, count: int) -> int
    decreases ix.len() - i,
{
    if i < 0 || i >= ix.len() {
        0
    } else if seek_snum(ix[i].chunk_id) as usize == si {
        if count == target { i } else { seek_index_from(ix, si, target, i + 1, count + 1) }
    } else {
        seek_index_from(ix, si, target, i + 1, count)
    }
}

/// Number of the first `k` index entries that belong to stream `s`.
pub open spec fn count_before(ix: Seq<Idx1Entry>, s: int, k: int) -> int
    decreases k,
{
    if k <= 0 {
        0
    } else {
        count_before(ix, s, k - 1) + (if seek_snum(ix[k - 1].chunk_id) as int == s { 1int } else { 0int })
    }
}

/// Scanning the `movi` data for chunk number `target` of stream `si`:
/// headers are read one after the other, each chunk of a stream counted;
/// the offset of the chunk found, or `None` when the list or the data
/// ends, and the counts then.
pub open spec fn no_idx_scan(d: Seq<u8>, p: int, end: int, si: usize, target: i64, counts: Seq<i64>) -> (Option<int>, Seq<i64>)
    decreases (if p < end { end - p } else { 0 }),
{
    if p >= end || p < 0 || p + 8 > d.len() {
        (None, counts)
    } else {
        let id = d.subrange(p, p + 4);
        let size = u32_at(d, p + 4);
        let next = p + 8 + size + size % 2;
        if is_digit(id[0]) && is_digit(id[1]) {
            let sn = (id[0] - 0x30) * 10 + (id[1] - 0x30);
            if sn < counts.len() {
                if sn == si && counts[sn] >= target {
                    (Some(p), counts)
                } else {
                    no_idx_scan(d, next, end, si, target, counts.update(sn, (counts[sn] + 1) as i64))
                }
            } else {
                no_idx_scan(d, next, end, si, target, counts)
            }
        } else {
            no_idx_scan(d, next, end, si, target, counts)
        }
    }
}

impl AviDemuxer {
    /// What seeking does. With an index: the position becomes the entry of
    /// packet number `timestamp` (0 when below) of the stream, or 0 when the
    /// stream has fewer; the counts are the entries before it per stream;
    /// the cursor goes to that entry's chunk. Without an index: the `movi`
    /// data is scanned for that chunk (`no_idx_scan`); found, the cursor is
    /// put at its header; not found, the cursor goes back to the `movi` data,
    /// the counts to 0, and the result is `Eof`.
    pub open spec fn seek_post(old_self: Self, new_self: Self, old_io: IoContext, new_io: IoContext, stream_index: usize, timestamp: i64, r: TaoResult<()>) -> bool {
        let d = old_io.contents();
        let ix = old_self.index();
        let n = old_self.stream_list().len();
        let target: i64 = if timestamp < 0 { 0 } else { timestamp };
        &&& new_io.contents() == d
        &&& new_self.stream_list() == old_self.stream_list()
        &&& new_self.index() == ix
        &&& new_self.movi_start() == old_self.movi_start()
        &&& new_self.movi_size() == old_self.movi_size()
        &&& if ix.len() > 0 {
            let pos = seek_index_from(ix, stream_index, target as int, 0, 0);
            &&& r is Ok
            &&& new_self.index_pos() == pos
            &&& new_self.counts() == Seq::new(n, |s: int| count_before(ix, s, pos) as i64)
            &&& new_io.cursor() == (if pos < ix.len() { old_self.movi_start() + ix[pos].offset + 8 } else { old_io.cursor() as int })
        } else {
            let sc = no_idx_scan(d, old_self.movi_start() as int, old_self.movi_start() + old_self.movi_size(), stream_index, target, zeros(n));
            &&& new_self.index_pos() == old_self.index_pos()
            &&& match sc.0 {
                Some(p) => r is Ok && new_io.cursor() == p && new_self.counts() == sc.1,
                None => r is Err && r->Err_0 is Eof && new_io.cursor() == old_self.movi_start() && new_self.counts() == zeros(n),
            }
        }
    }

    /// `n` zero counts.
    fn zero_counts(n: usize) -> (r: Vec<i64>)
        ensures
            r@ == zeros(n as nat),
    {
        let mut v: Vec<i64> = Vec::new();
        let mut k: usize = 0;
        while k < n
            invariant
                k <= n,
                v@ =~= zeros(k as nat),
            decreases n - k,
        {
            v.push(0);
            k = k + 1;
        }
        v
    }

    /// Seeks through the index.
    fn seek_indexed(&mut self, io: &mut IoContext, stream_index: usize, timestamp: i64) -> (r: TaoResult<()>)
        requires
            io_in_range(*old(io)),
            old(self).can_read(),
            old(self).index().len() > 0,
        ensures
            Self::seek_post(*old(self), *final(self), *old(io), *final(io), stream_index, timestamp, r),
    {
        let target: usize = if timestamp < 0 { 0 } else { timestamp as usize };
        let ghost ix = self.idx1_entries@;
        let mut idx_pos: usize = 0;
        let mut count: usize = 0;
        let mut i: usize = 0;
        let mut done = false;
        while i < self.idx1_entries.len() && !done
            invariant
                ix == self.idx1_entries@,
                i <= ix.len(),
                count <= i,
                done ==> idx_pos == seek_index_from(ix, stream_index, target as int, 0, 0) && idx_pos < ix.len(),
                !done ==> idx_pos == 0 && seek_index_from(ix, stream_index, target as int, 0, 0) == seek_index_from(ix, stream_index, target as int, i as int, count as int),
            decreases ix.len() - i + (if done { 0int } else { 1int }),
        {
            let e = self.idx1_entries[i];
            let a: u8 = if e.chunk_id[0] >= 48 { e.chunk_id[0] - 48 } else { 0 };
            let b: u8 = if e.chunk_id[1] >= 48 { e.chunk_id[1] - 48 } else { 0 };
            let snum = ((a as u32) * 10 + b as u32) % 256;
            assert(snum == seek_snum(e.chunk_id));
            if snum as usize == stream_index {
                if count == target {
                    idx_pos = i;
                    done = true;
                } else {
                    count = count + 1;
                    i = i + 1;
                }
            } else {
                i = i + 1;
            }
        }
        self.idx_pos = idx_pos;
        let n = self.streams.len();
        let mut counts = Self::zero_counts(n);
        let mut j: usize = 0;
        while j < idx_pos
            invariant
                ix == self.idx1_entries@,
                idx_pos <= ix.len(),
                j <= idx_pos,
                counts@.len() == n,
                ix.len() <= MAX_INPUT_LEN,
                forall|s: int| 0 <= s < n ==> #[trigger] counts@[s] == count_before(ix, s, j as int) && count_before(ix, s, j as int) <= j,
            decreases idx_pos - j,
        {
            let e = self.idx1_entries[j];
            let a: u8 = if e.chunk_id[0] >= 48 { e.chunk_id[0] - 48 } else { 0 };
            let b: u8 = if e.chunk_id[1] >= 48 { e.chunk_id[1] - 48 } else { 0 };
            let snum = (((a as u32) * 10 + b as u32) % 256) as usize;
            assert(snum == seek_snum(e.chunk_id));
            let ghost before = counts@;
            if snum < counts.len() {
                let c = counts[snum];
                assert(c == count_before(ix, snum as int, j as int));
                counts.set(snum, c + 1);
            }
            j = j + 1;
            assert forall|s: int| 0 <= s < n implies #[trigger] counts@[s] == count_before(ix, s, j as int) && count_before(ix, s, j as int) <= j by {
                assert(count_before(ix, s, j as int) == count_before(ix, s, j - 1) + (if seek_snum(ix[j - 1].chunk_id) as int == s { 1int } else { 0int }));
                assert(before[s] == count_before(ix, s, j - 1));
            }
        }
        assert(counts@ =~= Seq::new(n as nat, |s: int| count_before(ix, s, idx_pos as int) as i64));
        self.frame_counts = counts;
        if idx_pos < self.idx1_entries.len() {
            let e = self.idx1_entries[idx_pos];
            let off = self.movi_data_start + e.offset as u64 + 8;
            let _ = io.seek(SeekFrom::Start(off));
        }
        Ok(())
    }

    /// Seeks by scanning the `movi` data when there is no index.
    fn seek_no_idx1(&mut self, io: &mut IoContext, stream_index: usize, timestamp: i64) -> (r: TaoResult<()>)
        requires
            io_in_range(*old(io)),
            old(self).can_read(),
            old(self).index().len() == 0,
        ensures
            Self::seek_post(*old(self), *final(self), *old(io), *final(io), stream_index, timestamp, r),
    {
        let ghost d = io.contents();
        let target_frame: i64 = if timestamp < 0 { 0 } else { timestamp };
        let _ = io.seek(SeekFrom::Start(self.movi_data_start));
        let n = self.streams.len();
        self.frame_counts = Self::zero_counts(n);
        let movi_end = self.movi_data_start + self.movi_list_size;
        let ghost goal = no_idx_scan(d, self.movi_data_start as int, movi_end as int, stream_index, target_frame, zeros(n as nat));
        loop
            invariant
                avi_io_ok(*io),
                io.contents() == d,
                d == old(io).contents(),
                io.cursor() <= movi_end + 0x2_0000_0000,
                movi_end == old(self).movi_start() + old(self).movi_size(),
                movi_end <= 0x10_0001_0000_0000,
                n == self.streams@.len(),
                self.frame_counts@.len() == n,
                forall|s: int| 0 <= s < n ==> #[trigger] self.frame_counts@[s] <= io.cursor(),
                self.streams == old(self).streams,
                self.idx1_entries == old(self).idx1_entries,
                self.idx_pos == old(self).idx_pos,
                self.movi_data_start == old(self).movi_data_start,
                self.movi_list_size == old(self).movi_list_size,
                self.metadata == old(self).metadata,
                old(self).index().len() == 0,
                target_frame == (if timestamp < 0 { 0i64 } else { timestamp }),
                goal == no_idx_scan(d, old(self).movi_start() as int, movi_end as int, stream_index, target_frame, zeros(n as nat)),
                no_idx_scan(d, io.cursor() as int, movi_end as int, stream_index, target_frame, self.frame_counts@) == goal,
            ensures
                avi_io_ok(*io),
                io.contents() == d,
                goal.0 is None,
                n == self.streams@.len(),
                self.streams == old(self).streams,
                self.idx1_entries == old(self).idx1_entries,
                self.idx_pos == old(self).idx_pos,
                self.movi_data_start == old(self).movi_data_start,
                self.movi_list_size == old(self).movi_list_size,
                self.metadata == old(self).metadata,
            decreases movi_end + 1 - (if io.cursor() < movi_end { io.cursor() as int } else { movi_end as int + 1 }),
        {
            let pos = match io.position() {
                Ok(v) => v,
                Err(e) => {
                    return Err(e);
                },
            };
            if pos >= movi_end {
                break;
            }
            let chunk_id = match io.read_tag() {
                Ok(t) => t,
                Err(_) => {
                    break;
                },
            };
            let chunk_size = match io.read_u32_le() {
                Ok(v) => v,
                Err(_) => {
                    break;
                },
            };
            proof {
                lemma_bytes_at_subrange(d, pos as nat, 4);
            }
            assert(chunk_id@ == d.subrange(pos as int, pos + 4));
            if 0x30 <= chunk_id[0] && chunk_id[0] <= 0x39 && 0x30 <= chunk_id[1] && chunk_id[1] <= 0x39 {
                let snum = ((chunk_id[0] - 0x30) as usize) * 10 + (chunk_id[1] - 0x30) as usize;
                if snum < n {
                    if snum == stream_index && self.frame_counts[snum] >= target_frame {
                        assert(goal == (Some(pos as int), self.frame_counts@));
                        let _ = io.seek(SeekFrom::Start(pos));
                        return Ok(());
                    }
                    let c = self.frame_counts[snum];
                    self.frame_counts.set(snum, c + 1);
                }
            }
            let skip = chunk_size as i64 + (chunk_size % 2) as i64;
            let _ = io.seek(SeekFrom::Current(skip));
        }
        let _ = io.seek(SeekFrom::Start(self.movi_data_start));
        self.frame_counts = Self::zero_counts(n);
        Err(TaoError::Eof)
    }
}

impl AviDemuxer {
    /// A boxed demuxer, for a registry.
    pub fn create() -> (r: TaoResult<Box<dyn Demuxer>>)
        ensures
            r matches Ok(d) && d.format_kind() == FormatId::Avi && d.stream_seq().len() == 0,
    {
        Ok(Box::new(AviDemuxer::new()))
    }
}

impl Demuxer for AviDemuxer {
    open spec fn open_admits(&self, io: IoContext) -> bool {
        true
    }

    fn open_admitted(&self, io: &IoContext) -> (b: bool)
        ensures
            b == self.open_admits(*io),
    {
        true
    }

    open spec fn format_kind(&self) -> FormatId {
        FormatId::Avi
    }

    open spec fn stream_seq(&self) -> Seq<Stream> {
        self.stream_list()
    }

    open spec fn seek_admits(&self, stream_index: usize, timestamp: i64) -> bool {
        self.can_read()
    }

    open spec fn read_admits(&self) -> bool {
        self.can_read()
    }

    fn read_admitted(&self) -> (b: bool)
        ensures
            b == self.read_admits(),
    {
        self.can_read_now()
    }

    fn seek_admitted(&self, stream_index: usize, timestamp: i64) -> (b: bool)
        ensures
            b == self.seek_admits(stream_index, timestamp),
    {
        self.can_read_now()
    }


    fn format_id(&self) -> (r: FormatId)
        ensures
            r == FormatId::Avi,
    {
        FormatId::Avi
    }

    fn name(&self) -> (r: &'static str)
        ensures
            r@ == "avi"@,
    {
        "avi"
    }

    fn open(&mut self, io: &mut IoContext) -> (r: TaoResult<()>)
        ensures
            Self::open_post(*old(self), *final(self), *old(io), *final(io), r),
    {
        self.open_avi(io)
    }

    fn streams(&self) -> (r: &[Stream])
        ensures
            r@ == self.stream_list(),
    {
        self.streams.as_slice()
    }

    fn read_packet(&mut self, io: &mut IoContext) -> (r: TaoResult<Packet>)
        ensures
            Self::read_post(*old(self), *final(self), *old(io), *final(io), r),
    {
        self.read_avi_packet(io)
    }

    fn seek(&mut self, io: &mut IoContext, stream_index: usize, timestamp: i64, flags: SeekFlags) -> (r: TaoResult<()>)
        ensures
            Self::seek_post(*old(self), *final(self), *old(io), *final(io), stream_index, timestamp, r),
    {
        if !io.is_seekable() {
            return Err(unsupported("seek needs a seekable input"));
        }
        if self.idx1_entries.len() == 0 {
            self.seek_no_idx1(io, stream_index, timestamp)
        } else {
            self.seek_indexed(io, stream_index, timestamp)
        }
    }

    fn metadata(&self) -> (r: &[(String, String)])
        ensures
            r@ == self.meta(),
    {
        self.metadata.as_slice()
    }
}

} // verus!
