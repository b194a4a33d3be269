//! AVI writer: the RIFF header with an `hdrl` list (main header and one
//! stream list per stream), data chunks in a `movi` list, and an `idx1`
//! index; the trailer patches the RIFF and `movi` sizes.

use vstd::prelude::*;
use crate::error::{ErrorKind, TaoError, TaoResult, invalid_argument, unsupported};
use crate::format_id::FormatId;
use crate::io::{IoContext, SeekFrom, written};
use crate::endian::{le16_bytes, le32_bytes, push_all, push_le16, push_le32, push_tag};
use crate::media::{AudioStreamParams, CodecId, MediaType, Packet, Stream, StreamParams, VideoStreamParams};
use crate::muxer::{Muxer, out_in_range};
use crate::packet_data::bytes_as_slice;
use crate::demuxers::avi::Idx1Entry;

verus! {

/// The four bytes of a tag written as text.
pub open spec fn fcc(a: u8, b: u8, c: u8, d: u8) -> Seq<u8> {
    seq![a, b, c, d]
}

/// `n` zero bytes.
pub open spec fn zero_bytes(n: nat) -> Seq<u8> {
    Seq::new(n, |i: int| 0u8)
}

/// Handler FourCC of a video codec AVI can carry.
pub open spec fn avi_handler(c: CodecId) -> Option<Seq<u8>> {
    match c {
        CodecId::H264 => Some(fcc(0x48, 0x32, 0x36, 0x34)),
        CodecId::H265 => Some(fcc(0x48, 0x32, 0x36, 0x35)),
        CodecId::Mpeg4 => Some(fcc(0x4D, 0x50, 0x34, 0x56)),
        CodecId::Mjpeg => Some(fcc(0x4D, 0x4A, 0x50, 0x47)),
        CodecId::RawVideo => Some(fcc(0x20, 0x20, 0x20, 0x20)),
        _ => None,
    }
}

/// WAVE format tag and sample size of an audio codec AVI can carry.
pub open spec fn avi_wav_format(c: CodecId) -> Option<(u16, u16)> {
    match c {
        CodecId::PcmU8 => Some((1u16, 8u16)),
        CodecId::PcmS16le => Some((1u16, 16u16)),
        CodecId::PcmS24le => Some((1u16, 24u16)),
        CodecId::PcmS32le => Some((1u16, 32u16)),
        CodecId::PcmF32le => Some((3u16, 32u16)),
        _ => None,
    }
}

/// `biCompression` of a video codec.
pub open spec fn avi_compression(c: CodecId) -> u32 {
    match c {
        CodecId::H264 => 0x34363248,
        CodecId::H265 => 0x43564548,
        CodecId::Mpeg4 => 0x34564D50,
        CodecId::Mjpeg => 0x47504A4D,
        _ => 0,
    }
}

/// The fields of a `strh` after the type and handler: zero flags,
/// priority, language and initial frames, the scale and rate, then six
/// zero fields.
pub open spec fn strh_tail(scale: u32, rate: u32) -> Seq<u8> {
    zero_bytes(12) + le32_bytes(scale) + le32_bytes(rate) + zero_bytes(24)
}

/// The `(scale, rate)` a stream's header gets: one over the frame rate's
/// numerator for video, over the sample rate for audio.
pub open spec fn avi_rates(s: Stream) -> (u32, u32) {
    match s.media_type {
        MediaType::Video => match s.params {
            StreamParams::Video(v) => (1u32, v.frame_rate.num as u32),
            _ => (1u32, 25u32),
        },
        MediaType::Audio => match s.params {
            StreamParams::Audio(a) => (1u32, a.sample_rate),
            _ => (1u32, 44100u32),
        },
        _ => (1u32, 25u32),
    }
}

/// The `strh` chunk of a stream as written, and the error that stops it:
/// an unsupported video codec after the type, another media type after the
/// size.
pub open spec fn strh_part(s: Stream) -> (Seq<u8>, Option<ErrorKind>) {
    let head = fcc(0x73, 0x74, 0x72, 0x68) + le32_bytes(48);
    let (scale, rate) = avi_rates(s);
    match s.media_type {
        MediaType::Video => match avi_handler(s.codec_id) {
            None => (head + fcc(0x76, 0x69, 0x64, 0x73), Some(ErrorKind::Unsupported)),
            Some(h) => (head + fcc(0x76, 0x69, 0x64, 0x73) + h + strh_tail(scale, rate), None),
        },
        MediaType::Audio => (head + fcc(0x61, 0x75, 0x64, 0x73) + fcc(0x20, 0x20, 0x20, 0x20) + strh_tail(scale, rate), None),
        _ => (head, Some(ErrorKind::Unsupported)),
    }
}

/// A `BITMAPINFOHEADER` `strf` chunk.
pub open spec fn strf_video_bytes(v: VideoStreamParams, c: CodecId) -> Seq<u8> {
    fcc(0x73, 0x74, 0x72, 0x66) + le32_bytes(40) + le32_bytes(40) + le32_bytes(v.width) + le32_bytes(v.height)
        + le16_bytes(1) + le16_bytes(24) + le32_bytes(avi_compression(c)) + zero_bytes(16)
}

/// Channel count, block alignment and byte rate of an audio stream.
pub open spec fn wav_block(a: AudioStreamParams, bits: u16) -> (u16, u16, u32) {
    let ch = a.channel_layout.channels as u16;
    let align = (ch * (bits / 8)) as u16;
    (ch, align, (a.sample_rate * align) as u32)
}

/// A `WAVEFORMATEX` `strf` chunk.
pub open spec fn strf_audio_bytes(a: AudioStreamParams, tag: u16, bits: u16) -> Seq<u8> {
    let (ch, align, rate) = wav_block(a, bits);
    fcc(0x73, 0x74, 0x72, 0x66) + le32_bytes(18) + le16_bytes(tag) + le16_bytes(ch) + le32_bytes(a.sample_rate)
        + le32_bytes(rate) + le16_bytes(align) + le16_bytes(bits) + le16_bytes(0)
}

/// The `strf` chunk of a stream, and the error that stops it before a
/// byte is written: parameters of the wrong kind, or an audio codec AVI
/// does not carry.
pub open spec fn strf_part(s: Stream) -> (Seq<u8>, Option<ErrorKind>) {
    match s.media_type {
        MediaType::Video => match s.params {
            StreamParams::Video(v) => (strf_video_bytes(v, s.codec_id), None),
            _ => (seq![], Some(ErrorKind::InvalidArgument)),
        },
        MediaType::Audio => match s.params {
            StreamParams::Audio(a) => match avi_wav_format(s.codec_id) {
                Some((t, b)) => (strf_audio_bytes(a, t, b), None),
                None => (seq![], Some(ErrorKind::Unsupported)),
            },
            _ => (seq![], Some(ErrorKind::InvalidArgument)),
        },
        _ => (seq![], None),
    }
}

/// The `strl` list of a stream as written: its size is patched in when
/// both chunks are written, and stays 0 when one stops with an error.
pub open spec fn strl_part(s: Stream) -> (Seq<u8>, Option<ErrorKind>) {
    let h = strh_part(s);
    let f = strf_part(s);
    let strl = fcc(0x73, 0x74, 0x72, 0x6C);
    let list = fcc(0x4C, 0x49, 0x53, 0x54);
    if h.1 is Some {
        (list + le32_bytes(0) + strl + h.0, h.1)
    } else if f.1 is Some {
        (list + le32_bytes(0) + strl + h.0 + f.0, f.1)
    } else {
        (list + le32_bytes((4 + h.0.len() + f.0.len()) as u32) + strl + h.0 + f.0, None)
    }
}

/// The stream lists of `streams[..k]`, up to the first error.
pub open spec fn strl_parts(streams: Seq<Stream>, k: int) -> (Seq<u8>, Option<ErrorKind>)
    decreases k,
{
    if k <= 0 {
        (seq![], None)
    } else {
        let before = strl_parts(streams, k - 1);
        if before.1 is Some {
            before
        } else {
            let p = strl_part(streams[k - 1]);
            (before.0 + p.0, p.1)
        }
    }
}

/// The main header: 56 declared bytes, then the frame period 33367, the
/// flag 0x10, the stream count, and zeros: 60 bytes written.
pub open spec fn avih_bytes(n: u32) -> Seq<u8> {
    fcc(0x61, 0x76, 0x69, 0x68) + le32_bytes(56) + le32_bytes(33367) + zero_bytes(8) + le32_bytes(0x10)
        + zero_bytes(8) + le32_bytes(n) + zero_bytes(32)
}

/// The header written for `streams`, and the error that stops it: the RIFF
/// and `AVI ` tags, the `hdrl` list (its size patched in when every stream
/// list is written) and the opening of the `movi` list.
pub open spec fn avi_header_bytes(streams: Seq<Stream>) -> (Seq<u8>, Option<ErrorKind>) {
    let riff = fcc(0x52, 0x49, 0x46, 0x46) + le32_bytes(0) + fcc(0x41, 0x56, 0x49, 0x20);
    let list = fcc(0x4C, 0x49, 0x53, 0x54);
    let hdrl = fcc(0x68, 0x64, 0x72, 0x6C);
    let avih = avih_bytes((streams.len() % 0x1_0000_0000) as u32);
    let body = strl_parts(streams, streams.len() as int);
    if body.1 is Some {
        (riff + list + le32_bytes(0) + hdrl + avih + body.0, body.1)
    } else {
        (riff + list + le32_bytes(((4 + avih.len() + body.0.len()) % 0x1_0000_0000) as u32) + hdrl + avih + body.0
            + list + le32_bytes(0) + fcc(0x6D, 0x6F, 0x76, 0x69), None)
    }
}

/// The kind of an optional error.
pub open spec fn kind_of(e: Option<TaoError>) -> Option<ErrorKind> {
    match e {
        Some(x) => Some(x.kind()),
        None => None,
    }
}

/// Appends `n` zero bytes.
fn push_zeros(buf: &mut Vec<u8>, n: usize)
    ensures
        final(buf)@ == old(buf)@ + zero_bytes(n as nat),
{
    let mut k: usize = 0;
    while k < n
        invariant
            k <= n,
            buf@ == old(buf)@ + zero_bytes(k as nat),
        decreases n - k,
    {
        buf.push(0);
        k = k + 1;
        assert(buf@ =~= old(buf)@ + zero_bytes(k as nat));
    }
}

/// Whether an audio stream's block alignment and byte rate fit their
/// fields.
pub open spec fn audio_fits(s: Stream) -> bool {
    s.media_type == MediaType::Audio && s.params is Audio && avi_wav_format(s.codec_id) is Some ==> {
        let a = s.params->Audio_0;
        let bits = avi_wav_format(s.codec_id)->Some_0.1;
        let ch = a.channel_layout.channels as u16;
        &&& ch * (bits / 8) <= u16::MAX
        &&& a.sample_rate * (ch * (bits / 8)) <= u32::MAX
    }
}

/// The `strh` chunk of a stream, and the error that stops it.
fn strh_bytes(s: &Stream) -> (r: (Vec<u8>, Option<TaoError>))
    ensures
        r.0@ == strh_part(*s).0,
        kind_of(r.1) == strh_part(*s).1,
{
    let mut b: Vec<u8> = Vec::new();
    push_tag(&mut b, &[0x73, 0x74, 0x72, 0x68]);
    push_le32(&mut b, 48);
    let (scale, rate): (u32, u32) = match s.media_type {
        MediaType::Video => match &s.params {
            StreamParams::Video(v) => (1, v.frame_rate.num as u32),
            _ => (1, 25),
        },
        MediaType::Audio => match &s.params {
            StreamParams::Audio(a) => (1, a.sample_rate),
            _ => (1, 44100),
        },
        _ => (1, 25),
    };
    match s.media_type {
        MediaType::Video => {
            push_tag(&mut b, &[0x76, 0x69, 0x64, 0x73]);
            let handler: [u8; 4] = match s.codec_id {
                CodecId::H264 => [0x48, 0x32, 0x36, 0x34],
                CodecId::H265 => [0x48, 0x32, 0x36, 0x35],
                CodecId::Mpeg4 => [0x4D, 0x50, 0x34, 0x56],
                CodecId::Mjpeg => [0x4D, 0x4A, 0x50, 0x47],
                CodecId::RawVideo => [0x20, 0x20, 0x20, 0x20],
                _ => {
                    return (b, Some(unsupported("video codec not carried in AVI")));
                },
            };
            push_tag(&mut b, &handler);
        },
        MediaType::Audio => {
            push_tag(&mut b, &[0x61, 0x75, 0x64, 0x73]);
            push_tag(&mut b, &[0x20, 0x20, 0x20, 0x20]);
        },
        _ => {
            return (b, Some(unsupported("media type not carried in AVI")));
        },
    }
    push_zeros(&mut b, 12);
    push_le32(&mut b, scale);
    push_le32(&mut b, rate);
    push_zeros(&mut b, 24);
    (b, None)
}

/// The `strf` chunk of a stream, and the error that stops it.
fn strf_bytes(s: &Stream) -> (r: (Vec<u8>, Option<TaoError>))
    requires
        audio_fits(*s),
    ensures
        r.0@ == strf_part(*s).0,
        kind_of(r.1) == strf_part(*s).1,
{
    let mut b: Vec<u8> = Vec::new();
    match s.media_type {
        MediaType::Video => {
            let v = match &s.params {
                StreamParams::Video(v) => v,
                _ => {
                    return (b, Some(invalid_argument("expected video parameters")));
                },
            };
            let bi: u32 = match s.codec_id {
                CodecId::H264 => 0x34363248,
                CodecId::H265 => 0x43564548,
                CodecId::Mpeg4 => 0x34564D50,
                CodecId::Mjpeg => 0x47504A4D,
                _ => 0,
            };
            push_tag(&mut b, &[0x73, 0x74, 0x72, 0x66]);
            push_le32(&mut b, 40);
            push_le32(&mut b, 40);
            push_le32(&mut b, v.width);
            push_le32(&mut b, v.height);
            push_le16(&mut b, 1);
            push_le16(&mut b, 24);
            push_le32(&mut b, bi);
            push_zeros(&mut b, 16);
        },
        MediaType::Audio => {
            let a = match &s.params {
                StreamParams::Audio(a) => a,
                _ => {
                    return (b, Some(invalid_argument("expected audio parameters")));
                },
            };
            let (format_tag, bits): (u16, u16) = match s.codec_id {
                CodecId::PcmU8 => (1, 8),
                CodecId::PcmS16le => (1, 16),
                CodecId::PcmS24le => (1, 24),
                CodecId::PcmS32le => (1, 32),
                CodecId::PcmF32le => (3, 32),
                _ => {
                    return (b, Some(unsupported("audio codec not carried in AVI")));
                },
            };
            let channels = a.channel_layout.channels as u16;
            let block_align = channels * (bits / 8);
            let byte_rate = a.sample_rate * block_align as u32;
            push_tag(&mut b, &[0x73, 0x74, 0x72, 0x66]);
            push_le32(&mut b, 18);
            push_le16(&mut b, format_tag);
            push_le16(&mut b, channels);
            push_le32(&mut b, a.sample_rate);
            push_le32(&mut b, byte_rate);
            push_le16(&mut b, block_align);
            push_le16(&mut b, bits);
            push_le16(&mut b, 0);
        },
        _ => {},
    }
    (b, None)
}

/// The `strl` list of a stream, and the error that stops it.
fn strl_bytes(s: &Stream) -> (r: (Vec<u8>, Option<TaoError>))
    requires
        audio_fits(*s),
    ensures
        r.0@ == strl_part(*s).0,
        kind_of(r.1) == strl_part(*s).1,
{
    let (h, he) = strh_bytes(s);
    let mut b: Vec<u8> = Vec::new();
    push_tag(&mut b, &[0x4C, 0x49, 0x53, 0x54]);
    if he.is_some() {
        push_le32(&mut b, 0);
        push_tag(&mut b, &[0x73, 0x74, 0x72, 0x6C]);
        push_all(&mut b, h.as_slice());
        return (b, he);
    }
    let (f, fe) = strf_bytes(s);
    if fe.is_some() {
        push_le32(&mut b, 0);
        push_tag(&mut b, &[0x73, 0x74, 0x72, 0x6C]);
        push_all(&mut b, h.as_slice());
        push_all(&mut b, f.as_slice());
        return (b, fe);
    }
    assert(h@.len() == 60);
    assert(f@.len() <= 48);
    push_le32(&mut b, (4 + h.len() + f.len()) as u32);
    push_tag(&mut b, &[0x73, 0x74, 0x72, 0x6C]);
    push_all(&mut b, h.as_slice());
    push_all(&mut b, f.as_slice());
    (b, None)
}

/// The stream lists of `streams`, up to the first error.
fn strl_lists(streams: &[Stream]) -> (r: (Vec<u8>, Option<TaoError>))
    requires
        forall|i: int| 0 <= i < streams@.len() ==> audio_fits(#[trigger] streams@[i]),
    ensures
        r.0@ == strl_parts(streams@, streams@.len() as int).0,
        kind_of(r.1) == strl_parts(streams@, streams@.len() as int).1,
{
    let mut body: Vec<u8> = Vec::new();
    let mut err: Option<TaoError> = None;
    let mut k: usize = 0;
    while k < streams.len()
        invariant_except_break
            err is None,
            body@ == strl_parts(streams@, k as int).0,
            strl_parts(streams@, k as int).1 is None,
        invariant
            k <= streams@.len(),
            forall|i: int| 0 <= i < streams@.len() ==> audio_fits(#[trigger] streams@[i]),
        ensures
            body@ == strl_parts(streams@, streams@.len() as int).0,
            kind_of(err) == strl_parts(streams@, streams@.len() as int).1,
        decreases streams.len() - k,
    {
        let (piece, e) = strl_bytes(&streams[k]);
        push_all(&mut body, piece.as_slice());
        assert(strl_parts(streams@, k + 1) == (strl_parts(streams@, k as int).0 + piece@, kind_of(e)));
        if e.is_some() {
            proof {
                lemma_strl_parts_stop(streams@, k + 1);
            }
            err = e;
            break;
        }
        k = k + 1;
    }
    (body, err)
}

/// The header written for `streams`, and the error that stops it.
fn header_bytes(streams: &[Stream]) -> (r: (Vec<u8>, Option<TaoError>))
    requires
        forall|i: int| 0 <= i < streams@.len() ==> audio_fits(#[trigger] streams@[i]),
    ensures
        r.0@ == avi_header_bytes(streams@).0,
        kind_of(r.1) == avi_header_bytes(streams@).1,
{
    let (body, err) = strl_lists(streams);
    let mut b: Vec<u8> = Vec::new();
    push_tag(&mut b, &[0x52, 0x49, 0x46, 0x46]);
    push_le32(&mut b, 0);
    push_tag(&mut b, &[0x41, 0x56, 0x49, 0x20]);
    push_tag(&mut b, &[0x4C, 0x49, 0x53, 0x54]);
    let n = (streams.len() as u64 % 0x1_0000_0000) as u32;
    if err.is_some() {
        push_le32(&mut b, 0);
    } else {
        let size = ((72 + body.len() as u128) % 0x1_0000_0000) as u32;
        push_le32(&mut b, size);
    }
    push_tag(&mut b, &[0x68, 0x64, 0x72, 0x6C]);
    push_tag(&mut b, &[0x61, 0x76, 0x69, 0x68]);
    push_le32(&mut b, 56);
    push_le32(&mut b, 33367);
    push_zeros(&mut b, 8);
    push_le32(&mut b, 0x10);
    push_zeros(&mut b, 8);
    push_le32(&mut b, n);
    push_zeros(&mut b, 32);
    push_all(&mut b, body.as_slice());
    if err.is_none() {
        push_tag(&mut b, &[0x4C, 0x49, 0x53, 0x54]);
        push_le32(&mut b, 0);
        push_tag(&mut b, &[0x6D, 0x6F, 0x76, 0x69]);
    }
    assert(b@ =~= avi_header_bytes(streams@).0);
    (b, err)
}

/// Once a stream list stops with an error, the lists after it add nothing.
proof fn lemma_strl_parts_stop(streams: Seq<Stream>, k: int)
    requires
        0 <= k <= streams.len(),
        strl_parts(streams, k).1 is Some,
    ensures
        strl_parts(streams, streams.len() as int) == strl_parts(streams, k),
    decreases streams.len() - k,
{
    if k < streams.len() {
        lemma_strl_parts_stop(streams, k + 1);
    }
}

/// How many bytes the stream lists of `streams[..k]` take at most.
proof fn lemma_strl_parts_len(streams: Seq<Stream>, k: int)
    requires
        0 <= k <= streams.len(),
    ensures
        strl_parts(streams, k).0.len() <= 124 * k,
    decreases k,
{
    if k > 0 {
        lemma_strl_parts_len(streams, k - 1);
        lemma_strl_part_len(streams[k - 1]);
    }
}

/// A stream list takes at most 124 bytes.
proof fn lemma_strl_part_len(s: Stream)
    ensures
        strl_part(s).0.len() <= 124,
{
    let h = strh_part(s);
    let f = strf_part(s);
    assert(h.0.len() <= 60);
    assert(f.0.len() <= 48);
}

/// Whether `write_header` accepts `streams`: every audio stream's block
/// alignment and byte rate fit their fields, and the stream count fits the
/// machine's memory.
pub open spec fn avi_header_fits(streams: Seq<Stream>) -> bool {
    &&& forall|i: int| 0 <= i < streams.len() ==> audio_fits(#[trigger] streams[i])
    &&& streams.len() <= 0x1_0000_0000
}

/// The media types of `streams`, in order.
pub open spec fn media_types_of(streams: Seq<Stream>) -> Seq<MediaType> {
    streams.map_values(|s: Stream| s.media_type)
}

/// The stream a packet is written to: its index, or the last stream when
/// the index is past the end.
pub open spec fn avi_slot(n: nat, index: nat) -> nat {
    if n == 0 {
        0
    } else if index < n - 1 {
        index
    } else {
        (n - 1) as nat
    }
}

/// The id of a data chunk of stream `si`: two decimal digits, then `dc`
/// for video or `wb` for audio.
pub open spec fn avi_chunk_id(si: nat, video: bool) -> Seq<u8> {
    seq![
        (0x30 + si / 10) as u8,
        (0x30 + si % 10) as u8,
        if video { 0x64u8 } else { 0x77u8 },
        if video { 0x63u8 } else { 0x62u8 },
    ]
}

/// The data chunk of a payload: id, size, the bytes, and a pad byte when
/// the size is odd.
pub open spec fn avi_data_chunk(id: Seq<u8>, payload: Seq<u8>) -> Seq<u8> {
    let size = (payload.len() % 0x1_0000_0000) as u32;
    id + le32_bytes(size) + payload + (if size % 2 == 1 { seq![0u8] } else { seq![] })
}

/// One `idx1` entry as written: id, flags, offset, size.
pub open spec fn idx1_entry_bytes(e: Idx1Entry) -> Seq<u8> {
    e.chunk_id@ + le32_bytes(e.flags) + le32_bytes(e.offset) + le32_bytes(e.size)
}

/// The entries of an `idx1` chunk, in order.
pub open spec fn idx1_entries_bytes(es: Seq<Idx1Entry>) -> Seq<u8>
    decreases es.len(),
{
    if es.len() == 0 {
        seq![]
    } else {
        idx1_entries_bytes(es.drop_last()) + idx1_entry_bytes(es.last())
    }
}

/// The `idx1` chunk: tag, size (16 bytes an entry), entries.
pub open spec fn idx1_chunk(es: Seq<Idx1Entry>) -> Seq<u8> {
    fcc(0x69, 0x64, 0x78, 0x31) + le32_bytes(((es.len() * 16) % 0x1_0000_0000) as u32) + idx1_entries_bytes(es)
}

/// A value taken modulo 2^32, as the writer's wrapping `u32` fields hold it.
pub open spec fn wrap32(x: int) -> u32 {
    (x % 0x1_0000_0000) as u32
}

/// Writer of AVI files.
pub struct AviMuxer {
    media: Vec<MediaType>,
    movi_data_start: u64,
    movi_size_offset: u64,
    riff_size_offset: u64,
    idx1_entries: Vec<Idx1Entry>,
}

/// `x - y` taken modulo 2^32, for any order of the two.
fn sub_wrap32(x: u64, y: u64) -> (r: u32)
    ensures
        r == wrap32(x - y),
{
    if x >= y {
        ((x - y) % 0x1_0000_0000) as u32
    } else {
        let d: u128 = x as u128 + 0x1_0000_0000_0000_0000u128 - y as u128;
        proof {
            vstd::arithmetic::div_mod::lemma_mod_multiples_vanish(0x1_0000_0000, x - y, 0x1_0000_0000);
        }
        (d % 0x1_0000_0000) as u32
    }
}

impl AviMuxer {
    /// Media types of the streams given to `write_header`.
    pub closed spec fn media_list(&self) -> Seq<MediaType> {
        self.media@
    }

    /// Offset of the `movi` list data.
    pub closed spec fn movi_start(&self) -> u64 {
        self.movi_data_start
    }

    /// Offset of the `movi` list's size field.
    pub closed spec fn movi_size_at(&self) -> u64 {
        self.movi_size_offset
    }

    /// Offset of the RIFF size field.
    pub closed spec fn riff_size_at(&self) -> u64 {
        self.riff_size_offset
    }

    /// The index entries recorded so far.
    pub closed spec fn entries(&self) -> Seq<Idx1Entry> {
        self.idx1_entries@
    }

    /// A muxer before `write_header`.
    pub fn new() -> (r: Self)
        ensures
            r.media_list().len() == 0,
            r.movi_start() == 0,
            r.movi_size_at() == 0,
            r.riff_size_at() == 0,
            r.entries().len() == 0,
    {
        AviMuxer {
            media: Vec::new(),
            movi_data_start: 0,
            movi_size_offset: 0,
            riff_size_offset: 0,
            idx1_entries: Vec::new(),
        }
    }

    /// A boxed muxer, for a registry.
    pub fn create() -> (r: TaoResult<Box<dyn Muxer>>)
        ensures
            r matches Ok(m) && m.format_kind() == FormatId::Avi,
    {
        Ok(Box::new(AviMuxer::new()))
    }

    /// What `write_header` does: no streams is an `InvalidArgument` and
    /// changes nothing; otherwise the header is written up to the first
    /// error, the media types and the RIFF size offset are kept, and on
    /// success the `movi` offsets are set at the end of what was written.
    pub open spec fn header_post(
        old_self: AviMuxer,
        new_self: AviMuxer,
        old_io: IoContext,
        new_io: IoContext,
        streams: Seq<Stream>,
        r: TaoResult<()>,
    ) -> bool {
        if streams.len() == 0 {
            r matches Err(e) && e.kind() == ErrorKind::InvalidArgument && new_io == old_io && new_self == old_self
        } else {
            let h = avi_header_bytes(streams);
            &&& new_io.contents() == written(old_io.contents(), old_io.cursor(), h.0)
            &&& new_io.cursor() == old_io.cursor() + h.0.len()
            &&& new_self.media_list() == media_types_of(streams)
            &&& new_self.riff_size_at() == old_io.cursor() + 4
            &&& new_self.entries() == old_self.entries()
            &&& match h.1 {
                Some(k) => r matches Err(e) && e.kind() == k && new_self.movi_start() == old_self.movi_start()
                    && new_self.movi_size_at() == old_self.movi_size_at(),
                None => r is Ok && new_self.movi_start() == new_io.cursor() && new_self.movi_size_at()
                    == new_io.cursor() - 8,
            }
        }
    }

    /// Writes the RIFF header, the `hdrl` list and the opening of `movi`.
    pub fn write_avi_header(&mut self, io: &mut IoContext, streams: &[Stream]) -> (r: TaoResult<()>)
        requires
            out_in_range(*old(io)),
            avi_header_fits(streams@),
        ensures
            Self::header_post(*old(self), *final(self), *old(io), *final(io), streams@, r),
    {
        if streams.len() == 0 {
            return Err(invalid_argument("AVI: no input streams"));
        }
        let mut media: Vec<MediaType> = Vec::new();
        let mut i: usize = 0;
        while i < streams.len()
            invariant
                i <= streams@.len(),
                media@ == media_types_of(streams@.take(i as int)),
            decreases streams.len() - i,
        {
            media.push(streams[i].media_type);
            i = i + 1;
            assert(media@ =~= media_types_of(streams@.take(i as int)));
        }
        assert(streams@.take(streams@.len() as int) =~= streams@);
        self.media = media;
        let start = io.position()?;
        let (bytes, err) = header_bytes(streams);
        proof {
            lemma_strl_parts_len(streams@, streams@.len() as int);
        }
        io.write_all(bytes.as_slice())?;
        self.riff_size_offset = start + 4;
        match err {
            Some(e) => {
                return Err(e);
            },
            None => {},
        }
        let end = io.position()?;
        self.movi_size_offset = end - 8;
        self.movi_data_start = end;
        Ok(())
    }

    /// What `write_packet` does: an empty payload, or a stream neither
    /// video nor audio, changes nothing; otherwise the data chunk is
    /// written at the cursor and its index entry recorded (offset from the
    /// `movi` data, keyframe flag 0x10 for video keyframes and all audio).
    pub open spec fn packet_post(
        old_self: AviMuxer,
        new_self: AviMuxer,
        old_io: IoContext,
        new_io: IoContext,
        packet: Packet,
        r: TaoResult<()>,
    ) -> bool {
        let si = avi_slot(old_self.media_list().len(), packet.stream_index as nat);
        let m = old_self.media_list()[si as int];
        let video = m == MediaType::Video;
        &&& r is Ok
        &&& if packet.payload().len() == 0 || !(video || m == MediaType::Audio) {
            new_io == old_io && new_self == old_self
        } else {
            let chunk = avi_data_chunk(avi_chunk_id(si, video), packet.payload());
            let e = new_self.entries().last();
            &&& new_io.contents() == written(old_io.contents(), old_io.cursor(), chunk)
            &&& new_io.cursor() == old_io.cursor() + chunk.len()
            &&& new_self.entries().len() == old_self.entries().len() + 1
            &&& new_self.entries().drop_last() == old_self.entries()
            &&& e.chunk_id@ == avi_chunk_id(si, video)
            &&& e.flags == (if video && !packet.is_keyframe { 0u32 } else { 0x10u32 })
            &&& e.offset == wrap32(old_io.cursor() - old_self.movi_start())
            &&& e.size == wrap32(packet.payload().len() as int)
            &&& new_self.media_list() == old_self.media_list()
            &&& new_self.movi_start() == old_self.movi_start()
            &&& new_self.movi_size_at() == old_self.movi_size_at()
            &&& new_self.riff_size_at() == old_self.riff_size_at()
        }
    }

    /// Whether `write_packet` accepts `packet`: the header names a stream,
    /// the stream the packet goes to has a two-digit number, and the
    /// payload fits the machine's memory.
    pub open spec fn avi_packet_fits(&self, packet: Packet) -> bool {
        &&& self.media_list().len() > 0
        &&& avi_slot(self.media_list().len(), packet.stream_index as nat) < 100
        &&& packet.payload().len() <= 0x1_0000_0000_0000
    }

    /// Writes a data chunk and records its index entry.
    pub fn write_avi_packet(&mut self, io: &mut IoContext, packet: &Packet) -> (r: TaoResult<()>)
        requires
            out_in_range(*old(io)),
            old(self).avi_packet_fits(*packet),
        ensures
            Self::packet_post(*old(self), *final(self), *old(io), *final(io), *packet, r),
    {
        let data = bytes_as_slice(&packet.data);
        if data.len() == 0 {
            return Ok(());
        }
        let n = self.media.len();
        let si: usize = if packet.stream_index < n - 1 { packet.stream_index } else { n - 1 };
        let m = self.media[si];
        let video = match m {
            MediaType::Video => true,
            MediaType::Audio => false,
            _ => {
                return Ok(());
            },
        };
        let d0: u8 = (0x30 + si / 10) as u8;
        let d1: u8 = (0x30 + si % 10) as u8;
        let chunk_id: [u8; 4] = if video { [d0, d1, 0x64, 0x63] } else { [d0, d1, 0x77, 0x62] };
        let is_key = if video { packet.is_keyframe } else { true };
        let pos = io.position()?;
        let offset = sub_wrap32(pos, self.movi_data_start);
        let size: u32 = (data.len() as u64 % 0x1_0000_0000) as u32;
        let mut b: Vec<u8> = Vec::new();
        push_tag(&mut b, &chunk_id);
        push_le32(&mut b, size);
        push_all(&mut b, data);
        if size % 2 != 0 {
            b.push(0);
        }
        assert(chunk_id@ =~= avi_chunk_id(si as nat, video));
        assert(b@ =~= avi_data_chunk(avi_chunk_id(si as nat, video), packet.payload()));
        io.write_all(b.as_slice())?;
        self.idx1_entries.push(Idx1Entry { chunk_id, flags: if is_key { 0x10 } else { 0 }, offset, size });
        assert(self.idx1_entries@.drop_last() =~= old(self).idx1_entries@);
        Ok(())
    }

    /// Whether `write_trailer` can run: the patched fields and the index
    /// fit the machine's memory.
    pub open spec fn avi_trailer_fits(&self) -> bool {
        &&& self.riff_size_at() + 4 <= 0x1_0000_0000_0000
        &&& self.movi_size_at() + 4 <= 0x1_0000_0000_0000
        &&& self.entries().len() <= 0x100_0000_0000
    }

    /// The file after the trailer: the `idx1` chunk at the cursor, then the
    /// RIFF size (file size less 8) and the `movi` size (from its data to
    /// the index, plus 4) patched in.
    pub open spec fn trailer_bytes(old_self: AviMuxer, old_io: IoContext) -> Seq<u8> {
        let idx = idx1_chunk(old_self.entries());
        let with_idx = written(old_io.contents(), old_io.cursor(), idx);
        let riff = wrap32(old_io.cursor() + idx.len() - 8);
        let movi = wrap32(old_io.cursor() - old_self.movi_start() + 4);
        written(written(with_idx, old_self.riff_size_at() as nat, le32_bytes(riff)), old_self.movi_size_at() as nat, le32_bytes(movi))
    }

    /// Writes the `idx1` index and patches the RIFF and `movi` sizes.
    pub fn write_avi_trailer(&mut self, io: &mut IoContext) -> (r: TaoResult<()>)
        requires
            out_in_range(*old(io)),
            old(self).avi_trailer_fits(),
        ensures
            r is Ok,
            *final(self) == *old(self),
            final(io).contents() == Self::trailer_bytes(*old(self), *old(io)),
            final(io).cursor() == old(self).movi_size_at() + 4,
    {
        let pos = io.position()?;
        let movi_size = sub_wrap32(pos + 4, self.movi_data_start);
        let n = self.idx1_entries.len();
        let mut b: Vec<u8> = Vec::new();
        push_tag(&mut b, &[0x69, 0x64, 0x78, 0x31]);
        push_le32(&mut b, ((n as u64 * 16) % 0x1_0000_0000) as u32);
        let mut i: usize = 0;
        while i < n
            invariant
                n == self.idx1_entries@.len(),
                i <= n,
                b@ == fcc(0x69, 0x64, 0x78, 0x31) + le32_bytes(((n * 16) % 0x1_0000_0000) as u32)
                    + idx1_entries_bytes(self.idx1_entries@.take(i as int)),
            decreases n - i,
        {
            let e = self.idx1_entries[i];
            push_tag(&mut b, &e.chunk_id);
            push_le32(&mut b, e.flags);
            push_le32(&mut b, e.offset);
            push_le32(&mut b, e.size);
            assert(self.idx1_entries@.take(i + 1).drop_last() =~= self.idx1_entries@.take(i as int));
            i = i + 1;
        }
        assert(self.idx1_entries@.take(n as int) =~= self.idx1_entries@);
        proof {
            lemma_idx1_len(self.idx1_entries@);
        }
        io.write_all(b.as_slice())?;
        let file_size = io.position()?;
        let riff_size = sub_wrap32(file_size, 8);
        io.seek(SeekFrom::Start(self.riff_size_offset))?;
        io.write_u32_le(riff_size)?;
        io.seek(SeekFrom::Start(self.movi_size_offset))?;
        io.write_u32_le(movi_size)?;
        Ok(())
    }
}

/// The index entries take 16 bytes each.
proof fn lemma_idx1_len(es: Seq<Idx1Entry>)
    ensures
        idx1_entries_bytes(es).len() == 16 * es.len(),
    decreases es.len(),
{
    if es.len() > 0 {
        lemma_idx1_len(es.drop_last());
    }
}

impl Muxer for AviMuxer {
    open spec fn format_kind(&self) -> FormatId {
        FormatId::Avi
    }

    open spec fn header_admits(&self, streams: Seq<Stream>) -> bool {
        avi_header_fits(streams)
    }

    open spec fn packet_admits(&self, packet: Packet) -> bool {
        self.avi_packet_fits(packet)
    }

    open spec fn trailer_admits(&self) -> bool {
        self.avi_trailer_fits()
    }

    fn format_id(&self) -> (r: FormatId)
        ensures
            r == FormatId::Avi,
    {
        FormatId::Avi
    }

    fn name(&self) -> (r: &'static str)
        ensures
            r@ == "avi"@,
    {
        "avi"
    }

    fn write_header(&mut self, io: &mut IoContext, streams: &[Stream]) -> (r: TaoResult<()>)
        ensures
            Self::header_post(*old(self), *final(self), *old(io), *final(io), streams@, r),
    {
        self.write_avi_header(io, streams)
    }

    fn write_packet(&mut self, io: &mut IoContext, packet: &Packet) -> (r: TaoResult<()>)
        ensures
            Self::packet_post(*old(self), *final(self), *old(io), *final(io), *packet, r),
    {
        self.write_avi_packet(io, packet)
    }

    fn write_trailer(&mut self, io: &mut IoContext) -> (r: TaoResult<()>)
        ensures
            r is Ok,
            *final(self) == *old(self),
            final(io).contents() == Self::trailer_bytes(*old(self), *old(io)),
            final(io).cursor() == old(self).movi_size_at() + 4,
    {
        self.write_avi_trailer(io)
    }
}

} // verus!
