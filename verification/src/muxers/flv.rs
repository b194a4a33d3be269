//! FLV writer: the 9 byte FLV header and a zero PreviousTagSize, a
//! sequence header tag for each stream with codec private data, then one
//! tag per packet, each followed by its size.
//!
//! A packet's tag carries its timestamp in milliseconds; the caller gives
//! it (the stream's time base applied to the packet's presentation time).

use vstd::prelude::*;
use crate::endian::{be32_bytes, push_all, push_be32};
use crate::error::{ErrorKind, TaoError, TaoResult, invalid_argument, stream_not_found, unsupported};
use crate::io::{IoContext, written, lemma_written_concat};
use crate::media::{CodecId, MediaType, Packet, Rational, Stream, StreamParams};
use crate::muxer::out_in_range;
use crate::packet_data::bytes_as_slice;
use crate::demuxers::flv::{flv_audio_rate, flv_audio_stream};

verus! {

/// Tag type of audio tags.
pub const TAG_AUDIO: u8 = 8;

/// Tag type of video tags.
pub const TAG_VIDEO: u8 = 9;

/// The FLV SoundFormat of an audio codec: AAC 10, MP3 2, 16 bit PCM 3.
pub open spec fn sound_format_of(c: CodecId) -> Option<u8> {
    match c {
        CodecId::Aac => Some(10u8),
        CodecId::Mp3 => Some(2u8),
        CodecId::PcmS16le | CodecId::PcmS16be => Some(3u8),
        _ => None,
    }
}

/// The FLV video CodecID of a video codec: H.264 7, H.265 12.
pub open spec fn video_id_of(c: CodecId) -> Option<u8> {
    match c {
        CodecId::H264 => Some(7u8),
        CodecId::H265 => Some(12u8),
        _ => None,
    }
}

/// Looks up the SoundFormat of an audio codec.
pub fn codec_to_sound_format(codec_id: CodecId) -> (r: TaoResult<u8>)
    ensures
        match sound_format_of(codec_id) {
            Some(f) => r == Ok::<u8, TaoError>(f),
            None => r matches Err(e) && e.kind() == ErrorKind::Unsupported,
        },
{
    match codec_id {
        CodecId::Aac => Ok(10),
        CodecId::Mp3 => Ok(2),
        CodecId::PcmS16le | CodecId::PcmS16be => Ok(3),
        _ => Err(unsupported("FLV: audio codec not supported")),
    }
}

/// Looks up the video CodecID of a video codec.
pub fn codec_to_video_id(codec_id: CodecId) -> (r: TaoResult<u8>)
    ensures
        match video_id_of(codec_id) {
            Some(f) => r == Ok::<u8, TaoError>(f),
            None => r matches Err(e) && e.kind() == ErrorKind::Unsupported,
        },
{
    match codec_id {
        CodecId::H264 => Ok(7),
        CodecId::H265 => Ok(12),
        _ => Err(unsupported("FLV: video codec not supported")),
    }
}

/// A tag: type, data size (24 bits), timestamp (low 24 bits, then the high
/// 8), stream ID 0, the data, then the tag's size (11 + data size).
pub open spec fn flv_tag(tag_type: u8, timestamp: u32, data: Seq<u8>) -> Seq<u8> {
    let size = data.len() as u32;
    seq![
        tag_type,
        (size >> 16u32) as u8,
        (size >> 8u32) as u8,
        size as u8,
        (timestamp >> 16u32) as u8,
        (timestamp >> 8u32) as u8,
        timestamp as u8,
        (timestamp >> 24u32) as u8,
        0u8,
        0u8,
        0u8,
    ] + data + be32_bytes((11 + size) as u32)
}

/// Writes a tag.
fn write_tag(io: &mut IoContext, tag_type: u8, timestamp: u32, data: &[u8]) -> (r: TaoResult<()>)
    requires
        data@.len() <= 0xFFFF_FF00,
        old(io).cursor() + data@.len() + 15 <= usize::MAX,
        old(io).contents().len() + data@.len() + 15 <= usize::MAX,
    ensures
        r is Ok,
        final(io).contents() == written(old(io).contents(), old(io).cursor(), flv_tag(tag_type, timestamp, data@)),
        final(io).cursor() == old(io).cursor() + data@.len() + 15,
{
    let data_size = data.len() as u32;
    let mut buf: Vec<u8> = Vec::new();
    buf.push(tag_type);
    buf.push((data_size >> 16u32) as u8);
    buf.push((data_size >> 8u32) as u8);
    buf.push(data_size as u8);
    buf.push((timestamp >> 16u32) as u8);
    buf.push((timestamp >> 8u32) as u8);
    buf.push(timestamp as u8);
    buf.push((timestamp >> 24u32) as u8);
    buf.push(0);
    buf.push(0);
    buf.push(0);
    push_all(&mut buf, data);
    push_be32(&mut buf, 11 + data_size);
    assert(buf@ =~= flv_tag(tag_type, timestamp, data@));
    io.write_all(buf.as_slice())
}

/// Writes the sequence header tag of a stream, if it has one.
fn write_seq_header(io: &mut IoContext, stream: &Stream) -> (r: TaoResult<()>)
    requires
        stream.extra_data@.len() <= 0x1_0000_0000 - 0x1000,
        old(io).cursor() + stream.extra_data@.len() + 32 <= usize::MAX,
        old(io).contents().len() + stream.extra_data@.len() + 32 <= usize::MAX,
    ensures
        seq_header_ok(*stream) ==> r is Ok && final(io).contents() == written(
            old(io).contents(),
            old(io).cursor(),
            seq_header(*stream),
        ) && final(io).cursor() == old(io).cursor() + seq_header(*stream).len(),
        !seq_header_ok(*stream) ==> (r matches Err(e) && e.kind() == ErrorKind::Unsupported && *final(io) == *old(io)),
        seq_header(*stream).len() <= stream.extra_data@.len() + 32,
{
    if stream.extra_data.len() == 0 {
        assert(written(io.contents(), io.cursor(), seq![]) =~= io.contents());
        return Ok(());
    }
    match stream.media_type {
        MediaType::Video => {
            let vid = codec_to_video_id(stream.codec_id)?;
            let mut tag_data: Vec<u8> = Vec::new();
            tag_data.push((1u8 << 4u8) | vid);
            tag_data.push(0);
            tag_data.push(0);
            tag_data.push(0);
            tag_data.push(0);
            push_all(&mut tag_data, stream.extra_data.as_slice());
            assert(tag_data@ =~= seq![(1u8 << 4u8) | vid, 0u8, 0u8, 0u8, 0u8] + stream.extra_data@);
            write_tag(io, TAG_VIDEO, 0, tag_data.as_slice())
        },
        MediaType::Audio => {
            let sound_format = codec_to_sound_format(stream.codec_id)?;
            let mut tag_data: Vec<u8> = Vec::new();
            tag_data.push((sound_format << 4u8) | 0x0F);
            if sound_format == 10 {
                tag_data.push(0);
            }
            push_all(&mut tag_data, stream.extra_data.as_slice());
            assert(tag_data@ =~= seq![(sound_format << 4u8) | 0x0Fu8] + (if sound_format == 10 {
                seq![0u8]
            } else {
                seq![]
            }) + stream.extra_data@);
            write_tag(io, TAG_AUDIO, 0, tag_data.as_slice())
        },
        _ => {
            assert(written(io.contents(), io.cursor(), seq![]) =~= io.contents());
            Ok(())
        },
    }
}

/// What the writer keeps of a stream.
#[derive(Clone, Copy)]
pub struct FlvStreamInfo {
    /// Index of the stream.
    pub index: usize,
    /// Media type.
    pub media_type: MediaType,
    /// Codec.
    pub codec_id: CodecId,
    /// Time base of the stream's timestamps.
    pub time_base: Rational,
    /// Sample rate and channel count of an audio stream.
    pub audio: Option<(u32, u32)>,
}

/// What the writer keeps of `s`.
pub open spec fn stream_info(s: Stream) -> FlvStreamInfo {
    FlvStreamInfo {
        index: s.index,
        media_type: s.media_type,
        codec_id: s.codec_id,
        time_base: s.time_base,
        audio: match s.params {
            StreamParams::Audio(a) => Some((a.sample_rate, a.channel_layout.channels)),
            _ => None,
        },
    }
}

/// Whether the sequence header of `s` can be written: it has none, or its
/// codec has an FLV ID.
pub open spec fn seq_header_ok(s: Stream) -> bool {
    s.extra_data@.len() > 0 ==> match s.media_type {
        MediaType::Video => video_id_of(s.codec_id) is Some,
        MediaType::Audio => sound_format_of(s.codec_id) is Some,
        _ => true,
    }
}

/// The sequence header tag of `s` at timestamp 0: for video a keyframe of
/// its codec with packet type 0 and no composition offset, for audio its
/// sound format with 44 kHz, 16 bit, stereo (and, for AAC, packet type 0),
/// each before the codec private data; nothing without private data.
pub open spec fn seq_header(s: Stream) -> Seq<u8> {
    if s.extra_data@.len() == 0 {
        seq![]
    } else {
        match s.media_type {
            MediaType::Video => flv_tag(
                TAG_VIDEO,
                0,
                seq![(1u8 << 4u8) | video_id_of(s.codec_id)->Some_0, 0u8, 0u8, 0u8, 0u8] + s.extra_data@,
            ),
            MediaType::Audio => {
                let f = sound_format_of(s.codec_id)->Some_0;
                flv_tag(
                    TAG_AUDIO,
                    0,
                    seq![(f << 4u8) | 0x0Fu8] + (if f == 10 { seq![0u8] } else { seq![] }) + s.extra_data@,
                )
            },
            _ => seq![],
        }
    }
}

/// Where the sequence headers stop: the first stream whose header cannot be
/// written, else the number of streams.
pub open spec fn seq_stop(streams: Seq<Stream>, k: nat) -> nat
    decreases streams.len() - k,
{
    if k >= streams.len() {
        streams.len()
    } else if !seq_header_ok(streams[k as int]) {
        k
    } else {
        seq_stop(streams, k + 1)
    }
}

/// The sequence headers of the first `k` streams.
pub open spec fn seq_headers(streams: Seq<Stream>, k: nat) -> Seq<u8>
    decreases k,
{
    if k == 0 {
        seq![]
    } else {
        seq_headers(streams, (k - 1) as nat) + seq_header(streams[k - 1])
    }
}

/// The FLV header for the type flags `flags`, and PreviousTagSize0.
pub open spec fn flv_head(flags: u8) -> Seq<u8> {
    seq![0x46u8, 0x4C, 0x56, 1u8, flags] + be32_bytes(9) + be32_bytes(0)
}

/// Whether some stream has media type `m`.
pub open spec fn has_media(streams: Seq<Stream>, m: MediaType) -> bool {
    exists|j: int| 0 <= j < streams.len() && #[trigger] streams[j].media_type == m
}

/// The index of the last stream of media type `m` among the first `k`.
pub open spec fn last_of(streams: Seq<Stream>, m: MediaType, k: nat) -> Option<usize>
    decreases k,
{
    if k == 0 {
        None
    } else if streams[k - 1].media_type == m {
        Some(streams[k - 1].index)
    } else {
        last_of(streams, m, (k - 1) as nat)
    }
}

/// The tag of a packet of a stream with media type `m`, codec `c` and
/// audio parameters `audio`, at `timestamp`.
pub open spec fn packet_tag(info: FlvStreamInfo, p: Packet, timestamp: u32) -> Seq<u8> {
    match info.media_type {
        MediaType::Video => {
            let cts: i32 = if p.pts >= p.dts { (p.pts - p.dts) as i32 } else { 0 };
            flv_tag(
                TAG_VIDEO,
                timestamp,
                seq![((if p.is_keyframe { 1u8 } else { 2u8 }) << 4u8) | video_id_of(info.codec_id)->Some_0, 1u8]
                    + be32_bytes(cts as u32).subrange(1, 4) + p.payload(),
            )
        },
        _ => {
            let f = sound_format_of(info.codec_id)->Some_0;
            let sr: u8 = match info.audio {
                Some((rate, _)) => flv_rate_index(rate),
                None => 3,
            };
            let ch: u8 = match info.audio {
                Some((_, c)) => if c >= 2 { 1 } else { 0 },
                None => 1,
            };
            flv_tag(
                TAG_AUDIO,
                timestamp,
                seq![(f << 4u8) | (sr << 2u8) | 2u8 | ch] + (if f == 10 { seq![1u8] } else { seq![] }) + p.payload(),
            )
        },
    }
}

/// The FLV `SoundRate` code of a sample rate: 1 for 11025 Hz, 2 for
/// 22050 Hz, 3 for 44100 Hz and any other rate.
pub open spec fn flv_rate_index(rate: u32) -> u8 {
    if rate == 44100 {
        3
    } else if rate == 22050 {
        2
    } else if rate == 11025 {
        1
    } else {
        3
    }
}

/// An audio tag header written for a non-AAC sound format at 11025,
/// 22050 or 44100 Hz starts an audio stream of that rate when read back;
/// the rates the four `SoundRate` codes stand for rise with the code, each
/// twice the one before (5512.5 Hz rounded down for code 0).
pub proof fn law_flv_rate_round_trip(f: u8, rate: u32, ch: u8, idx: usize, i: u8, j: u8)
    requires
        f < 16,
        f != 10,
        ch < 2,
        rate == 11025 || rate == 22050 || rate == 44100,
    ensures
        ({
            let h: u8 = (f << 4u8) | (flv_rate_index(rate) << 2u8) | 2u8 | ch;
            flv_audio_stream(idx, h).params matches StreamParams::Audio(a) && a.sample_rate == rate
        }),
        i < j < 4 ==> flv_audio_rate(f, i) < flv_audio_rate(f, j),
        i < 3 ==> flv_audio_rate(f, (i + 1) as u8) == 2 * flv_audio_rate(f, i) + (if i == 0 { 1int } else { 0int }),
{
    let s = flv_rate_index(rate);
    let h: u8 = (f << 4u8) | (s << 2u8) | 2u8 | ch;
    assert(h / 16 == f && (h / 4) % 4 == s) by (bit_vector)
        requires
            f < 16,
            s < 4,
            ch < 2,
            h == (f << 4u8) | (s << 2u8) | 2u8 | ch,
    ;
}

/// Whether a packet of a stream with this info can be written: a video or
/// audio stream whose codec has an FLV ID.
pub open spec fn packet_ok(info: FlvStreamInfo) -> bool {
    match info.media_type {
        MediaType::Video => video_id_of(info.codec_id) is Some,
        MediaType::Audio => sound_format_of(info.codec_id) is Some,
        _ => false,
    }
}

/// Writer of FLV files.
pub struct FlvMuxer {
    has_audio: bool,
    has_video: bool,
    audio_stream_idx: Option<usize>,
    video_stream_idx: Option<usize>,
    audio_seq_written: bool,
    video_seq_written: bool,
    streams: Vec<FlvStreamInfo>,
}

/// The writer's flags and stream indexes, as plain values.
pub struct FlvState {
    pub has_audio: bool,
    pub has_video: bool,
    pub audio_stream_idx: Option<usize>,
    pub video_stream_idx: Option<usize>,
}

impl FlvMuxer {
    /// The flags and stream indexes.
    pub closed spec fn state(&self) -> FlvState {
        FlvState {
            has_audio: self.has_audio,
            has_video: self.has_video,
            audio_stream_idx: self.audio_stream_idx,
            video_stream_idx: self.video_stream_idx,
        }
    }

    /// What is kept of each stream.
    pub closed spec fn infos(&self) -> Seq<FlvStreamInfo> {
        self.streams@
    }

    /// A writer before its header.
    pub fn new() -> (r: Self)
        ensures
            r.state() == (FlvState {
                has_audio: false,
                has_video: false,
                audio_stream_idx: None,
                video_stream_idx: None,
            }),
            r.infos().len() == 0,
    {
        FlvMuxer {
            has_audio: false,
            has_video: false,
            audio_stream_idx: None,
            video_stream_idx: None,
            audio_seq_written: false,
            video_seq_written: false,
            streams: Vec::new(),
        }
    }

    /// The time base of stream `idx`, for working out packet timestamps.
    pub fn time_base_of(&self, idx: usize) -> (r: Option<Rational>)
        ensures
            idx < self.infos().len() ==> r == Some(self.infos()[idx as int].time_base),
            idx >= self.infos().len() ==> r is None,
    {
        if idx < self.streams.len() {
            Some(self.streams[idx].time_base)
        } else {
            None
        }
    }

    /// Writes the FLV header for `streams` and their sequence headers.
    pub fn write_header(&mut self, io: &mut IoContext, streams: &[Stream]) -> (r: TaoResult<()>)
        requires
            out_in_range(*old(io)),
            streams@.len() <= 0x1_0000,
            forall|j: int| 0 <= j < streams@.len() ==> #[trigger] streams@[j].extra_data@.len() <= 0x1_0000_0000 - 0x1000,
        ensures
            streams@.len() == 0 ==> (r matches Err(e) && e.kind() == ErrorKind::InvalidArgument && *final(self)
                == *old(self) && *final(io) == *old(io)),
            streams@.len() > 0 ==> {
                let has_a = old(self).state().has_audio || has_media(streams@, MediaType::Audio);
                let has_v = old(self).state().has_video || has_media(streams@, MediaType::Video);
                let flags = (if has_a { 4u8 } else { 0u8 }) | (if has_v { 1u8 } else { 0u8 });
                let stop = seq_stop(streams@, 0);
                let out = flv_head(flags) + seq_headers(streams@, stop);
                &&& final(self).state() == (FlvState {
                    has_audio: has_a,
                    has_video: has_v,
                    audio_stream_idx: match last_of(streams@, MediaType::Audio, streams@.len()) {
                        Some(i) => Some(i),
                        None => old(self).state().audio_stream_idx,
                    },
                    video_stream_idx: match last_of(streams@, MediaType::Video, streams@.len()) {
                        Some(i) => Some(i),
                        None => old(self).state().video_stream_idx,
                    },
                })
                &&& final(self).infos() == Seq::new(streams@.len(), |j: int| stream_info(streams@[j]))
                &&& final(io).contents() == written(old(io).contents(), old(io).cursor(), out)
                &&& final(io).cursor() == old(io).cursor() + out.len()
                &&& if stop == streams@.len() {
                    r is Ok
                } else {
                    r matches Err(e) && e.kind() == ErrorKind::Unsupported
                }
            },
    {
        if streams.len() == 0 {
            return Err(invalid_argument("FLV: no input streams"));
        }
        let ghost old_state = self.state();
        let mut infos: Vec<FlvStreamInfo> = Vec::new();
        let mut i: usize = 0;
        while i < streams.len()
            invariant
                i <= streams@.len(),
                infos@ == Seq::new(i as nat, |j: int| stream_info(streams@[j])),
                self.has_audio == (old_state.has_audio || exists|j: int| 0 <= j < i && #[trigger] streams@[j].media_type == MediaType::Audio),
                self.has_video == (old_state.has_video || exists|j: int| 0 <= j < i && #[trigger] streams@[j].media_type == MediaType::Video),
                self.audio_stream_idx == (match last_of(streams@, MediaType::Audio, i as nat) {
                    Some(x) => Some(x),
                    None => old_state.audio_stream_idx,
                }),
                self.video_stream_idx == (match last_of(streams@, MediaType::Video, i as nat) {
                    Some(x) => Some(x),
                    None => old_state.video_stream_idx,
                }),
            decreases streams.len() - i,
        {
            let stream = &streams[i];
            let audio = match &stream.params {
                StreamParams::Audio(a) => Some((a.sample_rate, a.channel_layout.channels)),
                _ => None,
            };
            infos.push(
                FlvStreamInfo {
                    index: stream.index,
                    media_type: stream.media_type,
                    codec_id: stream.codec_id,
                    time_base: stream.time_base,
                    audio,
                },
            );
            match stream.media_type {
                MediaType::Audio => {
                    self.has_audio = true;
                    self.audio_stream_idx = Some(stream.index);
                },
                MediaType::Video => {
                    self.has_video = true;
                    self.video_stream_idx = Some(stream.index);
                },
                _ => {},
            }
            i = i + 1;
            assert(infos@ =~= Seq::new(i as nat, |j: int| stream_info(streams@[j])));
        }
        self.streams = infos;
        let a_bit: u8 = if self.has_audio {
            0x04
        } else {
            0
        };
        let v_bit: u8 = if self.has_video {
            0x01
        } else {
            0
        };
        let flags: u8 = a_bit | v_bit;
        let mut head: Vec<u8> = Vec::new();
        head.push(0x46);
        head.push(0x4C);
        head.push(0x56);
        head.push(1);
        head.push(flags);
        push_be32(&mut head, 9);
        push_be32(&mut head, 0);
        assert(head@ =~= flv_head(flags));
        let ghost d0 = io.contents();
        let ghost c0 = io.cursor();
        let ghost st = self.state();
        let ghost inf = self.infos();
        io.write_all(head.as_slice())?;
        let mut k: usize = 0;
        while k < streams.len()
            invariant
                k <= streams@.len() <= 0x1_0000,
                forall|j: int| 0 <= j < streams@.len() ==> #[trigger] streams@[j].extra_data@.len() <= 0x1_0000_0000 - 0x1000,
                forall|j: int| 0 <= j < k ==> seq_header_ok(#[trigger] streams@[j]),
                seq_stop(streams@, 0) == seq_stop(streams@, k as nat),
                self.state() == st,
                self.infos() == inf,
                d0 == old(io).contents(),
                c0 == old(io).cursor(),
                inf == Seq::new(streams@.len(), |j: int| stream_info(streams@[j])),
                st.has_audio == (old(self).state().has_audio || has_media(streams@, MediaType::Audio)),
                st.has_video == (old(self).state().has_video || has_media(streams@, MediaType::Video)),
                st.audio_stream_idx == (match last_of(streams@, MediaType::Audio, streams@.len()) {
                    Some(x) => Some(x),
                    None => old(self).state().audio_stream_idx,
                }),
                st.video_stream_idx == (match last_of(streams@, MediaType::Video, streams@.len()) {
                    Some(x) => Some(x),
                    None => old(self).state().video_stream_idx,
                }),
                flags == (if st.has_audio { 4u8 } else { 0u8 }) | (if st.has_video { 1u8 } else { 0u8 }),
                io.contents() == written(d0, c0, flv_head(flags) + seq_headers(streams@, k as nat)),
                io.cursor() == c0 + (flv_head(flags) + seq_headers(streams@, k as nat)).len(),
                seq_headers(streams@, k as nat).len() <= k * 0x1_0000_0000,
                io.contents().len() <= d0.len() + (flv_head(flags) + seq_headers(streams@, k as nat)).len(),
                d0.len() <= 0x1_0000_0000_0000,
                c0 <= 0x1_0000_0000_0000,
                0x40_0000_0000_0000 <= usize::MAX,
            decreases streams.len() - k,
        {
            let stream = &streams[k];
            let ghost prev = flv_head(flags) + seq_headers(streams@, k as nat);
            proof {
                assert(k * 0x1_0000_0000 + 0x1_0000_0000 == (k + 1) * 0x1_0000_0000) by (nonlinear_arith);
                assert(k * 0x1_0000_0000 <= 0x1_0000 * 0x1_0000_0000) by (nonlinear_arith)
                    requires
                        k <= 0x1_0000,
                ;
            }
            proof {
                if !seq_header_ok(streams@[k as int]) {
                    assert(seq_stop(streams@, k as nat) == k);
                } else {
                    assert(seq_stop(streams@, k as nat) == seq_stop(streams@, (k + 1) as nat));
                }
            }
            write_seq_header(io, stream)?;
            if stream.extra_data.len() > 0 {
                match stream.media_type {
                    MediaType::Video => {
                        self.video_seq_written = true;
                    },
                    MediaType::Audio => {
                        self.audio_seq_written = true;
                    },
                    _ => {},
                }
            }
            proof {
                lemma_written_concat(d0, c0, prev, seq_header(streams@[k as int]));
                assert(prev + seq_header(streams@[k as int]) =~= flv_head(flags) + seq_headers(streams@, (k + 1) as nat));
                if seq_header(streams@[k as int]).len() == 0 {
                    assert(written(d0, c0, prev) == written(d0, c0, prev + seq![]));
                }
            }
            k = k + 1;
        }
        Ok(())
    }

    /// Writes a packet as a tag at `timestamp_ms`.
    pub fn write_packet_at(&mut self, io: &mut IoContext, packet: &Packet, timestamp_ms: u32) -> (r: TaoResult<()>)
        requires
            out_in_range(*old(io)),
            packet.payload().len() <= 0x1_0000_0000 - 0x1000,
            packet.pts >= packet.dts ==> packet.pts - packet.dts <= i64::MAX,
        ensures
            *final(self) == *old(self),
            packet.stream_index >= old(self).infos().len() ==> (r matches Err(e) && e.kind() == ErrorKind::StreamNotFound
                && *final(io) == *old(io)),
            packet.stream_index < old(self).infos().len() ==> {
                let info = old(self).infos()[packet.stream_index as int];
                if packet_ok(info) {
                    let out = packet_tag(info, *packet, timestamp_ms);
                    &&& r is Ok
                    &&& final(io).contents() == written(old(io).contents(), old(io).cursor(), out)
                    &&& final(io).cursor() == old(io).cursor() + out.len()
                } else {
                    r matches Err(e) && e.kind() == ErrorKind::Unsupported && *final(io) == *old(io)
                }
            },
    {
        let idx = packet.stream_index;
        if idx >= self.streams.len() {
            return Err(stream_not_found("FLV: no such stream"));
        }
        let info = self.streams[idx];
        let data = bytes_as_slice(&packet.data);
        match info.media_type {
            MediaType::Video => {
                let vid = codec_to_video_id(info.codec_id)?;
                let frame_type: u8 = if packet.is_keyframe {
                    1
                } else {
                    2
                };
                let cts: i32 = if packet.pts >= packet.dts {
                    (packet.pts - packet.dts) as i32
                } else {
                    0
                };
                let mut tag_data: Vec<u8> = Vec::new();
                tag_data.push((frame_type << 4u8) | vid);
                tag_data.push(1);
                let cb = crate::endian::u32_to_be(cts as u32);
                tag_data.push(cb[1]);
                tag_data.push(cb[2]);
                tag_data.push(cb[3]);
                push_all(&mut tag_data, data);
                assert(tag_data@ =~= seq![(frame_type << 4u8) | vid, 1u8] + be32_bytes(cts as u32).subrange(1, 4)
                    + data@);
                write_tag(io, TAG_VIDEO, timestamp_ms, tag_data.as_slice())
            },
            MediaType::Audio => {
                let sound_format = codec_to_sound_format(info.codec_id)?;
                let sr_code: u8 = match info.audio {
                    Some((rate, _)) => if rate == 44100 {
                        3
                    } else if rate == 22050 {
                        2
                    } else if rate == 11025 {
                        1
                    } else {
                        3
                    },
                    None => 3,
                };
                let channels_bit: u8 = match info.audio {
                    Some((_, c)) => if c >= 2 {
                        1
                    } else {
                        0
                    },
                    None => 1,
                };
                let mut tag_data: Vec<u8> = Vec::new();
                tag_data.push((sound_format << 4u8) | (sr_code << 2u8) | (1u8 << 1u8) | channels_bit);
                if sound_format == 10 {
                    tag_data.push(1);
                }
                push_all(&mut tag_data, data);
                assert((1u8 << 1u8) == 2u8) by (bit_vector);
                assert(tag_data@ =~= seq![(sound_format << 4u8) | (sr_code << 2u8) | 2u8 | channels_bit] + (if sound_format
                    == 10 {
                    seq![1u8]
                } else {
                    seq![]
                }) + data@);
                write_tag(io, TAG_AUDIO, timestamp_ms, tag_data.as_slice())
            },
            _ => Err(unsupported("FLV: stream type not supported")),
        }
    }

    /// Nothing to finish.
    pub fn write_trailer(&mut self, io: &mut IoContext) -> (r: TaoResult<()>)
        ensures
            r is Ok,
            *final(io) == *old(io),
            *final(self) == *old(self),
    {
        Ok(())
    }
}

} // verus!
