//! FLV: a 9 byte header (`FLV`, version, flags, data offset) followed by
//! tags, each preceded by the size of the previous one.

use vstd::prelude::*;
use crate::probe::{
    FormatProbe, ProbeScore, SCORE_EXTENSION, SCORE_MAX, SCORE_MIME, has_tag, tag_at, str_views,
    name_ascii_ends_in, filename_ascii_ends_in, name_lower_ends_with, filename_lower_ends_with,
    ext_lower_in, filename_lower_ext_in, ext_matches_ci, filename_ext_is,
};
use crate::format_id::FormatId;
use crate::error::{ErrorKind, TaoError, TaoResult, invalid_data, not_implemented};
use crate::io::{IoContext, SeekFrom};
use crate::endian::{be24, be32};
use crate::media::{
    AudioStreamParams, ChannelLayout, CodecId, MediaType, Packet, PixelFormat, Rational, SampleFormat,
    SeekFlags, Stream, StreamParams, VideoStreamParams,
};
use crate::demuxer::{Demuxer, io_in_range};
use crate::demuxers::avi::{StreamView, stream_view, stream_views};
use crate::demuxers::aiff::{top_bit, lemma_top_bit};
use vstd::arithmetic::power2::{pow2, lemma_pow2_unfold, lemma_pow2_pos, lemma_pow2_strictly_increases, lemma2_to64};

verus! {

/// What the FLV probe answers.
pub open spec fn flv_probe_score(d: Seq<u8>, filename: Option<&str>) -> Option<ProbeScore> {
    if d.len() >= 9 && d[0] == 0x46 && d[1] == 0x4C && d[2] == 0x56 && d[3] == 1 {
        Some(SCORE_MAX)
    } else if ext_matches_ci(filename, "flv"@) {
        Some(SCORE_EXTENSION)
    } else {
        None
    }
}

/// Recogniser of FLV files.
pub struct FlvProbe;

impl FormatProbe for FlvProbe {
    fn probe(&self, data: &[u8], filename: Option<&str>) -> (r: Option<ProbeScore>)
        ensures
            r == flv_probe_score(data@, filename),
    {
        if data.len() >= 9 && data[0] == 0x46 && data[1] == 0x4C && data[2] == 0x56 && data[3] == 1 {
            return Some(SCORE_MAX);
        }
        if filename_ext_is(filename, "flv") {
            return Some(SCORE_EXTENSION);
        }
        None
    }

    fn format_id(&self) -> (r: FormatId)
        ensures
            r == FormatId::Flv,
    {
        FormatId::Flv
    }
}

/// Big-endian 24-bit value of `d` at `p`.
pub open spec fn be24_of(d: Seq<u8>, p: int) -> u32 {
    be24(d[p], d[p + 1], d[p + 2]) as u32
}

/// Big-endian 32-bit value of `d` at `p`.
pub open spec fn be32_of(d: Seq<u8>, p: int) -> u32 {
    be32(d[p], d[p + 1], d[p + 2], d[p + 3]) as u32
}

/// What the reader knows between tags: the streams, which of them carry
/// audio and video, their codecs, whether sequence headers were seen, the
/// `onMetaData` duration (the bits of a positive finite double) and the
/// data offset.
pub struct FlvModel {
    pub streams: Seq<StreamView>,
    pub audio_idx: Option<usize>,
    pub video_idx: Option<usize>,
    pub audio_codec: CodecId,
    pub video_codec: CodecId,
    pub audio_cfg: bool,
    pub video_cfg: bool,
    pub duration_bits: Option<u64>,
    pub data_offset: u64,
}

/// A packet as the reader produces it.
pub struct FlvPacket {
    pub stream_index: usize,
    pub payload: Seq<u8>,
    pub pts: i64,
    pub dts: i64,
    pub key: bool,
}

/// Whether `p` is the packet `f` (time base 1/1000, no duration or position).
pub open spec fn flv_packet_is(p: Packet, f: FlvPacket) -> bool {
    &&& p.stream_index == f.stream_index
    &&& p.payload() == f.payload
    &&& p.pts == f.pts
    &&& p.dts == f.dts
    &&& p.is_keyframe == f.key
    &&& p.duration == 0
    &&& p.time_base == Rational::new_spec(1, 1000)
    &&& p.pos == -1
}

/// What reading one tag gives.
pub enum FlvStep {
    /// A packet.
    Packet(FlvPacket),
    /// No packet (sequence header, script data, empty or unknown tag).
    Skip,
    /// No tag header left.
    End,
    /// A read inside the tag failed.
    Fail(ErrorKind),
}

/// Codec of an audio `SoundFormat`.
pub open spec fn flv_audio_codec(fmt: u8) -> CodecId {
    if fmt == 10 {
        CodecId::Aac
    } else if fmt == 2 || fmt == 14 {
        CodecId::Mp3
    } else if fmt == 11 {
        CodecId::Opus
    } else if fmt == 0 || fmt == 3 {
        CodecId::PcmS16le
    } else {
        CodecId::Unknown
    }
}

/// Sample rate of a new audio stream: 44100 for AAC, else from the
/// `SoundRate` field.
pub open spec fn flv_audio_rate(fmt: u8, idx: u8) -> u32 {
    if fmt == 10 {
        44100
    } else if idx == 0 {
        5512
    } else if idx == 1 {
        11025
    } else if idx == 2 {
        22050
    } else {
        44100
    }
}

/// The audio stream created at position `idx` by an audio tag header `h`.
pub open spec fn flv_audio_stream(idx: usize, h: u8) -> StreamView {
    StreamView {
        index: idx,
        media_type: MediaType::Audio,
        codec_id: flv_audio_codec(h / 16),
        time_base: Rational::new_spec(1, 1000),
        duration: -1i64,
        start_time: 0,
        nb_frames: 0,
        extra: seq![],
        params: StreamParams::Audio(
            AudioStreamParams {
                sample_rate: flv_audio_rate(h / 16, (h / 4) % 4),
                channel_layout: ChannelLayout { channels: if h % 2 == 1 { 2 } else { 1 } },
                sample_format: SampleFormat::F32,
                bit_rate: 0,
                frame_size: 1024,
            },
        ),
        metadata: seq![],
    }
}

/// The model after an audio tag header `h`: the audio stream is created
/// when there is none.
pub open spec fn with_audio(m: FlvModel, h: u8) -> FlvModel {
    if m.audio_idx is Some {
        m
    } else {
        FlvModel {
            streams: m.streams.push(flv_audio_stream(m.streams.len() as usize, h)),
            audio_idx: Some(m.streams.len() as usize),
            audio_codec: flv_audio_codec(h / 16),
            ..m
        }
    }
}

/// The model with `extra` as the codec data of stream `i` (when it exists).
pub open spec fn with_extra(m: FlvModel, i: int, extra: Seq<u8>) -> FlvModel {
    if 0 <= i < m.streams.len() {
        FlvModel { streams: m.streams.update(i, StreamView { extra, ..m.streams[i] }), ..m }
    } else {
        m
    }
}

/// Reading the body of an audio tag of `size` bytes at `b`: the step, the
/// model after it and the position after what was read.
#[verifier::opaque]
pub open spec fn flv_audio_body(d: Seq<u8>, b: int, size: u32, ts: u32, m: FlvModel) -> (FlvStep, FlvModel, int) {
    if size == 0 {
        (FlvStep::Skip, m, b)
    } else if b + 1 > d.len() {
        (FlvStep::Fail(ErrorKind::Eof), m, b)
    } else {
        let h = d[b];
        let m1 = with_audio(m, h);
        let ai = m1.audio_idx->Some_0;
        let rem = size - 1;
        if h / 16 == 10 {
            if rem < 1 {
                (FlvStep::Skip, m1, b + 1)
            } else if b + 2 > d.len() || b + 1 + rem > d.len() {
                (FlvStep::Fail(ErrorKind::Eof), m1, b)
            } else if d[b + 1] == 0 {
                (FlvStep::Skip, FlvModel { audio_cfg: true, ..with_extra(m1, ai as int, d.subrange(b + 2, b + 1 + rem)) }, b + 1 + rem)
            } else {
                (FlvStep::Packet(FlvPacket { stream_index: ai, payload: d.subrange(b + 2, b + 1 + rem), pts: ts as i64, dts: ts as i64, key: true }), m1, b + 1 + rem)
            }
        } else if b + 1 + rem > d.len() {
            (FlvStep::Fail(ErrorKind::Eof), m1, b)
        } else {
            (FlvStep::Packet(FlvPacket { stream_index: ai, payload: d.subrange(b + 1, b + 1 + rem), pts: ts as i64, dts: ts as i64, key: true }), m1, b + 1 + rem)
        }
    }
}

/// Codec of a video `CodecID`.
pub open spec fn flv_video_codec(cb: u8) -> CodecId {
    if cb == 2 {
        CodecId::Mpeg4
    } else if cb == 4 {
        CodecId::Vp8
    } else if cb == 7 {
        CodecId::H264
    } else if cb == 12 {
        CodecId::H265
    } else if cb == 13 {
        CodecId::Av1
    } else {
        CodecId::Unknown
    }
}

/// The video stream created at position `idx` by a video tag header `h`.
pub open spec fn flv_video_stream(idx: usize, h: u8) -> StreamView {
    StreamView {
        index: idx,
        media_type: MediaType::Video,
        codec_id: flv_video_codec(h % 16),
        time_base: Rational::new_spec(1, 1000),
        duration: -1i64,
        start_time: 0,
        nb_frames: 0,
        extra: seq![],
        params: StreamParams::Video(
            VideoStreamParams {
                width: 0,
                height: 0,
                pixel_format: PixelFormat::Yuv420p,
                frame_rate: Rational::new_spec(0, 1),
                sample_aspect_ratio: Rational::new_spec(1, 1),
                bit_rate: 0,
            },
        ),
        metadata: seq![],
    }
}

/// The model after a video tag header `h`: the video stream is created
/// when there is none.
pub open spec fn with_video(m: FlvModel, h: u8) -> FlvModel {
    if m.video_idx is Some {
        m
    } else {
        FlvModel {
            streams: m.streams.push(flv_video_stream(m.streams.len() as usize, h)),
            video_idx: Some(m.streams.len() as usize),
            video_codec: flv_video_codec(h % 16),
            ..m
        }
    }
}

/// A signed 24-bit composition time offset.
pub open spec fn cts_of(raw: u32) -> i64 {
    if raw >= 0x80_0000 { (raw - 0x100_0000) as i64 } else { raw as i64 }
}

/// Reading the body of a video tag of `size` bytes at `b`.
#[verifier::opaque]
pub open spec fn flv_video_body(d: Seq<u8>, b: int, size: u32, ts: u32, m: FlvModel) -> (FlvStep, FlvModel, int) {
    if size == 0 {
        (FlvStep::Skip, m, b)
    } else if b + 1 > d.len() {
        (FlvStep::Fail(ErrorKind::Eof), m, b)
    } else {
        let h = d[b];
        let cb = h % 16;
        let key = h / 16 == 1;
        let m1 = with_video(m, h);
        let vi = m1.video_idx->Some_0;
        let rem = size - 1;
        if cb == 7 || cb == 12 || cb == 13 {
            if rem < 4 {
                (FlvStep::Skip, m1, b + 1 + rem)
            } else if b + 5 > d.len() {
                (FlvStep::Fail(ErrorKind::Eof), m1, b)
            } else {
                let pt = d[b + 1];
                let cts = cts_of(be24_of(d, b + 2));
                let end = b + 1 + rem;
                if pt == 2 {
                    (FlvStep::Skip, m1, end)
                } else if end > d.len() {
                    (FlvStep::Fail(ErrorKind::Eof), m1, b)
                } else if pt == 0 {
                    (FlvStep::Skip, FlvModel { video_cfg: true, ..with_extra(m1, vi as int, d.subrange(b + 5, end)) }, end)
                } else {
                    (FlvStep::Packet(FlvPacket { stream_index: vi, payload: d.subrange(b + 5, end), pts: (ts + cts) as i64, dts: ts as i64, key }), m1, end)
                }
            }
        } else if b + 1 + rem > d.len() {
            (FlvStep::Fail(ErrorKind::Eof), m1, b)
        } else {
            (FlvStep::Packet(FlvPacket { stream_index: vi, payload: d.subrange(b + 1, b + 1 + rem), pts: ts as i64, dts: ts as i64, key }), m1, b + 1 + rem)
        }
    }
}

/// The biased exponent field of the bits of a double.
pub open spec fn f64_exp(bits: u64) -> int {
    (bits / 0x10_0000_0000_0000) as int % 0x800
}

/// The fraction field of the bits of a double.
pub open spec fn f64_frac(bits: u64) -> int {
    (bits % 0x10_0000_0000_0000) as int
}

/// Whether the double with these bits is positive and finite, which is
/// what `v > 0.0 && v.is_finite()` accepts.
pub open spec fn amf_positive(bits: u64) -> bool {
    &&& bits < 0x8000_0000_0000_0000
    &&& f64_exp(bits) != 0x7FF
    &&& (f64_exp(bits) != 0 || f64_frac(bits) != 0)
}

/// The significand of a finite double: its value is `sig * 2^ex`.
pub open spec fn f64_sig(bits: u64) -> int {
    if f64_exp(bits) == 0 { f64_frac(bits) } else { f64_frac(bits) + 0x10_0000_0000_0000 }
}

/// The exponent of a finite double: its value is `sig * 2^ex`.
pub open spec fn f64_ex(bits: u64) -> int {
    if f64_exp(bits) == 0 { -1074 } else { f64_exp(bits) - 1075 }
}

/// `m * 2^e` rounded down to an integer (`e` may be negative).
pub open spec fn scaled_floor(m: int, e: int) -> int {
    if e >= 0 { m * pow2(e as nat) } else { m / (pow2((-e) as nat) as int) }
}

/// A positive finite double converted with `as u32`: rounded toward zero,
/// saturated.
pub open spec fn amf_u32(bits: u64) -> u32 {
    let v = scaled_floor(f64_sig(bits), f64_ex(bits));
    if v > u32::MAX { u32::MAX } else { v as u32 }
}

/// `q` rounded to the nearest multiple of `2^sh`, ties to even, divided
/// by `2^sh`.
pub open spec fn round_even(q: int, sh: nat) -> int {
    let p = pow2(sh) as int;
    let t = q / p;
    let rem = q % p;
    let half = p / 2;
    if rem > half || (rem == half && t % 2 == 1) { t + 1 } else { t }
}

/// A positive finite double times 1000 (rounded to a double's 53 bits,
/// ties to even) converted with `as i64`: rounded toward zero, saturated.
pub open spec fn amf_ms(bits: u64) -> i64 {
    let q = f64_sig(bits) * 1000;
    let len = top_bit(q as nat) + 1;
    let (r, e) = if len <= 53 { (q, f64_ex(bits)) } else { (round_even(q, (len - 53) as nat), f64_ex(bits) + len - 53) };
    let v = scaled_floor(r, e);
    if v > i64::MAX { i64::MAX } else { v as i64 }
}

/// The first position at or after `i` where `key` occurs in `data`.
pub open spec fn find_from(data: Seq<u8>, key: Seq<u8>, i: int) -> Option<int>
    decreases data.len() + 1 - i,
{
    if i < 0 || i + key.len() > data.len() {
        None
    } else if data.subrange(i, i + key.len()) == key {
        Some(i)
    } else {
        find_from(data, key, i + 1)
    }
}

/// The bits of the AMF0 number that follows the first `key` in `data`:
/// a zero type byte then eight big-endian bytes.
pub open spec fn amf_number_after(data: Seq<u8>, key: Seq<u8>) -> Option<u64> {
    match find_from(data, key, 0) {
        Some(pos) => {
            let a = pos + key.len();
            if a + 9 <= data.len() && data[a] == 0 {
                Some((be32_of(data, a + 1) * 0x1_0000_0000 + be32_of(data, a + 5)) as u64)
            } else {
                None
            }
        },
        None => None,
    }
}

/// The `duration` key.
pub open spec fn duration_key() -> Seq<u8> {
    seq![0x64u8, 0x75, 0x72, 0x61, 0x74, 0x69, 0x6F, 0x6E]
}

/// The `width` key.
pub open spec fn width_key() -> Seq<u8> {
    seq![0x77u8, 0x69, 0x64, 0x74, 0x68]
}

/// The `height` key.
pub open spec fn height_key() -> Seq<u8> {
    seq![0x68u8, 0x65, 0x69, 0x67, 0x68, 0x74]
}

/// The model after a `width` (or `height`) number: a positive finite
/// value sets the video stream's width (height), converted with `as u32`.
pub open spec fn with_dim(m: FlvModel, nb: Option<u64>, is_width: bool) -> FlvModel {
    match nb {
        Some(b) => if amf_positive(b) && m.video_idx is Some && m.video_idx->Some_0 < m.streams.len()
            && m.streams[m.video_idx->Some_0 as int].params is Video {
            let i = m.video_idx->Some_0 as int;
            let v = m.streams[i].params->Video_0;
            let nv = if is_width { VideoStreamParams { width: amf_u32(b), ..v } } else { VideoStreamParams { height: amf_u32(b), ..v } };
            FlvModel { streams: m.streams.update(i, StreamView { params: StreamParams::Video(nv), ..m.streams[i] }), ..m }
        } else {
            m
        },
        None => m,
    }
}

/// The model after the data of a script tag: the first `duration`,
/// `width` and `height` numbers that are positive and finite are kept.
pub open spec fn flv_script_update(m: FlvModel, data: Seq<u8>) -> FlvModel {
    with_dim(
        with_dim(script_duration(m, data), amf_number_after(data, width_key()), true),
        amf_number_after(data, height_key()),
        false,
    )
}

/// The model after the `duration` number of a script tag.
pub open spec fn script_duration(m: FlvModel, data: Seq<u8>) -> FlvModel {
    match amf_number_after(data, duration_key()) {
        Some(b) => if amf_positive(b) { FlvModel { duration_bits: Some(b), ..m } } else { m },
        None => m,
    }
}

/// `m * 2^e` rounded down, saturated to `max`, for `m` below 2^64.
fn scale_floor_sat(m: u64, e: i32, max: u64) -> (r: u64)
    requires
        -1100 <= e <= 1100,
    ensures
        r == (if scaled_floor(m as int, e as int) > max { max as int } else { scaled_floor(m as int, e as int) }),
{
    proof {
        lemma2_to64();
    }
    if e >= 0 {
        if m > max {
            proof {
                lemma_pow2_pos(e as nat);
                assert(m * pow2(e as nat) >= m) by (nonlinear_arith)
                    requires
                        pow2(e as nat) >= 1,
                        m >= 0,
                ;
            }
            return max;
        }
        assert(pow2(0) == 1);
        assert(m * pow2(0) == m);
        let mut v: u64 = m;
        let mut i: i32 = 0;
        while i < e
            invariant
                0 <= i <= e,
                v == m * pow2(i as nat),
                v <= max,
            decreases e - i,
        {
            proof {
                lemma_pow2_unfold((i + 1) as nat);
            }
            if v > max / 2 {
                proof {
                    lemma_pow2_pos(i as nat);
                    if i + 1 < e {
                        lemma_pow2_strictly_increases((i + 1) as nat, e as nat);
                    }
                    assert(m * pow2(e as nat) >= m * pow2((i + 1) as nat)) by (nonlinear_arith)
                        requires
                            pow2(e as nat) >= pow2((i + 1) as nat),
                            m >= 0,
                    ;
                    assert(m * pow2((i + 1) as nat) == 2 * v) by (nonlinear_arith)
                        requires
                            v == m * pow2(i as nat),
                            pow2((i + 1) as nat) == 2 * pow2(i as nat),
                    ;
                }
                return max;
            }
            proof {
                assert(m * pow2((i + 1) as nat) == 2 * v) by (nonlinear_arith)
                    requires
                        v == m * pow2(i as nat),
                        pow2((i + 1) as nat) == 2 * pow2(i as nat),
                ;
            }
            v = v * 2;
            i = i + 1;
        }
        if v > max {
            max
        } else {
            v
        }
    } else {
        let k: i32 = -e;
        if k > 64 {
            proof {
                lemma_pow2_strictly_increases(64, k as nat);
                assert((m as int) / (pow2(k as nat) as int) == 0) by (nonlinear_arith)
                    requires
                        m < pow2(k as nat),
                        0 <= m,
                ;
            }
            return 0;
        }
        let mut p: u128 = 1;
        let mut i: i32 = 0;
        while i < k
            invariant
                0 <= i <= k <= 64,
                p == pow2(i as nat),
                pow2(i as nat) <= pow2(64),
                pow2(64) == 0x1_0000_0000_0000_0000,
            decreases k - i,
        {
            proof {
                lemma_pow2_unfold((i + 1) as nat);
                if i + 1 < 64 {
                    lemma_pow2_strictly_increases((i + 1) as nat, 64);
                }
            }
            p = p * 2;
            i = i + 1;
        }
        proof {
            lemma_pow2_pos(k as nat);
        }
        let v = (m as u128 / p) as u64;
        if v > max {
            max
        } else {
            v
        }
    }
}

/// The value `as u32` gives for a positive finite double.
fn amf_to_u32(bits: u64) -> (r: u32)
    ensures
        r == amf_u32(bits),
{
    let exp: u64 = (bits / 0x10_0000_0000_0000) % 0x800;
    let frac: u64 = bits % 0x10_0000_0000_0000;
    let (sig, ex): (u64, i32) = if exp == 0 {
        (frac, -1074)
    } else {
        (frac + 0x10_0000_0000_0000, exp as i32 - 1075)
    };
    scale_floor_sat(sig, ex, 0xFFFF_FFFF) as u32
}

/// The number of bits of `q`: one more than its top bit.
fn bit_len(q: u64) -> (r: u32)
    ensures
        r == top_bit(q as nat) + 1,
        r <= 64,
{
    proof {
        if q >= 1 {
            lemma_top_bit(q as nat);
            lemma2_to64();
            if top_bit(q as nat) > 64 {
                lemma_pow2_strictly_increases(64, top_bit(q as nat));
            }
        }
    }
    let mut k: u32 = 0;
    let mut t: u64 = q;
    while t > 1
        invariant
            top_bit(q as nat) == k + top_bit(t as nat),
            top_bit(q as nat) <= 63,
        decreases t,
    {
        t = t / 2;
        k = k + 1;
    }
    k + 1
}

/// `q` rounded to a multiple of `2^sh`, ties to even, divided by `2^sh`.
fn round_even_exec(q: u64, sh: u32) -> (r: u64)
    requires
        1 <= sh <= 16,
    ensures
        r == round_even(q as int, sh as nat),
{
    let mut p: u64 = 1;
    let mut i: u32 = 0;
    proof {
        lemma2_to64();
    }
    while i < sh
        invariant
            i <= sh <= 16,
            p == pow2(i as nat),
            pow2(i as nat) <= pow2(16),
            pow2(16) == 0x1_0000,
        decreases sh - i,
    {
        proof {
            lemma_pow2_unfold((i + 1) as nat);
            if i + 1 < 16 {
                lemma_pow2_strictly_increases((i + 1) as nat, 16);
            }
        }
        p = p * 2;
        i = i + 1;
    }
    proof {
        lemma_pow2_pos(sh as nat);
        lemma_pow2_unfold(sh as nat);
        lemma_pow2_pos((sh - 1) as nat);
    }
    let t = q / p;
    assert(t < 0xFFFF_FFFF_FFFF_FFFF) by (nonlinear_arith)
        requires
            p >= 2,
            t == q / p,
            q <= 0xFFFF_FFFF_FFFF_FFFF,
    ;
    let rem = q % p;
    let half = p / 2;
    if rem > half || (rem == half && t % 2 == 1) {
        t + 1
    } else {
        t
    }
}

/// The value `(v * 1000.0) as i64` gives for a positive finite double.
fn amf_to_ms(bits: u64) -> (r: i64)
    ensures
        r == amf_ms(bits),
{
    let exp: u64 = (bits / 0x10_0000_0000_0000) % 0x800;
    let frac: u64 = bits % 0x10_0000_0000_0000;
    let (sig, ex): (u64, i32) = if exp == 0 {
        (frac, -1074)
    } else {
        (frac + 0x10_0000_0000_0000, exp as i32 - 1075)
    };
    assert(sig * 1000 < 0x8000_0000_0000_0000) by (nonlinear_arith)
        requires
            sig < 0x20_0000_0000_0000,
    ;
    let q: u64 = sig * 1000;
    let len = bit_len(q);
    let (rr, e): (u64, i32) = if len <= 53 {
        (q, ex)
    } else {
        let sh = len - 53;
        (round_even_exec(q, sh), ex + sh as i32)
    };
    let v = scale_floor_sat(rr, e, 0x7FFF_FFFF_FFFF_FFFF);
    v as i64
}

/// Reading the body of a script tag of `size` bytes at `b`.
#[verifier::opaque]
pub open spec fn flv_script_body(d: Seq<u8>, b: int, size: u32, m: FlvModel) -> (FlvStep, FlvModel, int) {
    if size > 0 && b + size > d.len() {
        (FlvStep::Fail(ErrorKind::Eof), m, b)
    } else {
        (FlvStep::Skip, flv_script_update(m, d.subrange(b, b + size)), b + size)
    }
}

/// The timestamp of the tag at `p`: 24 bits and an extension byte on top.
pub open spec fn flv_ts(d: Seq<u8>, p: int) -> u32 {
    (be24_of(d, p + 4) + d[p + 7] * 0x100_0000) as u32
}

/// Reading the whole tag at `p` (header, body, previous tag size): the
/// step, the model after it and the position after it.
pub open spec fn flv_tag(d: Seq<u8>, p: int, m: FlvModel) -> (FlvStep, FlvModel, int) {
    if p < 0 || p + 11 > d.len() {
        (FlvStep::End, m, p)
    } else {
        let ty = d[p];
        let size = be24_of(d, p + 1);
        let ts = flv_ts(d, p);
        let b = p + 11;
        let body = if ty == 8 {
            flv_audio_body(d, b, size, ts, m)
        } else if ty == 9 {
            flv_video_body(d, b, size, ts, m)
        } else if ty == 18 {
            flv_script_body(d, b, size, m)
        } else {
            (FlvStep::Skip, m, b + size)
        };
        if body.0 is Fail {
            body
        } else if body.2 + 4 > d.len() {
            (FlvStep::Fail(ErrorKind::Eof), body.1, body.2)
        } else {
            (body.0, body.1, body.2 + 4)
        }
    }
}

/// What `read_packet` finds from `p`: the first tag that gives a packet,
/// the model after it and the position after it, or the error that stops
/// the reading (`Eof` when the tags run out).
pub open spec fn flv_next(d: Seq<u8>, p: int, m: FlvModel) -> (Result<FlvPacket, ErrorKind>, FlvModel, int)
    decreases d.len() + 1 - p,
{
    let (st, m1, q) = flv_tag(d, p, m);
    match st {
        FlvStep::End => (Err(ErrorKind::Eof), m1, q),
        FlvStep::Fail(k) => (Err(k), m1, q),
        FlvStep::Packet(f) => (Ok(f), m1, q),
        FlvStep::Skip => if p < q <= d.len() {
            flv_next(d, q, m1)
        } else {
            (Err(ErrorKind::Eof), m1, q)
        },
    }
}

/// The tags `open` reads ahead from `p` (the `n`-th so far): it stops when
/// the tags run out, after six tags, or once both an audio and a video
/// stream exist; a failed read inside a tag is an error.
pub open spec fn flv_probe(d: Seq<u8>, p: int, m: FlvModel, n: nat) -> (Option<ErrorKind>, FlvModel)
    decreases 32 - n,
{
    if n >= 32 {
        (None, m)
    } else {
        let (st, m1, q) = flv_tag(d, p, m);
        match st {
            FlvStep::End => (None, m1),
            FlvStep::Fail(k) => (Some(k), m1),
            _ => if n + 1 > 5 || (m1.audio_idx is Some && m1.video_idx is Some) {
                (None, m1)
            } else {
                flv_probe(d, q, m1, n + 1)
            },
        }
    }
}

/// The streams with the duration of a positive `onMetaData` duration, in
/// milliseconds.
pub open spec fn with_durations(m: FlvModel) -> Seq<StreamView> {
    match m.duration_bits {
        Some(b) => with_duration_ms(m, amf_ms(b)).streams,
        None => m.streams,
    }
}

/// A stream with duration `ms`.
pub open spec fn view_with_duration(v: StreamView, ms: i64) -> StreamView {
    StreamView { duration: ms, ..v }
}

/// The model with every stream's duration set to `ms`.
pub open spec fn with_duration_ms(m: FlvModel, ms: i64) -> FlvModel {
    FlvModel { streams: Seq::new(m.streams.len(), |i: int| view_with_duration(m.streams[i], ms)), ..m }
}

/// The `FLV` signature.
pub open spec fn flv_sig() -> Seq<u8> {
    seq![0x46u8, 0x4C, 0x56]
}

/// What `open` does from `p`: the outcome and the model after it.
pub open spec fn flv_open(d: Seq<u8>, p: int, m: FlvModel) -> (Result<(), ErrorKind>, FlvModel) {
    if p + 3 > d.len() {
        (Err(ErrorKind::Eof), m)
    } else if d.subrange(p, p + 3) != flv_sig() {
        (Err(ErrorKind::InvalidData), m)
    } else if p + 9 > d.len() {
        (Err(ErrorKind::Eof), m)
    } else {
        let off = be32_of(d, p + 5);
        let m0 = FlvModel { data_offset: off as u64, ..m };
        if off + 4 > d.len() {
            (Err(ErrorKind::Eof), m0)
        } else {
            let (k, m1) = flv_probe(d, off + 4, m0, 0);
            if k is Some {
                (Err(k->Some_0), m1)
            } else if m1.streams.len() == 0 {
                (Err(ErrorKind::InvalidData), m1)
            } else {
                (Ok(()), FlvModel { streams: with_durations(m1), audio_cfg: false, video_cfg: false, ..m1 })
            }
        }
    }
}

/// Reading a tag leaves the data offset alone.
pub proof fn lemma_tag_keeps_offset(d: Seq<u8>, p: int, m: FlvModel)
    ensures
        flv_tag(d, p, m).1.data_offset == m.data_offset,
{
    reveal(flv_audio_body);
    reveal(flv_video_body);
    reveal(flv_script_body);
}

/// Reading ahead leaves the data offset alone.
pub proof fn lemma_probe_keeps_offset(d: Seq<u8>, p: int, m: FlvModel, n: nat)
    ensures
        flv_probe(d, p, m, n).1.data_offset == m.data_offset,
    decreases 32 - n,
{
    lemma_tag_keeps_offset(d, p, m);
    if n < 32 {
        let (st, m1, q) = flv_tag(d, p, m);
        lemma_probe_keeps_offset(d, q, m1, n + 1);
    }
}

/// What reading one tag gave.
pub enum TagRead {
    /// A packet.
    Packet(Packet),
    /// A tag without a packet.
    Skip,
    /// No tag header left.
    End,
    /// A read inside the tag failed.
    Fail(TaoError),
}

/// Whether a bits pattern is a positive finite double.
fn is_positive_finite(bits: u64) -> (r: bool)
    ensures
        r == amf_positive(bits),
{
    let exp: u64 = (bits / 0x10_0000_0000_0000) % 0x800;
    let frac: u64 = bits % 0x10_0000_0000_0000;
    bits < 0x8000_0000_0000_0000 && exp != 0x7FF && (exp != 0 || frac != 0)
}

/// Whether `key` occurs in `data` at `i`.
fn matches_at(data: &[u8], i: usize, key: &[u8]) -> (r: bool)
    requires
        i + key@.len() <= data@.len(),
    ensures
        r == (data@.subrange(i as int, i + key@.len()) == key@),
{
    let n = data.len();
    let mut j: usize = 0;
    while j < key.len()
        invariant
            j <= key@.len(),
            n == data@.len(),
            i + key@.len() <= data@.len(),
            data@.subrange(i as int, i + j) == key@.subrange(0, j as int),
        decreases key.len() - j,
    {
        if data[i + j] != key[j] {
            assert(data@.subrange(i as int, i + key@.len())[j as int] != key@[j as int]);
            return false;
        }
        assert(data@.subrange(i as int, i + j + 1) =~= key@.subrange(0, j + 1));
        j = j + 1;
    }
    assert(key@.subrange(0, key@.len() as int) =~= key@);
    true
}

/// Where `find_from` finds `key`, it occurs, at or after the start.
proof fn lemma_find_from(data: Seq<u8>, key: Seq<u8>, i: int)
    ensures
        find_from(data, key, i) matches Some(j) ==> i <= j && 0 <= j && j + key.len() <= data.len() && data.subrange(
            j,
            j + key.len(),
        ) == key,
    decreases data.len() + 1 - i,
{
    if !(i < 0 || i + key.len() > data.len()) && data.subrange(i, i + key.len()) != key {
        lemma_find_from(data, key, i + 1);
    }
}

/// The first position of `key` in `data`.
fn find_key(data: &[u8], key: &[u8]) -> (r: Option<usize>)
    ensures
        r matches Some(i) ==> find_from(data@, key@, 0) == Some(i as int) && i + key@.len() <= data@.len(),
        r is None ==> find_from(data@, key@, 0) is None,
{
    proof {
        lemma_find_from(data@, key@, 0);
    }
    if key.len() > data.len() {
        return None;
    }
    let limit = data.len() - key.len();
    let mut i: usize = 0;
    loop
        invariant
            key@.len() <= data@.len(),
            limit == data@.len() - key@.len(),
            i <= limit,
            find_from(data@, key@, 0) == find_from(data@, key@, i as int),
        decreases limit - i,
    {
        if matches_at(data, i, key) {
            return Some(i);
        }
        if i == limit {
            assert(find_from(data@, key@, (i + 1) as int) is None);
            return None;
        }
        i = i + 1;
    }
}

/// The bits of the AMF0 number after the first `key` in `data`.
fn number_after(data: &[u8], key: &[u8]) -> (r: Option<u64>)
    ensures
        r == amf_number_after(data@, key@),
{
    match find_key(data, key) {
        Some(pos) => {
            if key.len() <= data.len() - pos && 9 <= data.len() - pos - key.len() && data[pos + key.len()] == 0 {
                let a = pos + key.len();
                let hi = crate::endian::u32_from_be(data[a + 1], data[a + 2], data[a + 3], data[a + 4]);
                let lo = crate::endian::u32_from_be(data[a + 5], data[a + 6], data[a + 7], data[a + 8]);
                assert(hi as u64 * 0x1_0000_0000 + lo as u64 <= u64::MAX) by (nonlinear_arith)
                    requires
                        hi <= u32::MAX,
                        lo <= u32::MAX,
                ;
                assert(hi == be32_of(data@, a + 1));
                assert(lo == be32_of(data@, a + 5));
                Some(hi as u64 * 0x1_0000_0000 + lo as u64)
            } else {
                None
            }
        },
        None => None,
    }
}

/// Reader of FLV files.
pub struct FlvDemuxer {
    streams: Vec<Stream>,
    audio_stream_idx: Option<usize>,
    video_stream_idx: Option<usize>,
    audio_codec_id: CodecId,
    video_codec_id: CodecId,
    duration_bits: Option<u64>,
    data_offset: u64,
    audio_config_received: bool,
    video_config_received: bool,
    metadata: Vec<(String, String)>,
}

impl FlvDemuxer {
    /// The reader's state as plain values.
    pub closed spec fn model(&self) -> FlvModel {
        FlvModel {
            streams: stream_views(self.streams@),
            audio_idx: self.audio_stream_idx,
            video_idx: self.video_stream_idx,
            audio_codec: self.audio_codec_id,
            video_codec: self.video_codec_id,
            audio_cfg: self.audio_config_received,
            video_cfg: self.video_config_received,
            duration_bits: self.duration_bits,
            data_offset: self.data_offset,
        }
    }

    /// The streams.
    pub closed spec fn stream_list(&self) -> Seq<Stream> {
        self.streams@
    }

    /// The container metadata (FLV keeps none).
    pub closed spec fn meta(&self) -> Seq<(String, String)> {
        self.metadata@
    }

    /// Sets the codec data of stream `i`, when there is one.
    fn set_extra(&mut self, i: usize, extra: Vec<u8>)
        ensures
            final(self).model() == with_extra(old(self).model(), i as int, extra@),
            final(self).streams@.len() == old(self).streams@.len(),
            final(self).audio_stream_idx == old(self).audio_stream_idx,
            final(self).video_stream_idx == old(self).video_stream_idx,
    {
        if i >= self.streams.len() {
            return;
        }
        let mut s = self.streams.remove(i);
        s.extra_data = extra;
        self.streams.insert(i, s);
        assert(stream_views(self.streams@) =~= with_extra(old(self).model(), i as int, extra@).streams);
    }

    /// A reader before `open`.
    pub fn new() -> (r: Self)
        ensures
            r.model().streams.len() == 0,
            r.model().audio_idx is None,
            r.model().video_idx is None,
            r.model().duration_bits is None,
            r.model().data_offset == 0,
            r.model().audio_codec == CodecId::Unknown,
            r.model().video_codec == CodecId::Unknown,
            !r.model().audio_cfg,
            !r.model().video_cfg,
            r.meta().len() == 0,
    {
        FlvDemuxer {
            streams: Vec::new(),
            audio_stream_idx: None,
            video_stream_idx: None,
            audio_codec_id: CodecId::Unknown,
            video_codec_id: CodecId::Unknown,
            duration_bits: None,
            data_offset: 0,
            audio_config_received: false,
            video_config_received: false,
            metadata: Vec::new(),
        }
    }

    /// A boxed reader, for a registry.
    pub fn create() -> (r: TaoResult<Box<dyn Demuxer>>)
        ensures
            r matches Ok(d) && d.format_kind() == FormatId::Flv && d.stream_seq().len() == 0,
    {
        Ok(Box::new(FlvDemuxer::new()))
    }

    /// What `read_packet` does: reads tags from the cursor until one gives
    /// a packet (see `flv_next`).
    pub open spec fn read_post(old_self: Self, new_self: Self, old_io: IoContext, new_io: IoContext, r: TaoResult<Packet>) -> bool {
        let (res, m, q) = flv_next(old_io.contents(), old_io.cursor() as int, old_self.model());
        &&& new_io.contents() == old_io.contents()
        &&& new_self.model() == m
        &&& match res {
            Ok(f) => r matches Ok(pk) && flv_packet_is(pk, f) && new_io.cursor() == q,
            Err(k) => r matches Err(e) && e.kind() == k,
        }
    }

    /// Reads tags until one gives a packet.
    pub fn read_flv_packet(&mut self, io: &mut IoContext) -> (r: TaoResult<Packet>)
        requires
            io_in_range(*old(io)),
        ensures
            Self::read_post(*old(self), *final(self), *old(io), *final(io), r),
    {
        let ghost d = io.contents();
        let ghost target = flv_next(d, io.cursor() as int, self.model());
        loop
            invariant
                io.contents() == d,
                d == old(io).contents(),
                io_in_range(*io),
                target == flv_next(d, io.cursor() as int, self.model()),
                target == flv_next(old(io).contents(), old(io).cursor() as int, old(self).model()),
            decreases d.len() + 1 - io.cursor(),
        {
            let ghost c = io.cursor() as int;
            let ghost before = self.model();
            assert(target == flv_next(d, c, before));
            let t = self.read_tag(io);
            proof {
                let (st, m1, q) = flv_tag(d, c, before);
                assert(self.model() == m1);
                assert(flv_next(d, c, before) == match st {
                    FlvStep::End => (Err(ErrorKind::Eof), m1, q),
                    FlvStep::Fail(k) => (Err(k), m1, q),
                    FlvStep::Packet(f) => (Ok(f), m1, q),
                    FlvStep::Skip => if c < q <= d.len() {
                        flv_next(d, q, m1)
                    } else {
                        (Err(ErrorKind::Eof), m1, q)
                    },
                });
            }
            match t {
                TagRead::End => {
                    return Err(TaoError::Eof);
                },
                TagRead::Fail(e) => {
                    return Err(e);
                },
                TagRead::Packet(p) => {
                    return Ok(p);
                },
                TagRead::Skip => {},
            }
        }
    }

    /// Sets the duration of every stream.
    fn set_durations(&mut self, ms: i64)
        ensures
            final(self).model() == with_duration_ms(old(self).model(), ms),
    {
        let n = self.streams.len();
        let mut i: usize = 0;
        while i < n
            invariant
                i <= n,
                n == self.streams@.len(),
                self.audio_stream_idx == old(self).audio_stream_idx,
                self.video_stream_idx == old(self).video_stream_idx,
                self.audio_codec_id == old(self).audio_codec_id,
                self.video_codec_id == old(self).video_codec_id,
                self.duration_bits == old(self).duration_bits,
                self.data_offset == old(self).data_offset,
                self.audio_config_received == old(self).audio_config_received,
                self.video_config_received == old(self).video_config_received,
                old(self).streams@.len() == n,
                forall|k: int| 0 <= k < i ==> stream_view(#[trigger] self.streams@[k]) == view_with_duration(stream_view(old(self).streams@[k]), ms),
                forall|k: int| i <= k < n ==> #[trigger] self.streams@[k] == old(self).streams@[k],
            decreases n - i,
        {
            let mut st = self.streams.remove(i);
            st.duration = ms;
            self.streams.insert(i, st);
            i = i + 1;
        }
        assert(stream_views(self.streams@) =~= with_duration_ms(old(self).model(), ms).streams);
    }

    /// What `open` does (see `flv_open`); on success the cursor is after the
    /// first previous-tag size, ready for the first tag.
    pub open spec fn open_post(old_self: Self, new_self: Self, old_io: IoContext, new_io: IoContext, r: TaoResult<()>) -> bool {
        let (res, m) = flv_open(old_io.contents(), old_io.cursor() as int, old_self.model());
        &&& new_io.contents() == old_io.contents()
        &&& new_self.model() == m
        &&& match res {
            Ok(_) => r is Ok && new_io.cursor() == m.data_offset + 4,
            Err(k) => r matches Err(e) && e.kind() == k,
        }
    }

    /// Reads the header, reads ahead a few tags to find the streams, and
    /// goes back to the first tag.
    pub fn open_flv(&mut self, io: &mut IoContext) -> (r: TaoResult<()>)
        requires
            io_in_range(*old(io)),
        ensures
            Self::open_post(*old(self), *final(self), *old(io), *final(io), r),
    {
        let ghost d = io.contents();
        let ghost p = io.cursor() as int;
        let sig = io.read_bytes(3)?;
        assert(sig@ =~= d.subrange(p, p + 3));
        if !(sig[0] == 0x46 && sig[1] == 0x4C && sig[2] == 0x56) {
            assert(sig@ != flv_sig());
            return Err(invalid_data("not an FLV file"));
        }
        assert(sig@ =~= flv_sig());
        let _version = io.read_u8()?;
        let _flags = io.read_u8()?;
        let data_offset = io.read_u32_be()?;
        self.data_offset = data_offset as u64;
        let _ = io.seek(SeekFrom::Start(self.data_offset));
        let _prev_size = io.read_u32_be()?;
        let ghost m0 = self.model();
        let mut tags_read: u32 = 0;
        loop
            invariant_except_break
                tags_read < 32,
                flv_probe(d, data_offset + 4, m0, 0) == flv_probe(d, io.cursor() as int, self.model(), tags_read as nat),
            invariant
                io.contents() == d,
                d == old(io).contents(),
                io_in_range(*io),
                self.data_offset == data_offset,
                flv_probe(d, data_offset + 4, m0, 0).0 is Some ==> flv_open(old(io).contents(), old(io).cursor() as int, old(self).model())
                    == (Err::<(), ErrorKind>(flv_probe(d, data_offset + 4, m0, 0).0->Some_0), flv_probe(d, data_offset + 4, m0, 0).1),
            ensures
                flv_probe(d, data_offset + 4, m0, 0) == (None::<ErrorKind>, self.model()),
            decreases 32 - tags_read,
        {
            let ghost before = self.model();
            let ghost c = io.cursor() as int;
            let ghost n = tags_read as nat;
            let t = self.read_tag(io);
            proof {
                let (st, m1, q) = flv_tag(d, c, before);
                assert(flv_probe(d, c, before, n) == match st {
                    FlvStep::End => (None, m1),
                    FlvStep::Fail(k) => (Some(k), m1),
                    _ => if n + 1 > 5 || (m1.audio_idx is Some && m1.video_idx is Some) {
                        (None, m1)
                    } else {
                        flv_probe(d, q, m1, n + 1)
                    },
                });
            }
            match t {
                TagRead::End => {
                    break;
                },
                TagRead::Fail(e) => {
                    return Err(e);
                },
                _ => {},
            }
            tags_read = tags_read + 1;
            let has_audio = self.audio_stream_idx.is_some();
            let has_video = self.video_stream_idx.is_some();
            if tags_read > 5 || (has_audio && has_video) {
                break;
            }
        }
        proof {
            lemma_probe_keeps_offset(d, data_offset + 4, m0, 0);
        }
        if self.streams.len() == 0 {
            return Err(invalid_data("FLV: no audio or video stream"));
        }
        match self.duration_bits {
            Some(b) => {
                let ms = amf_to_ms(b);
                self.set_durations(ms);
            },
            None => {},
        }
        let _ = io.seek(SeekFrom::Start(self.data_offset));
        let _prev = io.read_u32_be()?;
        self.audio_config_received = false;
        self.video_config_received = false;
        Ok(())
    }

    /// Applies a `width` (or `height`) number to the video stream.
    fn apply_dim(&mut self, nb: Option<u64>, is_width: bool)
        ensures
            final(self).model() == with_dim(old(self).model(), nb, is_width),
    {
        let b = match nb {
            Some(b) => b,
            None => {
                return;
            },
        };
        if !is_positive_finite(b) {
            return;
        }
        let vi = match self.video_stream_idx {
            Some(i) => i,
            None => {
                return;
            },
        };
        if vi >= self.streams.len() {
            return;
        }
        let val = amf_to_u32(b);
        let mut st = self.streams.remove(vi);
        let np = match &st.params {
            StreamParams::Video(v) => {
                if is_width {
                    Some(VideoStreamParams {
                        width: val,
                        height: v.height,
                        pixel_format: v.pixel_format,
                        frame_rate: v.frame_rate,
                        sample_aspect_ratio: v.sample_aspect_ratio,
                        bit_rate: v.bit_rate,
                    })
                } else {
                    Some(VideoStreamParams {
                        width: v.width,
                        height: val,
                        pixel_format: v.pixel_format,
                        frame_rate: v.frame_rate,
                        sample_aspect_ratio: v.sample_aspect_ratio,
                        bit_rate: v.bit_rate,
                    })
                }
            },
            _ => None,
        };
        match np {
            Some(p) => {
                st.params = StreamParams::Video(p);
            },
            None => {},
        }
        self.streams.insert(vi, st);
        assert(stream_views(self.streams@) =~= with_dim(old(self).model(), nb, is_width).streams);
    }

    /// Reads the data of a script tag and keeps the positive `duration`,
    /// `width` and `height` numbers of its `onMetaData`.
    fn parse_script_tag(&mut self, io: &mut IoContext, data_size: u32) -> (r: TaoResult<()>)
        requires
            data_size < 0x100_0000,
            old(io).cursor() <= old(io).contents().len(),
        ensures
            final(self).data_offset == old(self).data_offset,
            final(io).contents() == old(io).contents(),
            final(io).cursor() <= old(io).contents().len() + 0x100_0000,
            ({
                let (st, m, q) = flv_script_body(old(io).contents(), old(io).cursor() as int, data_size, old(self).model());
                &&& final(self).model() == m
                &&& match st {
                    FlvStep::Skip => r is Ok && final(io).cursor() == q && q >= old(io).cursor(),
                    FlvStep::Fail(k) => r matches Err(e) && e.kind() == k,
                    _ => false,
                }
            }),
    {
        reveal(flv_script_body);
        let ghost d = io.contents();
        let ghost b = io.cursor() as int;
        let data = io.read_bytes(data_size as usize)?;
        assert(data@ =~= d.subrange(b, b + data_size));
        let dk: [u8; 8] = [0x64, 0x75, 0x72, 0x61, 0x74, 0x69, 0x6F, 0x6E];
        let wk: [u8; 5] = [0x77, 0x69, 0x64, 0x74, 0x68];
        let hk: [u8; 6] = [0x68, 0x65, 0x69, 0x67, 0x68, 0x74];
        assert(dk@ =~= duration_key());
        assert(wk@ =~= width_key());
        assert(hk@ =~= height_key());
        let ghost m0 = self.model();
        match number_after(data.as_slice(), dk.as_slice()) {
            Some(bits) => {
                if is_positive_finite(bits) {
                    self.duration_bits = Some(bits);
                }
            },
            None => {},
        }
        assert(self.model() == script_duration(m0, data@));
        let w = number_after(data.as_slice(), wk.as_slice());
        self.apply_dim(w, true);
        let h = number_after(data.as_slice(), hk.as_slice());
        self.apply_dim(h, false);
        assert(self.model() == flv_script_update(m0, data@));
        Ok(())
    }

    /// Reads a tag header: type, data size, timestamp (24 bits and an
    /// extension byte), stream id.
    fn read_tag_header(io: &mut IoContext) -> (r: TaoResult<(u8, u32, u32)>)
        ensures
            final(io).contents() == old(io).contents(),
            final(io).cursor() <= old(io).cursor() || final(io).cursor() <= old(io).contents().len(),
            ({
                let d = old(io).contents();
                let p = old(io).cursor() as int;
                if p + 11 > d.len() {
                    r is Err
                } else {
                    r == Ok::<(u8, u32, u32), TaoError>((d[p], be24_of(d, p + 1), flv_ts(d, p)))
                        && final(io).cursor() == p + 11
                }
            }),
    {
        let tag_type = io.read_u8()?;
        let data_size = io.read_u24_be()?;
        let timestamp_low = io.read_u24_be()?;
        let timestamp_ext = io.read_u8()?;
        let timestamp = timestamp_ext as u32 * 0x100_0000 + timestamp_low;
        let _stream_id = io.read_u24_be()?;
        Ok((tag_type, data_size, timestamp))
    }

    /// Reads one whole tag at the cursor.
    fn read_tag(&mut self, io: &mut IoContext) -> (r: TagRead)
        requires
            old(io).contents().len() <= 0x1_0000_0000_0000,
            old(io).cursor() <= 0x10_0000_0000_0000,
            0x40_0000_0000_0000 <= usize::MAX,
        ensures
            final(self).data_offset == old(self).data_offset,
            final(io).contents() == old(io).contents(),
            final(io).cursor() <= old(io).cursor() || final(io).cursor() <= old(io).contents().len() + 0x100_0010,
            ({
                let (st, m, q) = flv_tag(old(io).contents(), old(io).cursor() as int, old(self).model());
                &&& final(self).model() == m
                &&& match st {
                    FlvStep::End => r is End,
                    FlvStep::Fail(k) => r matches TagRead::Fail(e) && e.kind() == k,
                    FlvStep::Skip => r is Skip && final(io).cursor() == q && old(io).cursor() < q <= old(io).contents().len(),
                    FlvStep::Packet(f) => r matches TagRead::Packet(pk) && flv_packet_is(pk, f) && final(io).cursor() == q
                        && old(io).cursor() < q <= old(io).contents().len(),
                }
            }),
    {
        let (tag_type, data_size, timestamp) = match Self::read_tag_header(io) {
            Ok(v) => v,
            Err(_) => {
                return TagRead::End;
            },
        };
        let pkt: Option<Packet> = if tag_type == 8 {
            match self.handle_audio_tag(io, data_size, timestamp) {
                Ok(p) => p,
                Err(e) => {
                    return TagRead::Fail(e);
                },
            }
        } else if tag_type == 9 {
            match self.handle_video_tag(io, data_size, timestamp) {
                Ok(p) => p,
                Err(e) => {
                    return TagRead::Fail(e);
                },
            }
        } else if tag_type == 18 {
            match self.parse_script_tag(io, data_size) {
                Ok(()) => None,
                Err(e) => {
                    return TagRead::Fail(e);
                },
            }
        } else {
            let _ = io.skip(data_size as usize);
            None
        };
        match io.read_u32_be() {
            Ok(_) => {},
            Err(e) => {
                return TagRead::Fail(e);
            },
        }
        match pkt {
            Some(p) => TagRead::Packet(p),
            None => TagRead::Skip,
        }
    }

    /// Handles the body of an audio tag of `data_size` bytes at the
    /// cursor: creates the audio stream when there is none, keeps an AAC
    /// sequence header as the stream's codec data, and returns the payload
    /// of any other tag as a packet.
    fn handle_audio_tag(&mut self, io: &mut IoContext, data_size: u32, timestamp: u32) -> (r: TaoResult<Option<Packet>>)
        requires
            data_size < 0x100_0000,
            old(io).contents().len() <= 0x1_0000_0000_0000,
            old(io).cursor() <= old(io).contents().len(),
            0x40_0000_0000_0000 <= usize::MAX,
        ensures
            final(self).data_offset == old(self).data_offset,
            final(io).contents() == old(io).contents(),
            final(io).cursor() <= old(io).contents().len() + 0x100_0000,
            ({
                let (st, m, q) = flv_audio_body(old(io).contents(), old(io).cursor() as int, data_size, timestamp, old(self).model());
                &&& final(self).model() == m
                &&& match st {
                    FlvStep::Skip => r matches Ok(None) && final(io).cursor() == q && q >= old(io).cursor(),
                    FlvStep::Packet(f) => r matches Ok(Some(p)) && flv_packet_is(p, f) && final(io).cursor() == q
                        && q >= old(io).cursor(),
                    FlvStep::Fail(k) => r matches Err(e) && e.kind() == k,
                    FlvStep::End => false,
                }
            }),
    {
        reveal(flv_audio_body);
        let ghost d = io.contents();
        let ghost b = io.cursor() as int;
        if data_size == 0 {
            return Ok(None);
        }
        let audio_header = io.read_u8()?;
        let sound_format = audio_header / 16;
        let sound_rate_idx = (audio_header / 4) % 4;
        let sound_type = audio_header % 2;
        let codec_id = if sound_format == 10 {
            CodecId::Aac
        } else if sound_format == 2 || sound_format == 14 {
            CodecId::Mp3
        } else if sound_format == 11 {
            CodecId::Opus
        } else if sound_format == 0 || sound_format == 3 {
            CodecId::PcmS16le
        } else {
            CodecId::Unknown
        };
        if self.audio_stream_idx.is_none() {
            let sample_rate: u32 = if sound_rate_idx == 0 {
                5512
            } else if sound_rate_idx == 1 {
                11025
            } else if sound_rate_idx == 2 {
                22050
            } else {
                44100
            };
            let sr: u32 = if sound_format == 10 {
                44100
            } else {
                sample_rate
            };
            let channels: u32 = if sound_type == 1 {
                2
            } else {
                1
            };
            let idx = self.streams.len();
            self.audio_stream_idx = Some(idx);
            self.audio_codec_id = codec_id;
            let stream = Stream {
                index: idx,
                media_type: MediaType::Audio,
                codec_id,
                time_base: Rational::new(1, 1000),
                duration: -1,
                start_time: 0,
                nb_frames: 0,
                extra_data: Vec::new(),
                params: StreamParams::Audio(
                    AudioStreamParams {
                        sample_rate: sr,
                        channel_layout: ChannelLayout::from_channels(channels),
                        sample_format: SampleFormat::F32,
                        bit_rate: 0,
                        frame_size: 1024,
                    },
                ),
                metadata: Vec::new(),
            };
            self.streams.push(stream);
            assert(stream_views(self.streams@) =~= with_audio(old(self).model(), audio_header).streams);
        }
        assert(self.model() == with_audio(old(self).model(), audio_header));
        let remaining = data_size - 1;
        let stream_index = match self.audio_stream_idx {
            Some(i) => i,
            None => 0,
        };
        if sound_format == 10 {
            if remaining < 1 {
                return Ok(None);
            }
            let aac_packet_type = io.read_u8()?;
            let payload_size = remaining - 1;
            if aac_packet_type == 0 {
                let config = io.read_bytes(payload_size as usize)?;
                assert(config@ =~= d.subrange(b + 2, b + 1 + remaining));
                self.set_extra(stream_index, config);
                self.audio_config_received = true;
                return Ok(None);
            }
            let data = io.read_bytes(payload_size as usize)?;
            assert(data@ =~= d.subrange(b + 2, b + 1 + remaining));
            let mut pkt = Packet::from_vec(data);
            pkt.stream_index = stream_index;
            pkt.pts = timestamp as i64;
            pkt.dts = timestamp as i64;
            pkt.is_keyframe = true;
            pkt.time_base = Rational::new(1, 1000);
            return Ok(Some(pkt));
        }
        let data = io.read_bytes(remaining as usize)?;
        assert(data@ =~= d.subrange(b + 1, b + 1 + remaining));
        let mut pkt = Packet::from_vec(data);
        pkt.stream_index = stream_index;
        pkt.pts = timestamp as i64;
        pkt.dts = timestamp as i64;
        pkt.is_keyframe = true;
        pkt.time_base = Rational::new(1, 1000);
        Ok(Some(pkt))
    }

    /// Handles the body of a video tag of `data_size` bytes at the
    /// cursor: creates the video stream when there is none; for AVC, HEVC
    /// and AV1 keeps a sequence header as codec data, skips an end of
    /// sequence and applies the composition time offset; returns the
    /// payload of any other tag as a packet.
    fn handle_video_tag(&mut self, io: &mut IoContext, data_size: u32, timestamp: u32) -> (r: TaoResult<Option<Packet>>)
        requires
            data_size < 0x100_0000,
            old(io).contents().len() <= 0x1_0000_0000_0000,
            old(io).cursor() <= old(io).contents().len(),
            0x40_0000_0000_0000 <= usize::MAX,
        ensures
            final(self).data_offset == old(self).data_offset,
            final(io).contents() == old(io).contents(),
            final(io).cursor() <= old(io).contents().len() + 0x100_0000,
            ({
                let (st, m, q) = flv_video_body(old(io).contents(), old(io).cursor() as int, data_size, timestamp, old(self).model());
                &&& final(self).model() == m
                &&& match st {
                    FlvStep::Skip => r matches Ok(None) && final(io).cursor() == q && q >= old(io).cursor(),
                    FlvStep::Packet(f) => r matches Ok(Some(p)) && flv_packet_is(p, f) && final(io).cursor() == q
                        && q >= old(io).cursor(),
                    FlvStep::Fail(k) => r matches Err(e) && e.kind() == k,
                    FlvStep::End => false,
                }
            }),
    {
        reveal(flv_video_body);
        let ghost d = io.contents();
        let ghost b = io.cursor() as int;
        if data_size == 0 {
            return Ok(None);
        }
        let video_header = io.read_u8()?;
        let frame_type = video_header / 16;
        let codec_id_byte = video_header % 16;
        let is_keyframe = frame_type == 1;
        let codec_id = if codec_id_byte == 2 {
            CodecId::Mpeg4
        } else if codec_id_byte == 4 {
            CodecId::Vp8
        } else if codec_id_byte == 7 {
            CodecId::H264
        } else if codec_id_byte == 12 {
            CodecId::H265
        } else if codec_id_byte == 13 {
            CodecId::Av1
        } else {
            CodecId::Unknown
        };
        if self.video_stream_idx.is_none() {
            let idx = self.streams.len();
            self.video_stream_idx = Some(idx);
            self.video_codec_id = codec_id;
            let stream = Stream {
                index: idx,
                media_type: MediaType::Video,
                codec_id,
                time_base: Rational::new(1, 1000),
                duration: -1,
                start_time: 0,
                nb_frames: 0,
                extra_data: Vec::new(),
                params: StreamParams::Video(
                    VideoStreamParams {
                        width: 0,
                        height: 0,
                        pixel_format: PixelFormat::Yuv420p,
                        frame_rate: Rational::new(0, 1),
                        sample_aspect_ratio: Rational::new(1, 1),
                        bit_rate: 0,
                    },
                ),
                metadata: Vec::new(),
            };
            self.streams.push(stream);
            assert(stream_views(self.streams@) =~= with_video(old(self).model(), video_header).streams);
        }
        assert(self.model() == with_video(old(self).model(), video_header));
        let remaining = data_size - 1;
        let stream_index = match self.video_stream_idx {
            Some(i) => i,
            None => 0,
        };
        if codec_id_byte == 7 || codec_id_byte == 12 || codec_id_byte == 13 {
            if remaining < 4 {
                io.skip(remaining as usize)?;
                return Ok(None);
            }
            let avc_packet_type = io.read_u8()?;
            let cts_bytes = io.read_u24_be()?;
            let cts: i32 = if cts_bytes >= 0x80_0000 {
                cts_bytes as i32 - 0x100_0000
            } else {
                cts_bytes as i32
            };
            let payload_size = remaining - 4;
            if avc_packet_type == 0 {
                let config = io.read_bytes(payload_size as usize)?;
                assert(config@ =~= d.subrange(b + 5, b + 1 + remaining));
                self.set_extra(stream_index, config);
                self.video_config_received = true;
                return Ok(None);
            }
            if avc_packet_type == 2 {
                io.skip(payload_size as usize)?;
                return Ok(None);
            }
            let data = io.read_bytes(payload_size as usize)?;
            assert(data@ =~= d.subrange(b + 5, b + 1 + remaining));
            let dts = timestamp as i64;
            let pts = dts + cts as i64;
            let mut pkt = Packet::from_vec(data);
            pkt.stream_index = stream_index;
            pkt.pts = pts;
            pkt.dts = dts;
            pkt.is_keyframe = is_keyframe;
            pkt.time_base = Rational::new(1, 1000);
            return Ok(Some(pkt));
        }
        let data = io.read_bytes(remaining as usize)?;
        assert(data@ =~= d.subrange(b + 1, b + 1 + remaining));
        let mut pkt = Packet::from_vec(data);
        pkt.stream_index = stream_index;
        pkt.pts = timestamp as i64;
        pkt.dts = timestamp as i64;
        pkt.is_keyframe = is_keyframe;
        pkt.time_base = Rational::new(1, 1000);
        Ok(Some(pkt))
    }
}

impl Demuxer for FlvDemuxer {
    open spec fn open_admits(&self, io: IoContext) -> bool {
        true
    }

    fn open_admitted(&self, io: &IoContext) -> (b: bool)
        ensures
            b == self.open_admits(*io),
    {
        true
    }

    open spec fn format_kind(&self) -> FormatId {
        FormatId::Flv
    }

    open spec fn stream_seq(&self) -> Seq<Stream> {
        self.stream_list()
    }

    open spec fn seek_admits(&self, stream_index: usize, timestamp: i64) -> bool {
        true
    }

    open spec fn read_admits(&self) -> bool {
        true
    }

    fn read_admitted(&self) -> (b: bool)
        ensures
            b == self.read_admits(),
    {
        true
    }

    fn seek_admitted(&self, stream_index: usize, timestamp: i64) -> (b: bool)
        ensures
            b == self.seek_admits(stream_index, timestamp),
    {
        true
    }


    fn format_id(&self) -> (r: FormatId)
        ensures
            r == FormatId::Flv,
    {
        FormatId::Flv
    }

    fn name(&self) -> (r: &'static str)
        ensures
            r@ == "flv"@,
    {
        "flv"
    }

    fn open(&mut self, io: &mut IoContext) -> (r: TaoResult<()>)
        ensures
            Self::open_post(*old(self), *final(self), *old(io), *final(io), r),
    {
        self.open_flv(io)
    }

    fn streams(&self) -> (r: &[Stream])
        ensures
            r@ == self.stream_list(),
    {
        self.streams.as_slice()
    }

    fn read_packet(&mut self, io: &mut IoContext) -> (r: TaoResult<Packet>)
        ensures
            Self::read_post(*old(self), *final(self), *old(io), *final(io), r),
    {
        self.read_flv_packet(io)
    }

    /// Seeking is not implemented for FLV: always `NotImplemented`, and
    /// nothing changes.
    fn seek(&mut self, io: &mut IoContext, stream_index: usize, timestamp: i64, flags: SeekFlags) -> (r: TaoResult<()>)
        ensures
            r matches Err(e) && e.kind() == ErrorKind::NotImplemented,
            *final(self) == *old(self),
            *final(io) == *old(io),
    {
        Err(not_implemented("FLV seek is not implemented"))
    }

    fn metadata(&self) -> (r: &[(String, String)])
        ensures
            r@ == self.meta(),
    {
        self.metadata.as_slice()
    }
}

} // verus!
