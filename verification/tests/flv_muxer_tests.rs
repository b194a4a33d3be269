use tao_format::error::TaoError;
use tao_format::io::{IoContext, MemoryBackend, SeekFrom};
use tao_format::media::{
    AudioStreamParams, ChannelLayout, CodecId, MediaType, Packet, PixelFormat, Rational,
    SampleFormat, Stream, StreamParams, VideoStreamParams,
};
use tao_format::muxers::flv::FlvMuxer;

fn make_audio_stream() -> Stream {
    Stream {
        index: 0,
        media_type: MediaType::Audio,
        codec_id: CodecId::Aac,
        time_base: Rational::new(1, 44100),
        duration: -1,
        start_time: 0,
        nb_frames: 0,
        extra_data: vec![0x12, 0x10],
        params: StreamParams::Audio(AudioStreamParams {
            sample_rate: 44100,
            channel_layout: ChannelLayout::from_channels(2),
            sample_format: SampleFormat::S16,
            bit_rate: 128000,
            frame_size: 1024,
        }),
        metadata: Vec::new(),
    }
}

fn make_video_stream() -> Stream {
    Stream {
        index: 1,
        media_type: MediaType::Video,
        codec_id: CodecId::H264,
        time_base: Rational::new(1, 90000),
        duration: -1,
        start_time: 0,
        nb_frames: 0,
        extra_data: vec![0x01, 0x42, 0x00, 0x1E, 0xFF],
        params: StreamParams::Video(VideoStreamParams {
            width: 1920,
            height: 1080,
            pixel_format: PixelFormat::Yuv420p,
            frame_rate: Rational::new(30, 1),
            sample_aspect_ratio: Rational::new(1, 1),
            bit_rate: 0,
        }),
        metadata: Vec::new(),
    }
}

/// The timestamp the writer's callers give a packet.
fn timestamp_ms(muxer: &FlvMuxer, p: &Packet) -> u32 {
    match muxer.time_base_of(p.stream_index) {
        Some(tb) if tb.den > 0 => (p.pts as f64 * tb.num as f64 / tb.den as f64 * 1000.0) as u32,
        _ => 0,
    }
}

fn output(io: &mut IoContext) -> Vec<u8> {
    io.seek(SeekFrom::Start(0)).unwrap();
    let size = io.size().unwrap() as usize;
    io.read_bytes(size).unwrap()
}

#[test]
fn test_flv_write_header() {
    let mut muxer = FlvMuxer::new();
    let mut io = IoContext::new(MemoryBackend::new());
    let streams = vec![make_audio_stream()];
    muxer.write_header(&mut io, &streams).unwrap();
    let pos = io.position().unwrap();
    assert!(pos > 13, "the FLV header and a sequence header are written");
}

#[test]
fn test_flv_audio_video() {
    let mut muxer = FlvMuxer::new();
    let mut io = IoContext::new(MemoryBackend::new());
    let streams = vec![make_audio_stream(), make_video_stream()];
    muxer.write_header(&mut io, &streams).unwrap();
    let pos = io.position().unwrap();
    assert!(pos > 30, "the header and two sequence headers are written");
}

#[test]
fn test_flv_write_packet() {
    let mut muxer = FlvMuxer::new();
    let mut io = IoContext::new(MemoryBackend::new());
    let streams = vec![make_audio_stream()];
    muxer.write_header(&mut io, &streams).unwrap();
    let mut packet = Packet::from_vec(vec![0xDE, 0xAD, 0xBE, 0xEF]);
    packet.pts = 0;
    packet.dts = 0;
    packet.duration = 1024;
    packet.stream_index = 0;
    packet.is_keyframe = true;
    let ts = timestamp_ms(&muxer, &packet);
    muxer.write_packet_at(&mut io, &packet, ts).unwrap();
    let pos = io.position().unwrap();
    assert!(pos > 40, "header, sequence header and packet are written");
}

#[test]
fn flv_test_empty_streams_error() {
    let mut muxer = FlvMuxer::new();
    let mut io = IoContext::new(MemoryBackend::new());
    assert!(muxer.write_header(&mut io, &[]).is_err());
}

#[test]
fn flv_header_and_tags_exact() {
    let mut muxer = FlvMuxer::new();
    let mut io = IoContext::new(MemoryBackend::new());
    muxer.write_header(&mut io, &[make_audio_stream(), make_video_stream()]).unwrap();
    let mut v = Packet::from_vec(vec![9u8, 8]);
    v.stream_index = 1;
    v.pts = 180000;
    v.dts = 179000;
    v.is_keyframe = false;
    let ts = timestamp_ms(&muxer, &v);
    assert_eq!(ts, 2000);
    muxer.write_packet_at(&mut io, &v, ts).unwrap();
    let d = output(&mut io);
    let mut expect = vec![0x46, 0x4C, 0x56, 1, 0x05, 0, 0, 0, 9, 0, 0, 0, 0];
    // AAC sequence header: 0xAF, packet type 0, the private data.
    expect.extend_from_slice(&[8, 0, 0, 4, 0, 0, 0, 0, 0, 0, 0, 0xAF, 0, 0x12, 0x10, 0, 0, 0, 15]);
    // H.264 sequence header: keyframe | 7, type 0, offset 0, the private data.
    expect.extend_from_slice(&[9, 0, 0, 10, 0, 0, 0, 0, 0, 0, 0, 0x17, 0, 0, 0, 0, 1, 0x42, 0, 0x1E, 0xFF, 0, 0, 0, 21]);
    // Inter frame at 2000 ms (0x7D0) with composition offset 1000 (0x3E8).
    expect.extend_from_slice(&[9, 0, 0, 7, 0, 0x07, 0xD0, 0, 0, 0, 0, 0x27, 1, 0, 0x03, 0xE8, 9, 8, 0, 0, 0, 18]);
    assert_eq!(d, expect);
}

#[test]
fn flv_audio_packet_and_errors() {
    let mut muxer = FlvMuxer::new();
    let mut io = IoContext::new(MemoryBackend::new());
    let mut s = make_audio_stream();
    s.extra_data = Vec::new();
    s.params = StreamParams::Audio(AudioStreamParams {
        sample_rate: 22050,
        channel_layout: ChannelLayout::from_channels(1),
        sample_format: SampleFormat::S16,
        bit_rate: 0,
        frame_size: 1152,
    });
    s.codec_id = CodecId::Mp3;
    muxer.write_header(&mut io, &[s]).unwrap();
    let p = Packet::from_vec(vec![0xFF]);
    muxer.write_packet_at(&mut io, &p, 0x0102_0304).unwrap();
    let d = output(&mut io);
    assert_eq!(&d[..5], &[0x46, 0x4C, 0x56, 1, 0x04]);
    // MP3, 22 kHz, 16 bit, mono; timestamp low 24 bits then the high byte.
    assert_eq!(&d[13..], &[8, 0, 0, 2, 0x02, 0x03, 0x04, 0x01, 0, 0, 0, 0x2A, 0xFF, 0, 0, 0, 13]);
    let mut q = Packet::from_vec(vec![1]);
    q.stream_index = 5;
    assert!(matches!(muxer.write_packet_at(&mut io, &q, 0), Err(TaoError::StreamNotFound(_))));

    let mut m2 = FlvMuxer::new();
    let mut io2 = IoContext::new(MemoryBackend::new());
    let mut bad = make_video_stream();
    bad.codec_id = CodecId::Vp9;
    assert!(matches!(m2.write_header(&mut io2, &[bad]), Err(TaoError::Unsupported(_))));
    assert_eq!(io2.position().unwrap(), 13);
}
