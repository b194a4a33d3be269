use tao_format::demuxer::Demuxer;
use tao_format::demuxers::avi::AviDemuxer;
use tao_format::error::TaoError;
use tao_format::io::{IoContext, MemoryBackend};
use tao_format::media::{
    AudioStreamParams, ChannelLayout, CodecId, MediaType, Packet, PixelFormat, Rational,
    SampleFormat, SeekFlags, Stream, StreamParams, VideoStreamParams,
};
use tao_format::muxer::Muxer;
use tao_format::muxers::avi::AviMuxer;

fn make_minimal_avi() -> Vec<u8> {
    let mut buf = Vec::new();
    buf.extend_from_slice(b"RIFF");
    let file_size: u32 = 4 + 200 + 120;
    buf.extend_from_slice(&file_size.to_le_bytes());
    buf.extend_from_slice(b"AVI ");

    let hdrl_size: u32 = 4 + 64 + 124;
    buf.extend_from_slice(b"LIST");
    buf.extend_from_slice(&hdrl_size.to_le_bytes());
    buf.extend_from_slice(b"hdrl");

    buf.extend_from_slice(b"avih");
    buf.extend_from_slice(&56u32.to_le_bytes());
    buf.extend_from_slice(&33367u32.to_le_bytes());
    buf.extend_from_slice(&0u32.to_le_bytes());
    buf.extend_from_slice(&0u32.to_le_bytes());
    buf.extend_from_slice(&0u32.to_le_bytes());
    buf.extend_from_slice(&0u32.to_le_bytes());
    buf.extend_from_slice(&0u32.to_le_bytes());
    buf.extend_from_slice(&1u32.to_le_bytes());
    buf.extend_from_slice(&[0u8; 28]);

    let strl_size: u32 = 4 + 64 + 48;
    buf.extend_from_slice(b"LIST");
    buf.extend_from_slice(&strl_size.to_le_bytes());
    buf.extend_from_slice(b"strl");

    buf.extend_from_slice(b"strh");
    buf.extend_from_slice(&56u32.to_le_bytes());
    buf.extend_from_slice(b"vids");
    buf.extend_from_slice(b"H264");
    buf.extend_from_slice(&0u32.to_le_bytes());
    buf.extend_from_slice(&0u16.to_le_bytes());
    buf.extend_from_slice(&0u16.to_le_bytes());
    buf.extend_from_slice(&0u32.to_le_bytes());
    buf.extend_from_slice(&1u32.to_le_bytes());
    buf.extend_from_slice(&25u32.to_le_bytes());
    buf.extend_from_slice(&0u32.to_le_bytes());
    buf.extend_from_slice(&100u32.to_le_bytes());
    buf.extend_from_slice(&[0u8; 20]);

    buf.extend_from_slice(b"strf");
    buf.extend_from_slice(&40u32.to_le_bytes());
    buf.extend_from_slice(&40u32.to_le_bytes());
    buf.extend_from_slice(&320u32.to_le_bytes());
    buf.extend_from_slice(&240u32.to_le_bytes());
    buf.extend_from_slice(&1u16.to_le_bytes());
    buf.extend_from_slice(&24u16.to_le_bytes());
    buf.extend_from_slice(&0x34363248u32.to_le_bytes());
    buf.extend_from_slice(&[0u8; 20]);

    let movi_size: u32 = 4 + 108;
    buf.extend_from_slice(b"LIST");
    buf.extend_from_slice(&movi_size.to_le_bytes());
    buf.extend_from_slice(b"movi");

    buf.extend_from_slice(b"00dc");
    buf.extend_from_slice(&100u32.to_le_bytes());
    buf.extend_from_slice(&[0u8; 100]);

    buf
}

fn make_video_stream() -> Stream {
    Stream {
        index: 0,
        media_type: MediaType::Video,
        codec_id: CodecId::H264,
        time_base: Rational::new(1, 25),
        duration: 0,
        start_time: 0,
        nb_frames: 0,
        extra_data: Vec::new(),
        params: StreamParams::Video(VideoStreamParams {
            width: 320,
            height: 240,
            pixel_format: PixelFormat::Yuv420p,
            frame_rate: Rational::new(25, 1),
            sample_aspect_ratio: Rational::new(1, 1),
            bit_rate: 0,
        }),
        metadata: Vec::new(),
    }
}

fn make_audio_stream() -> Stream {
    Stream {
        index: 1,
        media_type: MediaType::Audio,
        codec_id: CodecId::PcmS16le,
        time_base: Rational::new(1, 44100),
        duration: 0,
        start_time: 0,
        nb_frames: 0,
        extra_data: Vec::new(),
        params: StreamParams::Audio(AudioStreamParams {
            sample_rate: 44100,
            channel_layout: ChannelLayout::from_channels(2),
            sample_format: SampleFormat::S16,
            bit_rate: 0,
            frame_size: 4,
        }),
        metadata: Vec::new(),
    }
}

fn u32_at(data: &[u8], pos: usize) -> u32 {
    u32::from_le_bytes([data[pos], data[pos + 1], data[pos + 2], data[pos + 3]])
}

#[test]
fn test_parse_minimal_avi() {
    let avi = make_minimal_avi();
    let mut io = IoContext::new(MemoryBackend::from_data(avi));
    let mut demuxer = AviDemuxer::create().unwrap();
    demuxer.open(&mut io).unwrap();

    let streams = demuxer.streams();
    assert_eq!(streams.len(), 1);
    assert_eq!(streams[0].media_type, MediaType::Video);
    assert_eq!(streams[0].codec_id, CodecId::H264);

    let pkt = demuxer.read_packet(&mut io).unwrap();
    assert_eq!(pkt.stream_index, 0);
    assert_eq!(pkt.data.len(), 100);
    assert!(pkt.is_keyframe);

    let err = demuxer.read_packet(&mut io).unwrap_err();
    assert!(matches!(err, TaoError::Eof));
}

#[test]
fn avi_minimal_video_parameters() {
    let avi = make_minimal_avi();
    let mut io = IoContext::new(MemoryBackend::from_data(avi));
    let mut demuxer = AviDemuxer::create().unwrap();
    demuxer.open(&mut io).unwrap();
    let streams = demuxer.streams();
    match &streams[0].params {
        StreamParams::Video(v) => {
            assert_eq!(v.width, 320);
            assert_eq!(v.height, 240);
        }
        _ => panic!("expected video parameters"),
    }
    assert_eq!(streams[0].time_base, Rational::new(1, 25));
}

#[test]
fn avi_seek_back_to_start_reads_again() {
    let avi = make_minimal_avi();
    let mut io = IoContext::new(MemoryBackend::from_data(avi));
    let mut demuxer = AviDemuxer::create().unwrap();
    demuxer.open(&mut io).unwrap();
    let first = demuxer.read_packet(&mut io).unwrap();
    assert_eq!(first.data.len(), 100);
    demuxer.seek(&mut io, 0, 0, SeekFlags::default()).unwrap();
    let again = demuxer.read_packet(&mut io).unwrap();
    assert_eq!(again.data.len(), 100);
    assert_eq!(again.stream_index, 0);
}

#[test]
fn avi_open_rejects_non_riff() {
    let mut data = make_minimal_avi();
    data[0] = b'X';
    let mut io = IoContext::new(MemoryBackend::from_data(data));
    let mut demuxer = AviDemuxer::create().unwrap();
    assert!(demuxer.open(&mut io).is_err());
}

#[test]
fn test_avi_write_header() {
    let mut io = IoContext::new(MemoryBackend::new());
    let stream = make_video_stream();
    let mut muxer = AviMuxer::create().unwrap();
    muxer.write_header(&mut io, &[stream]).unwrap();
    let data = io.position().unwrap();
    assert!(data > 100);
}

#[test]
fn test_avi_write_packets() {
    let mut io = IoContext::new(MemoryBackend::new());
    let stream = make_video_stream();
    let mut muxer = AviMuxer::create().unwrap();
    muxer.write_header(&mut io, &[stream]).unwrap();
    let pkt = Packet::from_data(bytes::Bytes::from(vec![0u8; 100]));
    muxer.write_packet(&mut io, &pkt).unwrap();
    muxer.write_trailer(&mut io).unwrap();
}

#[test]
fn test_avi_av() {
    let mut io = IoContext::new(MemoryBackend::new());
    let video = make_video_stream();
    let mut audio = make_audio_stream();
    audio.index = 1;
    let mut muxer = AviMuxer::create().unwrap();
    muxer.write_header(&mut io, &[video, audio]).unwrap();
    let pkt = Packet::from_data(bytes::Bytes::from(vec![0u8; 50]));
    muxer.write_packet(&mut io, &pkt).unwrap();
    muxer.write_trailer(&mut io).unwrap();
}

#[test]
fn avi_test_empty_stream_error() {
    let mut io = IoContext::new(MemoryBackend::new());
    let mut muxer = AviMuxer::create().unwrap();
    let err = muxer.write_header(&mut io, &[]).unwrap_err();
    assert!(matches!(err, TaoError::InvalidArgument(_)));
}

#[test]
fn avi_header_layout_for_one_video_stream() {
    let mut io = IoContext::new(MemoryBackend::new());
    let mut muxer = AviMuxer::new();
    muxer.write_avi_header(&mut io, &[make_video_stream()]).unwrap();
    let data = io.data();
    assert_eq!(data.len(), 220);
    assert_eq!(&data[0..4], b"RIFF");
    assert_eq!(&data[8..12], b"AVI ");
    assert_eq!(&data[12..16], b"LIST");
    assert_eq!(u32_at(data, 16), 188);
    assert_eq!(&data[20..28], b"hdrlavih");
    assert_eq!(u32_at(data, 28), 56);
    assert_eq!(u32_at(data, 32), 33367);
    assert_eq!(u32_at(data, 44), 0x10);
    assert_eq!(u32_at(data, 56), 1);
    assert_eq!(&data[92..96], b"LIST");
    assert_eq!(u32_at(data, 96), 108);
    assert_eq!(&data[100..108], b"strlstrh");
    assert_eq!(u32_at(data, 108), 48);
    assert_eq!(&data[112..120], b"vidsH264");
    assert_eq!(u32_at(data, 132), 1);
    assert_eq!(u32_at(data, 136), 25);
    assert_eq!(&data[164..168], b"strf");
    assert_eq!(u32_at(data, 172), 40);
    assert_eq!(u32_at(data, 176), 320);
    assert_eq!(u32_at(data, 180), 240);
    assert_eq!(u32_at(data, 188), 0x34363248);
    assert_eq!(&data[208..212], b"LIST");
    assert_eq!(&data[216..220], b"movi");
}

#[test]
fn avi_packets_and_trailer_bytes() {
    let mut io = IoContext::new(MemoryBackend::new());
    let mut muxer = AviMuxer::new();
    muxer.write_avi_header(&mut io, &[make_video_stream(), make_audio_stream()]).unwrap();
    let start = io.position().unwrap() as usize;
    let mut key = Packet::from_vec(vec![7u8; 3]);
    key.is_keyframe = true;
    muxer.write_avi_packet(&mut io, &key).unwrap();
    let mut audio = Packet::from_vec(vec![9u8; 4]);
    audio.stream_index = 1;
    muxer.write_avi_packet(&mut io, &audio).unwrap();
    let inter = Packet::from_vec(vec![5u8; 2]);
    muxer.write_avi_packet(&mut io, &inter).unwrap();
    let before_idx = io.position().unwrap() as usize;
    assert_eq!(before_idx, start + 12 + 12 + 10);
    muxer.write_avi_trailer(&mut io).unwrap();
    let data = io.data().to_vec();
    assert_eq!(&data[start..start + 4], b"00dc");
    assert_eq!(u32_at(&data, start + 4), 3);
    assert_eq!(&data[start + 8..start + 11], &[7u8, 7, 7]);
    assert_eq!(data[start + 11], 0);
    assert_eq!(&data[start + 12..start + 16], b"01wb");
    assert_eq!(u32_at(&data, start + 16), 4);
    assert_eq!(&data[start + 24..start + 28], b"00dc");
    let idx = before_idx;
    assert_eq!(&data[idx..idx + 4], b"idx1");
    assert_eq!(u32_at(&data, idx + 4), 48);
    assert_eq!(&data[idx + 8..idx + 12], b"00dc");
    assert_eq!(u32_at(&data, idx + 12), 0x10);
    assert_eq!(u32_at(&data, idx + 16), 0);
    assert_eq!(u32_at(&data, idx + 20), 3);
    assert_eq!(&data[idx + 24..idx + 28], b"01wb");
    assert_eq!(u32_at(&data, idx + 28), 0x10);
    assert_eq!(u32_at(&data, idx + 32), 12);
    assert_eq!(&data[idx + 40..idx + 44], b"00dc");
    assert_eq!(u32_at(&data, idx + 44), 0);
    assert_eq!(u32_at(&data, idx + 48), 24);
    assert_eq!(data.len(), idx + 56);
    assert_eq!(u32_at(&data, 4) as usize, data.len() - 8);
    assert_eq!(u32_at(&data, start - 8) as usize, before_idx - start + 4);
}

#[test]
fn avi_empty_payload_writes_nothing() {
    let mut io = IoContext::new(MemoryBackend::new());
    let mut muxer = AviMuxer::new();
    muxer.write_avi_header(&mut io, &[make_video_stream()]).unwrap();
    let before = io.data().to_vec();
    muxer.write_avi_packet(&mut io, &Packet::from_vec(Vec::new())).unwrap();
    assert_eq!(io.data(), &before[..]);
}

#[test]
fn avi_header_errors() {
    let mut mp3 = make_audio_stream();
    mp3.codec_id = CodecId::Mp3;
    let mut io = IoContext::new(MemoryBackend::new());
    let mut muxer = AviMuxer::new();
    let err = muxer.write_avi_header(&mut io, &[mp3]).unwrap_err();
    assert!(matches!(err, TaoError::Unsupported(_)));

    let mut vp = make_video_stream();
    vp.codec_id = CodecId::Vp9;
    let mut io = IoContext::new(MemoryBackend::new());
    let mut muxer = AviMuxer::new();
    let err = muxer.write_avi_header(&mut io, &[vp]).unwrap_err();
    assert!(matches!(err, TaoError::Unsupported(_)));

    let mut odd = make_video_stream();
    odd.params = make_audio_stream().params;
    let mut io = IoContext::new(MemoryBackend::new());
    let mut muxer = AviMuxer::new();
    let err = muxer.write_avi_header(&mut io, &[odd]).unwrap_err();
    assert!(matches!(err, TaoError::InvalidArgument(_)));

    let mut sub = make_video_stream();
    sub.media_type = MediaType::Subtitle;
    let mut io = IoContext::new(MemoryBackend::new());
    let mut muxer = AviMuxer::new();
    let err = muxer.write_avi_header(&mut io, &[sub]).unwrap_err();
    assert!(matches!(err, TaoError::Unsupported(_)));
}
