use tao_format::demuxer::Demuxer;
use tao_format::demuxers::mpegts::TsDemuxer;
use tao_format::error::TaoError;
use tao_format::io::{IoContext, MemoryBackend, SeekFrom};
use tao_format::media::{
    AudioStreamParams, ChannelLayout, CodecId, MediaType, Packet, PixelFormat, Rational, SampleFormat,
    Stream, StreamParams, VideoStreamParams,
};
use tao_format::muxer::Muxer;
use tao_format::muxers::mpegts::{crc32_mpeg2, MpegTsMuxer};

const TS_PACKET_SIZE: usize = 188;

fn make_video_stream() -> Stream {
    Stream {
        index: 0,
        media_type: MediaType::Video,
        codec_id: CodecId::H264,
        time_base: Rational::new(1, 90000),
        duration: -1,
        start_time: 0,
        nb_frames: 0,
        extra_data: Vec::new(),
        params: StreamParams::Video(VideoStreamParams {
            width: 1920,
            height: 1080,
            pixel_format: PixelFormat::Yuv420p,
            frame_rate: Rational::new(30, 1),
            sample_aspect_ratio: Rational::new(1, 1),
            bit_rate: 0,
        }),
        metadata: Vec::new(),
    }
}

fn make_audio_stream() -> Stream {
    Stream {
        index: 1,
        media_type: MediaType::Audio,
        codec_id: CodecId::Aac,
        time_base: Rational::new(1, 90000),
        duration: -1,
        start_time: 0,
        nb_frames: 0,
        extra_data: Vec::new(),
        params: StreamParams::Audio(AudioStreamParams {
            sample_rate: 44100,
            channel_layout: ChannelLayout::from_channels(2),
            sample_format: SampleFormat::S16,
            bit_rate: 128000,
            frame_size: 1024,
        }),
        metadata: Vec::new(),
    }
}

fn packet(data: Vec<u8>, pts: i64, stream_index: usize) -> Packet {
    let mut p = Packet::from_vec(data);
    p.pts = pts;
    p.dts = pts;
    p.stream_index = stream_index;
    p.is_keyframe = true;
    p
}

#[test]
fn test_ts_write_header() {
    let mut muxer = MpegTsMuxer::create().unwrap();
    let mut io = IoContext::new(MemoryBackend::new());
    muxer.write_header(&mut io, &[make_video_stream()]).unwrap();
    assert_eq!(io.position().unwrap(), (2 * TS_PACKET_SIZE) as u64);
}

#[test]
fn test_ts_write_packet() {
    let mut muxer = MpegTsMuxer::create().unwrap();
    let mut io = IoContext::new(MemoryBackend::new());
    muxer.write_header(&mut io, &[make_video_stream()]).unwrap();
    let mut p = packet(vec![0x00, 0x00, 0x00, 0x01, 0x65, 0xAB, 0xCD], 90000, 0);
    p.duration = 3000;
    muxer.write_packet(&mut io, &p).unwrap();
    let pos = io.position().unwrap();
    assert!(pos >= (3 * TS_PACKET_SIZE) as u64);
    assert_eq!(pos % TS_PACKET_SIZE as u64, 0);
}

#[test]
fn test_ts_audio_video() {
    let mut muxer = MpegTsMuxer::create().unwrap();
    let mut io = IoContext::new(MemoryBackend::new());
    muxer.write_header(&mut io, &[make_video_stream(), make_audio_stream()]).unwrap();
    muxer.write_packet(&mut io, &packet(vec![0x00, 0x00, 0x00, 0x01, 0x65], 0, 0)).unwrap();
    muxer.write_packet(&mut io, &packet(vec![0xFF, 0xF1, 0x50, 0x80], 0, 1)).unwrap();
    assert_eq!(io.position().unwrap() % TS_PACKET_SIZE as u64, 0, "all packets are 188 bytes");
}

#[test]
fn ts_muxer_test_empty_stream_error() {
    let mut muxer = MpegTsMuxer::create().unwrap();
    let mut io = IoContext::new(MemoryBackend::new());
    assert!(muxer.write_header(&mut io, &[]).is_err());
}

#[test]
fn ts_muxer_errors() {
    let mut muxer = MpegTsMuxer::create().unwrap();
    let mut io = IoContext::new(MemoryBackend::new());
    let mut s = make_video_stream();
    s.codec_id = CodecId::Flac;
    assert!(matches!(muxer.write_header(&mut io, &[make_video_stream(), s]), Err(TaoError::Unsupported(_))));
    assert_eq!(io.size(), Some(0));
    muxer.write_header(&mut io, &[make_video_stream()]).unwrap();
    assert!(matches!(muxer.write_packet(&mut io, &packet(vec![1], 0, 3)), Err(TaoError::StreamNotFound(_))));
}

#[test]
fn ts_packet_layout() {
    let mut muxer = MpegTsMuxer::create().unwrap();
    let mut io = IoContext::new(MemoryBackend::new());
    muxer.write_header(&mut io, &[make_audio_stream()]).unwrap();
    muxer.write_packet(&mut io, &packet(vec![0xAB; 10], 90000, 0)).unwrap();
    io.seek(SeekFrom::Start(0)).unwrap();
    let out = io.read_bytes(3 * 188).unwrap();
    // PAT
    assert_eq!(&out[0..5], &[0x47, 0x40, 0x00, 0x10, 0x00]);
    // PMT on PID 0x1000 listing AAC (0x0F) on PID 0x100
    assert_eq!(&out[188..193], &[0x47, 0x50, 0x00, 0x10, 0x00]);
    assert_eq!(&out[193 + 12..193 + 17], &[0x0F, 0xE1, 0x00, 0xF0, 0x00]);
    // PES: 14 header bytes and 10 data bytes, after 160 bytes of adaptation field
    let p = &out[376..564];
    assert_eq!(&p[0..4], &[0x47, 0x41, 0x00, 0x30]);
    assert_eq!(p[4], 159);
    assert_eq!(&p[164..168], &[0x00, 0x00, 0x01, 0xC0]);
    assert_eq!(&p[168..170], &[0x00, 18]);
    assert_eq!(&p[170..173], &[0x80, 0x80, 5]);
    assert_eq!(&p[178..188], &[0xAB; 10]);
}

#[test]
fn ts_muxed_tables_declare_short_sections() {
    // The PAT and PMT this writer produces give section lengths 4 bytes
    // short (9 and 9 + 5 per stream), so a reader that walks the entries by
    // the section length finds no program: the stream does not read back.
    let mut muxer = MpegTsMuxer::create().unwrap();
    let mut io = IoContext::new(MemoryBackend::new());
    muxer.write_header(&mut io, &[make_video_stream(), make_audio_stream()]).unwrap();
    muxer.write_packet(&mut io, &packet(vec![9; 30], 9000, 0)).unwrap();
    let data = io.into_backend().into_data();
    assert_eq!(data[7], 9);
    assert_eq!(data[188 + 7], 19);
    let mut io = IoContext::new(MemoryBackend::from_data(data));
    let mut demuxer = TsDemuxer::create().unwrap();
    assert!(matches!(demuxer.open(&mut io), Err(TaoError::InvalidData(_))));
}

#[test]
fn crc32_residue_is_zero() {
    assert_eq!(crc32_mpeg2(&[]), 0xFFFF_FFFF);
    let data = [0x00u8, 0xB0, 0x0D, 0x00, 0x01, 0xC1, 0x00, 0x00, 0x00, 0x01, 0xF0, 0x00];
    let mut all = data.to_vec();
    all.extend_from_slice(&crc32_mpeg2(&data).to_be_bytes());
    assert_eq!(crc32_mpeg2(&all), 0);
}
