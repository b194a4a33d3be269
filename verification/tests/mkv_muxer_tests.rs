use tao_format::demuxer::Demuxer;
use tao_format::demuxers::mkv::ebml::{read_element_id, read_element_size, read_uint};
use tao_format::demuxers::mkv::MkvDemuxer;
use tao_format::error::TaoError;
use tao_format::format_id::FormatId;
use tao_format::io::{IoContext, MemoryBackend, SeekFrom};
use tao_format::media::{
    AudioStreamParams, ChannelLayout, CodecId, MediaType, Packet, PixelFormat, Rational,
    SampleFormat, Stream, StreamParams, VideoStreamParams,
};
use tao_format::muxer::Muxer;
use tao_format::muxers::mkv::{
    codec_id_to_mkv, f64_bits_of_exact, id_to_bytes, size_to_vint, uint_to_bytes, MkvMuxer,
};

fn make_video_stream() -> Stream {
    Stream {
        index: 0,
        media_type: MediaType::Video,
        codec_id: CodecId::H264,
        time_base: Rational::new(1, 1000),
        duration: -1,
        start_time: 0,
        nb_frames: 0,
        extra_data: vec![0x01, 0x42, 0x00, 0x1E],
        params: StreamParams::Video(VideoStreamParams {
            width: 1920,
            height: 1080,
            pixel_format: PixelFormat::Yuv420p,
            frame_rate: Rational::new(30, 1),
            sample_aspect_ratio: Rational::new(1, 1),
            bit_rate: 0,
        }),
        metadata: Vec::new(),
    }
}

fn make_audio_stream() -> Stream {
    Stream {
        index: 1,
        media_type: MediaType::Audio,
        codec_id: CodecId::Aac,
        time_base: Rational::new(1, 1000),
        duration: -1,
        start_time: 0,
        nb_frames: 0,
        extra_data: vec![0x12, 0x10],
        params: StreamParams::Audio(AudioStreamParams {
            sample_rate: 44100,
            channel_layout: ChannelLayout::from_channels(2),
            sample_format: SampleFormat::S16,
            bit_rate: 128000,
            frame_size: 1024,
        }),
        metadata: Vec::new(),
    }
}

fn output(io: &mut IoContext) -> Vec<u8> {
    io.seek(SeekFrom::Start(0)).unwrap();
    let size = io.size().unwrap() as usize;
    io.read_bytes(size).unwrap()
}

fn find(hay: &[u8], needle: &[u8]) -> Option<usize> {
    hay.windows(needle.len()).position(|w| w == needle)
}

#[test]
fn mkv_mux_codec_id_mapping() {
    assert_eq!(codec_id_to_mkv(CodecId::H264).unwrap(), "V_MPEG4/ISO/AVC");
    assert_eq!(codec_id_to_mkv(CodecId::H265).unwrap(), "V_MPEGH/ISO/HEVC");
    assert_eq!(codec_id_to_mkv(CodecId::Aac).unwrap(), "A_AAC");
    assert!(codec_id_to_mkv(CodecId::Unknown).is_err());
}

#[test]
fn test_vint_encoding() {
    assert_eq!(size_to_vint(0), vec![0x80]);
    assert_eq!(size_to_vint(1), vec![0x81]);
    assert_eq!(size_to_vint(126), vec![0xFE]);
    assert_eq!(size_to_vint(127), vec![0x40, 0x7F]);
}

#[test]
fn mkv_write_video_only() {
    let mut io = IoContext::new(MemoryBackend::new());
    let streams = vec![make_video_stream()];
    let mut muxer = MkvMuxer::create().unwrap();
    muxer.write_header(&mut io, &streams).unwrap();
    for i in 0..5 {
        let mut pkt = Packet::from_vec(vec![0xAA; 100]);
        pkt.stream_index = 0;
        pkt.pts = i * 33;
        pkt.dts = i * 33;
        pkt.is_keyframe = i == 0;
        muxer.write_packet(&mut io, &pkt).unwrap();
    }
    muxer.write_trailer(&mut io).unwrap();
    let pos = io.position().unwrap();
    assert!(pos > 100, "data was written");
}

#[test]
fn test_write_audio_video() {
    let mut io = IoContext::new(MemoryBackend::new());
    let streams = vec![make_video_stream(), make_audio_stream()];
    let mut muxer = MkvMuxer::create().unwrap();
    muxer.write_header(&mut io, &streams).unwrap();
    for i in 0..3 {
        let mut pkt = Packet::from_vec(vec![0xBB; 200]);
        pkt.stream_index = 0;
        pkt.pts = i * 33;
        pkt.dts = i * 33;
        pkt.is_keyframe = i == 0;
        muxer.write_packet(&mut io, &pkt).unwrap();
    }
    for i in 0..5 {
        let mut pkt = Packet::from_vec(vec![0xCC; 50]);
        pkt.stream_index = 1;
        pkt.pts = i * 23;
        pkt.dts = i * 23;
        pkt.is_keyframe = true;
        muxer.write_packet(&mut io, &pkt).unwrap();
    }
    muxer.write_trailer(&mut io).unwrap();
    let pos = io.position().unwrap();
    assert!(pos > 500, "EBML header, Segment and Clusters were written");
}

#[test]
fn test_webm_format() {
    let mut io = IoContext::new(MemoryBackend::new());
    let mut stream = make_video_stream();
    stream.codec_id = CodecId::Vp9;
    let mut muxer = MkvMuxer::create_webm().unwrap();
    assert_eq!(muxer.format_id(), FormatId::Webm);
    assert_eq!(muxer.name(), "webm");
    muxer.write_header(&mut io, &[stream]).unwrap();
    muxer.write_trailer(&mut io).unwrap();
}

#[test]
fn mkv_test_empty_streams_error() {
    let mut io = IoContext::new(MemoryBackend::new());
    let mut muxer = MkvMuxer::create().unwrap();
    assert!(muxer.write_header(&mut io, &[]).is_err());
}

#[test]
fn vint_widths_and_read_back() {
    assert_eq!(size_to_vint(0x3FFE), vec![0x7F, 0xFE]);
    assert_eq!(size_to_vint(0x3FFF), vec![0x20, 0x3F, 0xFF]);
    assert_eq!(size_to_vint(0x0FFF_FFFF), vec![0x01, 0, 0, 0, 0x0F, 0xFF, 0xFF, 0xFF]);
    for n in [0u64, 1, 126, 127, 300, 0x3FFE, 0x3FFF, 0x1F_FFFE, 0x1F_FFFF, 0x0FFF_FFFE, 0x0FFF_FFFF, 1 << 40] {
        let v = size_to_vint(n);
        let mut io = IoContext::new(MemoryBackend::from_data(v.clone()));
        let (size, width) = read_element_size(&mut io).unwrap();
        assert_eq!(size, n);
        assert_eq!(width as usize, v.len());
    }
}

#[test]
fn ids_and_uints() {
    assert_eq!(id_to_bytes(0xA3), vec![0xA3]);
    assert_eq!(id_to_bytes(0x4286), vec![0x42, 0x86]);
    assert_eq!(id_to_bytes(0x2AD7B1), vec![0x2A, 0xD7, 0xB1]);
    assert_eq!(id_to_bytes(0x1A45DFA3), vec![0x1A, 0x45, 0xDF, 0xA3]);
    let mut io = IoContext::new(MemoryBackend::from_data(id_to_bytes(0x1A45DFA3)));
    assert_eq!(read_element_id(&mut io).unwrap(), (0x1A45DFA3, 4));
    assert_eq!(uint_to_bytes(0), vec![0]);
    assert_eq!(uint_to_bytes(0x1234), vec![0x12, 0x34]);
    assert_eq!(uint_to_bytes(0x1_0000_0000), vec![0, 0, 0, 1, 0, 0, 0, 0]);
    let v = uint_to_bytes(1_000_000);
    let mut io = IoContext::new(MemoryBackend::from_data(v.clone()));
    assert_eq!(read_uint(&mut io, v.len() as u64).unwrap(), 1_000_000);
}

#[test]
fn double_bits_of_integers() {
    for x in [0u64, 1, 2, 3, 44100, 48000, 1 << 52, (1 << 53) - 1, 1 << 53, 1 << 63, u32::MAX as u64] {
        assert_eq!(f64_bits_of_exact(x as u128), (x as f64).to_bits(), "{}", x);
    }
    assert_eq!(f64_bits_of_exact(1u128 << 64), 18446744073709551616.0f64.to_bits());
}

#[test]
fn mkv_header_and_cluster_bytes() {
    let mut io = IoContext::new(MemoryBackend::new());
    let mut muxer = MkvMuxer::new();
    muxer.write_header(&mut io, &[make_audio_stream()]).unwrap();
    let head = output(&mut io);
    assert_eq!(&head[0..4], &[0x1A, 0x45, 0xDF, 0xA3]);
    assert!(find(&head, b"matroska").is_some());
    assert!(find(&head, b"A_AAC").is_some());
    // Sampling frequency 44100.0 as a double.
    let mut freq = vec![0xB5, 0x88];
    freq.extend_from_slice(&44100f64.to_be_bytes());
    assert!(find(&head, &freq).is_some());
    // Segment of unknown size.
    assert!(find(&head, &[0x18, 0x53, 0x80, 0x67, 0x01, 0xFF, 0xFF, 0xFF, 0xFF, 0xFF, 0xFF, 0xFF]).is_some());

    io.seek(SeekFrom::End(0)).unwrap();
    let mut a = Packet::from_vec(vec![1u8, 2, 3]);
    a.stream_index = 1;
    a.pts = 10;
    a.is_keyframe = true;
    muxer.write_packet(&mut io, &a).unwrap();
    let mut b = Packet::from_vec(vec![4u8]);
    b.stream_index = 1;
    b.pts = 7000;
    muxer.write_packet(&mut io, &b).unwrap();
    muxer.write_trailer(&mut io).unwrap();
    let d = output(&mut io);
    let tail = &d[head.len()..];
    // First Cluster: timestamp 10, one block of track 1 at +0, keyframe.
    assert_eq!(
        tail[..18].to_vec(),
        vec![0x1F, 0x43, 0xB6, 0x75, 0x8C, 0xE7, 0x81, 10, 0xA3, 0x87, 0x81, 0, 0, 0x80, 1, 2, 3, 0x1F]
    );
    // Second Cluster at 7000 (0x1B58).
    assert_eq!(
        tail[17..].to_vec(),
        vec![0x1F, 0x43, 0xB6, 0x75, 0x8B, 0xE7, 0x82, 0x1B, 0x58, 0xA3, 0x85, 0x81, 0, 0, 0, 4]
    );
    // The duration (7000.0) is filled in.
    let mut dur = vec![0x44, 0x89, 0x88];
    dur.extend_from_slice(&7000f64.to_be_bytes());
    assert!(find(&d, &dur).is_some());
}

#[test]
fn mkv_unsupported_codec_writes_head_only() {
    let mut io = IoContext::new(MemoryBackend::new());
    let mut muxer = MkvMuxer::new();
    let mut s = make_video_stream();
    s.codec_id = CodecId::Mjpeg;
    assert!(matches!(muxer.write_header(&mut io, &[s]), Err(tao_format::error::TaoError::Unsupported(_))));
    let d = output(&mut io);
    assert!(find(&d, &[0x16, 0x54, 0xAE, 0x6B]).is_none());
    assert!(find(&d, &[0x15, 0x49, 0xA9, 0x66]).is_some());
}

#[test]
fn mkv_written_file_reads_back() {
    let mut io = IoContext::new(MemoryBackend::new());
    let streams = vec![make_video_stream(), make_audio_stream()];
    let mut muxer = MkvMuxer::create().unwrap();
    muxer.write_header(&mut io, &streams).unwrap();
    let mut sent = Vec::new();
    for i in 0..3i64 {
        let mut pkt = Packet::from_vec(vec![i as u8; 5]);
        pkt.stream_index = (i % 2) as usize;
        pkt.pts = i * 40;
        pkt.dts = i * 40;
        pkt.is_keyframe = i == 0;
        muxer.write_packet(&mut io, &pkt).unwrap();
        sent.push((pkt.stream_index, vec![i as u8; 5], i * 40));
    }
    muxer.write_trailer(&mut io).unwrap();

    let mut rio = IoContext::new(MemoryBackend::from_data(io.data().to_vec()));
    let mut demuxer = MkvDemuxer::new();
    demuxer.open(&mut rio).unwrap();
    assert_eq!(demuxer.streams().len(), 2);
    assert_eq!(demuxer.streams()[0].codec_id, CodecId::H264);
    let mut got = Vec::new();
    loop {
        match demuxer.read_packet(&mut rio) {
            Ok(p) => got.push((p.stream_index, p.data.to_vec(), p.pts)),
            Err(TaoError::Eof) => break,
            Err(e) => panic!("{:?}", e),
        }
    }
    assert_eq!(got, sent);
}
