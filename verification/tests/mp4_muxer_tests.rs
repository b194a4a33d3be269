use tao_format::demuxer::Demuxer;
use tao_format::demuxers::mp4::Mp4Demuxer;
use tao_format::error::TaoError;
use tao_format::io::{IoContext, MemoryBackend};
use tao_format::media::{
    AudioStreamParams, ChannelLayout, CodecId, MediaType, Packet, PixelFormat, Rational, SampleFormat,
    Stream, StreamParams, VideoStreamParams,
};
use tao_format::muxer::Muxer;
use tao_format::muxers::mp4::{codec_to_mp4_fourcc, rle_durations, write_ftyp, Mp4Muxer, SampleEntry};

fn make_video_stream() -> Stream {
    Stream {
        index: 0,
        media_type: MediaType::Video,
        codec_id: CodecId::H264,
        time_base: Rational::new(1, 90000),
        duration: -1,
        start_time: 0,
        nb_frames: 0,
        extra_data: vec![
            0x01, 0x42, 0x00, 0x1E, 0xFF, 0xE1, 0x00, 0x04, 0x67, 0x42, 0x00, 0x1E, 0x01, 0x00, 0x02, 0x68, 0xCE,
        ],
        params: StreamParams::Video(VideoStreamParams {
            width: 320,
            height: 240,
            pixel_format: PixelFormat::Yuv420p,
            frame_rate: Rational::new(30, 1),
            sample_aspect_ratio: Rational::new(1, 1),
            bit_rate: 0,
        }),
        metadata: Vec::new(),
    }
}

fn make_audio_stream() -> Stream {
    Stream {
        index: 1,
        media_type: MediaType::Audio,
        codec_id: CodecId::Aac,
        time_base: Rational::new(1, 44100),
        duration: -1,
        start_time: 0,
        nb_frames: 0,
        extra_data: vec![0x12, 0x10],
        params: StreamParams::Audio(AudioStreamParams {
            sample_rate: 44100,
            channel_layout: ChannelLayout::from_channels(2),
            sample_format: SampleFormat::F32,
            bit_rate: 128000,
            frame_size: 1024,
        }),
        metadata: Vec::new(),
    }
}

fn packet(stream_index: usize, data: Vec<u8>, ts: i64, duration: i64, key: bool) -> Packet {
    let mut pkt = Packet::from_vec(data);
    pkt.stream_index = stream_index;
    pkt.pts = ts;
    pkt.dts = ts;
    pkt.duration = duration;
    pkt.is_keyframe = key;
    pkt
}

#[test]
fn test_ftyp_write() {
    let mut io = IoContext::new(MemoryBackend::new());
    write_ftyp(&mut io).unwrap();
    let pos = io.position().unwrap();
    assert_eq!(pos, 28);
}

#[test]
fn test_write_video_only() {
    let mut io = IoContext::new(MemoryBackend::new());
    let streams = vec![make_video_stream()];
    let mut muxer = Mp4Muxer::new();
    muxer.write_header(&mut io, &streams).unwrap();
    for i in 0..3 {
        let pkt = packet(0, vec![0xAA; 100], i * 3000, 3000, i == 0);
        muxer.write_packet(&mut io, &pkt).unwrap();
    }
    muxer.write_trailer(&mut io).unwrap();
    let pos = io.position().unwrap();
    assert!(pos > 0, "data was written");
}

#[test]
fn test_write_av() {
    let mut io = IoContext::new(MemoryBackend::new());
    let streams = vec![make_video_stream(), make_audio_stream()];
    let mut muxer = Mp4Muxer::new();
    muxer.write_header(&mut io, &streams).unwrap();
    for i in 0..3 {
        let pkt = packet(0, vec![0xBB; 200], i * 3000, 3000, i == 0);
        muxer.write_packet(&mut io, &pkt).unwrap();
    }
    for i in 0..5 {
        let pkt = packet(1, vec![0xCC; 50], i * 1024, 1024, true);
        muxer.write_packet(&mut io, &pkt).unwrap();
    }
    muxer.write_trailer(&mut io).unwrap();
    let pos = io.position().unwrap();
    assert!(pos > 500, "ftyp, mdat and moov");
}

#[test]
fn test_codec_fourcc_mapping() {
    assert_eq!(codec_to_mp4_fourcc(CodecId::H264).unwrap(), *b"avc1");
    assert_eq!(codec_to_mp4_fourcc(CodecId::H265).unwrap(), *b"hvc1");
    assert_eq!(codec_to_mp4_fourcc(CodecId::Aac).unwrap(), *b"mp4a");
    assert!(codec_to_mp4_fourcc(CodecId::Unknown).is_none());
}

#[test]
fn test_rle_duration_compress() {
    let samples = vec![
        SampleEntry { offset: 0, size: 100, duration: 3000, cts_offset: 0, is_keyframe: true },
        SampleEntry { offset: 100, size: 100, duration: 3000, cts_offset: 0, is_keyframe: false },
        SampleEntry { offset: 200, size: 100, duration: 6000, cts_offset: 0, is_keyframe: false },
    ];
    let entries = rle_durations(&samples);
    assert_eq!(entries, vec![(2, 3000), (1, 6000)]);
}

#[test]
fn mp4_test_empty_stream_error() {
    let mut io = IoContext::new(MemoryBackend::new());
    let mut muxer = Mp4Muxer::new();
    assert!(matches!(muxer.write_header(&mut io, &[]), Err(TaoError::InvalidArgument(_))));
    assert!(io.data().is_empty());
}

#[test]
fn mp4_unknown_stream_packet_is_refused() {
    let mut io = IoContext::new(MemoryBackend::new());
    let mut muxer = Mp4Muxer::new();
    muxer.write_header(&mut io, &[make_video_stream()]).unwrap();
    let before = io.data().to_vec();
    let pkt = packet(7, vec![1, 2, 3], 0, 0, true);
    assert!(matches!(muxer.write_packet(&mut io, &pkt), Err(TaoError::InvalidArgument(_))));
    assert_eq!(io.data(), &before[..]);
}

#[test]
fn mp4_header_bytes() {
    let mut io = IoContext::new(MemoryBackend::new());
    let mut muxer = Mp4Muxer::new();
    muxer.write_header(&mut io, &[make_video_stream()]).unwrap();
    let d = io.data();
    assert_eq!(d.len(), 36);
    assert_eq!(&d[0..8], &[0, 0, 0, 28, b'f', b't', b'y', b'p']);
    assert_eq!(&d[8..16], b"isom\x00\x00\x02\x00");
    assert_eq!(&d[16..28], b"isomiso2mp41");
    assert_eq!(&d[28..36], &[0, 0, 0, 0, b'm', b'd', b'a', b't']);
}

#[test]
fn mp4_unsupported_codec_fails_the_trailer() {
    let mut io = IoContext::new(MemoryBackend::new());
    let mut s = make_video_stream();
    s.codec_id = CodecId::Mjpeg;
    let mut muxer = Mp4Muxer::new();
    muxer.write_header(&mut io, &[s]).unwrap();
    muxer.write_packet(&mut io, &packet(0, vec![1], 0, 0, true)).unwrap();
    assert!(matches!(muxer.write_trailer(&mut io), Err(TaoError::Unsupported(_))));
}

#[test]
fn mp4_written_file_reads_back() {
    let mut io = IoContext::new(MemoryBackend::new());
    let streams = vec![make_video_stream(), make_audio_stream()];
    let mut muxer = Mp4Muxer::new();
    muxer.write_header(&mut io, &streams).unwrap();
    muxer.write_packet(&mut io, &packet(0, vec![1, 2, 3], 0, 3000, true)).unwrap();
    muxer.write_packet(&mut io, &packet(1, vec![9, 9], 0, 1024, true)).unwrap();
    muxer.write_packet(&mut io, &packet(0, vec![4, 5], 3000, 3000, false)).unwrap();
    muxer.write_trailer(&mut io).unwrap();
    let d = io.data().to_vec();
    // mdat size: 8 + 7 payload bytes.
    assert_eq!(&d[28..36], &[0, 0, 0, 15, b'm', b'd', b'a', b't']);

    let mut rio = IoContext::new(MemoryBackend::from_data(d));
    let mut demuxer = Mp4Demuxer::new();
    assert!(demuxer.open_admitted(&rio));
    demuxer.open(&mut rio).unwrap();
    let st = demuxer.streams();
    assert_eq!(st.len(), 2);
    assert_eq!(st[0].codec_id, CodecId::H264);
    assert_eq!(st[0].nb_frames, 2);
    assert_eq!(st[0].extra_data, make_video_stream().extra_data);
    assert_eq!(st[1].codec_id, CodecId::Aac);
    assert_eq!(st[1].nb_frames, 1);
    if let StreamParams::Video(ref v) = st[0].params {
        assert_eq!((v.width, v.height), (320, 240));
    } else {
        panic!("video parameters expected");
    }
    let mut got = Vec::new();
    while demuxer.read_admitted() {
        match demuxer.read_packet(&mut rio) {
            Ok(p) => got.push((p.stream_index, p.data.to_vec(), p.pts, p.is_keyframe)),
            Err(TaoError::Eof) => break,
            Err(e) => panic!("{:?}", e),
        }
    }
    assert_eq!(
        got,
        vec![
            (0, vec![1, 2, 3], 0, true),
            (1, vec![9, 9], 0, true),
            (0, vec![4, 5], 3000, false),
        ]
    );
}
