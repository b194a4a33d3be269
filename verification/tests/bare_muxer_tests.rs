use tao_format::demuxer::Demuxer;
use tao_format::demuxers::aac::AacDemuxer;
use tao_format::error::TaoError;
use tao_format::io::{IoContext, MemoryBackend, SeekFrom};
use tao_format::media::{
    AudioStreamParams, ChannelLayout, CodecId, MediaType, Packet, Rational, SampleFormat, Stream,
    StreamParams, VideoStreamParams, PixelFormat,
};
use tao_format::muxer::Muxer;
use tao_format::muxers::aac::AacAdtsMuxer;
use tao_format::muxers::mp3::Mp3Muxer;
use tao_format::demuxers::aac::parse_adts_header;

fn make_stream(codec_id: CodecId, sample_rate: u32, channels: u32) -> Stream {
    Stream {
        index: 0,
        media_type: MediaType::Audio,
        codec_id,
        time_base: Rational::new(1, sample_rate as i32),
        duration: 0,
        start_time: 0,
        nb_frames: 0,
        extra_data: Vec::new(),
        params: StreamParams::Audio(AudioStreamParams {
            sample_rate,
            channel_layout: ChannelLayout::from_channels(channels),
            sample_format: SampleFormat::S16,
            bit_rate: 0,
            frame_size: 1024,
        }),
        metadata: Vec::new(),
    }
}

fn output(io: &mut IoContext) -> Vec<u8> {
    io.seek(SeekFrom::Start(0)).unwrap();
    let size = io.size().unwrap() as usize;
    io.read_bytes(size).unwrap()
}

#[test]
fn test_aac_write_header() {
    let mut io = IoContext::new(MemoryBackend::new());
    let mut muxer = AacAdtsMuxer::create().unwrap();
    muxer.write_header(&mut io, &[make_stream(CodecId::Aac, 44100, 2)]).unwrap();
    muxer.write_trailer(&mut io).unwrap();
}

#[test]
fn test_aac_write_packets() {
    let mut io = IoContext::new(MemoryBackend::new());
    let mut muxer = AacAdtsMuxer::create().unwrap();
    muxer.write_header(&mut io, &[make_stream(CodecId::Aac, 44100, 1)]).unwrap();
    let pkt = Packet::from_data(bytes::Bytes::from(vec![0x12, 0x34, 0x56, 0x78]));
    muxer.write_packet(&mut io, &pkt).unwrap();
    muxer.write_trailer(&mut io).unwrap();
    let out = output(&mut io);
    assert!(out.len() >= 7, "at least the 7 header bytes");
    assert_eq!(out[0], 0xFF);
    assert_eq!(out[1] & 0xF0, 0xF0);
    assert_eq!(&out[7..11], &[0x12, 0x34, 0x56, 0x78]);
}

#[test]
fn test_aac_empty_stream_error() {
    let mut io = IoContext::new(MemoryBackend::new());
    let mut muxer = AacAdtsMuxer::create().unwrap();
    let err = muxer.write_header(&mut io, &[]).unwrap_err();
    assert!(matches!(err, TaoError::InvalidArgument(_)));
}

#[test]
fn adts_header_bytes_exact() {
    let mut io = IoContext::new(MemoryBackend::new());
    let mut muxer = AacAdtsMuxer::create().unwrap();
    muxer.write_header(&mut io, &[make_stream(CodecId::Aac, 48000, 2)]).unwrap();
    muxer.write_packet(&mut io, &Packet::from_vec(vec![0xAA; 10])).unwrap();
    let out = output(&mut io);
    // length 17: rate index 3, two channels, profile 1
    assert_eq!(&out[0..7], &[0xFF, 0xF1, 0x4C, 0x80, 0x02, 0x3F, 0xFC]);
    assert_eq!(out.len(), 17);
    let h = parse_adts_header(&out).unwrap();
    assert_eq!(h.frame_length, 17);
    assert_eq!(h.sampling_frequency_index, 3);
    assert_eq!(h.channel_configuration, 2);
    assert_eq!(h.profile, 1);
    assert!(!h.has_crc);
}

#[test]
fn adts_header_mono_44100() {
    let mut io = IoContext::new(MemoryBackend::new());
    let mut muxer = AacAdtsMuxer::create().unwrap();
    muxer.write_header(&mut io, &[make_stream(CodecId::Aac, 44100, 1)]).unwrap();
    muxer.write_packet(&mut io, &Packet::from_vec(vec![1, 2, 3, 4])).unwrap();
    let out = output(&mut io);
    assert_eq!(&out[0..7], &[0xFF, 0xF1, 0x50, 0x40, 0x01, 0x7F, 0xFC]);
    assert_eq!(&out[7..], &[1, 2, 3, 4]);
}

#[test]
fn adts_muxer_rejections() {
    let mut io = IoContext::new(MemoryBackend::new());
    let mut muxer = AacAdtsMuxer::create().unwrap();
    assert!(matches!(muxer.write_header(&mut io, &[make_stream(CodecId::Aac, 44000, 2)]), Err(TaoError::InvalidArgument(_))));
    assert!(matches!(muxer.write_header(&mut io, &[make_stream(CodecId::Aac, 44100, 8)]), Err(TaoError::InvalidArgument(_))));
    assert!(matches!(muxer.write_header(&mut io, &[make_stream(CodecId::Mp3, 44100, 2)]), Err(TaoError::InvalidArgument(_))));
    let two = [make_stream(CodecId::Aac, 44100, 2), make_stream(CodecId::Aac, 44100, 2)];
    assert!(matches!(muxer.write_header(&mut io, &two), Err(TaoError::InvalidArgument(_))));
    muxer.write_header(&mut io, &[make_stream(CodecId::Aac, 44100, 2)]).unwrap();
    muxer.write_packet(&mut io, &Packet::from_vec(Vec::new())).unwrap();
    assert!(matches!(muxer.write_packet(&mut io, &Packet::from_vec(vec![0; 8185])), Err(TaoError::InvalidData(_))));
    assert_eq!(io.size(), Some(0));
    muxer.write_packet(&mut io, &Packet::from_vec(vec![0; 8184])).unwrap();
    assert_eq!(io.size(), Some(8191));
}

#[test]
fn test_mp3_write_header() {
    let mut io = IoContext::new(MemoryBackend::new());
    let mut muxer = Mp3Muxer::create().unwrap();
    muxer.write_header(&mut io, &[make_stream(CodecId::Mp3, 44100, 2)]).unwrap();
    muxer.write_trailer(&mut io).unwrap();
}

#[test]
fn test_mp3_write_packets() {
    let mut io = IoContext::new(MemoryBackend::new());
    let mut muxer = Mp3Muxer::create().unwrap();
    muxer.write_header(&mut io, &[make_stream(CodecId::Mp3, 44100, 1)]).unwrap();
    let data = vec![0xFF, 0xFB, 0x90, 0x00, 0x01, 0x02, 0x03];
    let pkt = Packet::from_data(bytes::Bytes::from(data.clone()));
    muxer.write_packet(&mut io, &pkt).unwrap();
    muxer.write_trailer(&mut io).unwrap();
    assert_eq!(output(&mut io), data, "frames are passed through");
}

#[test]
fn test_mp3_empty_stream_error() {
    let mut io = IoContext::new(MemoryBackend::new());
    let mut muxer = Mp3Muxer::create().unwrap();
    let err = muxer.write_header(&mut io, &[]).unwrap_err();
    assert!(matches!(err, TaoError::InvalidArgument(_)));
}

#[test]
fn mp3_muxer_rejects_video_and_other_codecs() {
    let mut io = IoContext::new(MemoryBackend::new());
    let mut muxer = Mp3Muxer::create().unwrap();
    assert!(matches!(muxer.write_header(&mut io, &[make_stream(CodecId::Aac, 44100, 2)]), Err(TaoError::InvalidArgument(_))));
    let mut video = make_stream(CodecId::Mp3, 44100, 2);
    video.params = StreamParams::Video(VideoStreamParams {
        width: 1,
        height: 1,
        pixel_format: PixelFormat::Yuv420p,
        frame_rate: Rational::new(25, 1),
        sample_aspect_ratio: Rational::new(1, 1),
        bit_rate: 0,
    });
    assert!(matches!(muxer.write_header(&mut io, &[video]), Err(TaoError::InvalidArgument(_))));
}

#[test]
fn adts_mux_then_demux() {
    let mut io = IoContext::new(MemoryBackend::new());
    let mut muxer = AacAdtsMuxer::create().unwrap();
    muxer.write_header(&mut io, &[make_stream(CodecId::Aac, 44100, 2)]).unwrap();
    let frames = vec![vec![1u8; 30], vec![2u8; 5], vec![3u8; 300]];
    for f in &frames {
        muxer.write_packet(&mut io, &Packet::from_vec(f.clone())).unwrap();
    }
    let data = io.into_backend().into_data();
    let mut io = IoContext::new(MemoryBackend::from_data(data));
    let mut demuxer = AacDemuxer::create().unwrap();
    demuxer.open(&mut io).unwrap();
    for (k, f) in frames.iter().enumerate() {
        let p = demuxer.read_packet(&mut io).unwrap();
        assert_eq!(&p.data[..], &f[..]);
        assert_eq!(p.pts, 1024 * k as i64);
    }
}
