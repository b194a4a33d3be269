use tao_format::demuxer::Demuxer;
use tao_format::demuxers::flac::FlacDemuxer;
use tao_format::error::TaoError;
use tao_format::io::{IoContext, MemoryBackend};
use tao_format::media::{
    AudioStreamParams, ChannelLayout, CodecId, MediaType, Packet, Rational, SampleFormat, Stream,
    StreamParams,
};
use tao_format::muxer::Muxer;
use tao_format::muxers::flac::{extract_bps_from_streaminfo, FlacMuxer};

fn make_flac_stream() -> Stream {
    Stream {
        index: 0,
        media_type: MediaType::Audio,
        codec_id: CodecId::Flac,
        time_base: Rational::new(1, 44100),
        duration: -1,
        start_time: 0,
        nb_frames: 0,
        extra_data: Vec::new(),
        params: StreamParams::Audio(AudioStreamParams {
            sample_rate: 44100,
            channel_layout: ChannelLayout::from_channels(2),
            sample_format: SampleFormat::S16,
            bit_rate: 0,
            frame_size: 4096,
        }),
        metadata: Vec::new(),
    }
}

#[test]
fn test_parse_stream_info() {
    let mut data = [0u8; 34];
    data[0..2].copy_from_slice(&4096u16.to_be_bytes());
    data[2..4].copy_from_slice(&4096u16.to_be_bytes());
    data[10] = 0x0A;
    data[11] = 0xC4;
    data[12] = 0x42;
    data[13] = 0xF0;
    data[13] |= 0x00;
    let total_low = 441000u32;
    data[14..18].copy_from_slice(&total_low.to_be_bytes());

    let info = FlacDemuxer::parse_stream_info(&data).unwrap();
    assert_eq!(info.min_block_size, 4096);
    assert_eq!(info.max_block_size, 4096);
    assert_eq!(info.sample_rate, 44100);
    assert_eq!(info.channels, 2);
    assert_eq!(info.bits_per_sample, 16);
    assert_eq!(info.total_samples, 441000);
}

#[test]
fn flac_parse_stream_info_too_short() {
    let data = [0u8; 33];
    assert!(matches!(
        FlacDemuxer::parse_stream_info(&data),
        Err(TaoError::InvalidData(_))
    ));
}

#[test]
fn test_write_header() {
    let mut muxer = FlacMuxer::create().unwrap();
    let backend = MemoryBackend::new();
    let mut io = IoContext::new(backend);
    let streams = vec![make_flac_stream()];

    muxer.write_header(&mut io, &streams).unwrap();

    assert_eq!(io.position().unwrap(), 42);
}

#[test]
fn test_unsupported_non_flac_codec() {
    let mut muxer = FlacMuxer::create().unwrap();
    let backend = MemoryBackend::new();
    let mut io = IoContext::new(backend);
    let mut stream = make_flac_stream();
    stream.codec_id = CodecId::PcmS16le;

    let err = muxer.write_header(&mut io, &[stream]).unwrap_err();
    assert!(
        err.message().contains("FLAC 封装器仅支持 FLAC 编解码器"),
        "unexpected message: {:?}",
        err,
    );
}

#[test]
fn flac_header_rejects_two_streams_and_video() {
    let mut muxer = FlacMuxer::create().unwrap();
    let mut io = IoContext::new(MemoryBackend::new());
    let streams = vec![make_flac_stream(), make_flac_stream()];
    assert!(matches!(
        muxer.write_header(&mut io, &streams),
        Err(TaoError::InvalidArgument(_))
    ));
    assert_eq!(io.position().unwrap(), 0);
}

#[test]
fn flac_header_bytes() {
    let mut muxer = FlacMuxer::create().unwrap();
    let mut io = IoContext::new(MemoryBackend::new());
    muxer.write_header(&mut io, &[make_flac_stream()]).unwrap();
    let d = io.data().to_vec();
    assert_eq!(d.len(), 42);
    assert_eq!(&d[0..4], b"fLaC");
    assert_eq!(&d[4..8], &[0x80, 0, 0, 34]);
    // block size 4096, both minimum and maximum
    assert_eq!(&d[8..12], &[0x10, 0x00, 0x10, 0x00]);
    // no frames yet: frame sizes 0
    assert_eq!(&d[12..18], &[0, 0, 0, 0, 0, 0]);
    // 44100 Hz, 2 channels, 16 bits, 0 samples
    assert_eq!(&d[18..22], &[0x0A, 0xC4, 0x42, 0xF0]);
    assert_eq!(&d[22..42], &[0u8; 20]);
}

#[test]
fn flac_write_then_open_round_trip() {
    let mut muxer = FlacMuxer::create().unwrap();
    let mut io = IoContext::new(MemoryBackend::new());
    muxer.write_header(&mut io, &[make_flac_stream()]).unwrap();
    let mut p1 = Packet::from_vec(vec![0xFF, 0xF8, 1, 2, 3]);
    p1.duration = 4096;
    let mut p2 = Packet::from_vec(vec![0xFF, 0xF8, 4, 5, 6, 7, 8]);
    p2.duration = 1000;
    muxer.write_packet(&mut io, &p1).unwrap();
    muxer.write_packet(&mut io, &p2).unwrap();
    muxer.write_trailer(&mut io).unwrap();
    let file = io.data().to_vec();
    assert_eq!(file.len(), 42 + 5 + 7);
    // frame sizes 5 and 7, total samples 5096
    let info = FlacDemuxer::parse_stream_info(&file[8..42]).unwrap();
    assert_eq!(info.min_frame_size, 5);
    assert_eq!(info.max_frame_size, 7);
    assert_eq!(info.total_samples, 5096);
    assert_eq!(info.sample_rate, 44100);
    assert_eq!(info.channels, 2);
    assert_eq!(info.bits_per_sample, 16);
    assert_eq!(info.min_block_size, 4096);

    let mut rio = IoContext::new(MemoryBackend::from_data(file));
    let mut demuxer = FlacDemuxer::create().unwrap();
    demuxer.open(&mut rio).unwrap();
    let streams = demuxer.streams();
    assert_eq!(streams.len(), 1);
    assert_eq!(streams[0].codec_id, CodecId::Flac);
    assert_eq!(streams[0].duration, 5096);
    match &streams[0].params {
        StreamParams::Audio(a) => {
            assert_eq!(a.sample_rate, 44100);
            assert_eq!(a.channel_layout.channels, 2);
            assert_eq!(a.sample_format, SampleFormat::S16);
        }
        _ => panic!("expected audio parameters"),
    }
}

#[test]
fn flac_extract_bps() {
    let mut si = [0u8; 34];
    si[12] = 0x43;
    si[13] = 0x70;
    // bits per sample 24: (1 << 4 | 7) + 1
    assert_eq!(extract_bps_from_streaminfo(&si), 24);
    assert_eq!(extract_bps_from_streaminfo(&si[..13]), 0);
}

#[test]
fn flac_header_takes_bps_from_extra_data() {
    let mut stream = make_flac_stream();
    let mut si = vec![0u8; 34];
    si[12] = 0x43;
    si[13] = 0x70;
    stream.extra_data = si;
    let mut muxer = FlacMuxer::create().unwrap();
    let mut io = IoContext::new(MemoryBackend::new());
    muxer.write_header(&mut io, &[stream]).unwrap();
    let d = io.data().to_vec();
    let info = FlacDemuxer::parse_stream_info(&d[8..42]).unwrap();
    assert_eq!(info.bits_per_sample, 24);
}
