use tao_format::demuxer::Demuxer;
use tao_format::demuxers::aiff::{read_extended_rate, write_extended_rate, AiffDemuxer};
use tao_format::error::TaoError;
use tao_format::io::{IoContext, MemoryBackend, SeekFrom};
use tao_format::media::{
    AudioStreamParams, ChannelLayout, CodecId, MediaType, Packet, Rational, SampleFormat,
    SeekFlags, Stream, StreamParams,
};
use tao_format::muxer::Muxer;
use tao_format::muxers::aiff::AiffMuxer;

fn make_simple_aiff(pcm_data: &[u8], sample_rate: u32, channels: u16, bits: u16) -> Vec<u8> {
    let block_align = channels * (bits / 8);
    let num_sample_frames = if block_align > 0 {
        pcm_data.len() as u32 / block_align as u32
    } else {
        0
    };
    let comm_size: u32 = 18;
    let ssnd_data_size = pcm_data.len() as u32;
    let ssnd_chunk_size = 8 + ssnd_data_size;
    let form_size = 4 + 8 + comm_size + 8 + ssnd_chunk_size;
    let sr_bytes = write_extended_rate(sample_rate);
    let mut buf = Vec::new();
    buf.extend_from_slice(b"FORM");
    buf.extend_from_slice(&form_size.to_be_bytes());
    buf.extend_from_slice(b"AIFF");
    buf.extend_from_slice(b"COMM");
    buf.extend_from_slice(&comm_size.to_be_bytes());
    buf.extend_from_slice(&channels.to_be_bytes());
    buf.extend_from_slice(&num_sample_frames.to_be_bytes());
    buf.extend_from_slice(&bits.to_be_bytes());
    buf.extend_from_slice(&sr_bytes);
    buf.extend_from_slice(b"SSND");
    buf.extend_from_slice(&ssnd_chunk_size.to_be_bytes());
    buf.extend_from_slice(&0u32.to_be_bytes());
    buf.extend_from_slice(&0u32.to_be_bytes());
    buf.extend_from_slice(pcm_data);
    buf
}

fn make_audio_stream(codec_id: CodecId, sample_rate: u32, channels: u32) -> Stream {
    Stream {
        index: 0,
        media_type: MediaType::Audio,
        codec_id,
        time_base: Rational::new(1, sample_rate as i32),
        duration: 0,
        start_time: 0,
        nb_frames: 0,
        extra_data: Vec::new(),
        params: StreamParams::Audio(AudioStreamParams {
            sample_rate,
            channel_layout: ChannelLayout::from_channels(channels),
            sample_format: SampleFormat::S16,
            bit_rate: 0,
            frame_size: 0,
        }),
        metadata: Vec::new(),
    }
}

#[test]
fn aiff_test_demux_basic_stream_info() {
    let pcm = vec![0x00, 0x01, 0x7F, 0xFF, 0x80, 0x00, 0x00, 0x01];
    let aiff = make_simple_aiff(&pcm, 44100, 1, 16);
    let mut io = IoContext::new(MemoryBackend::from_data(aiff));
    let mut demuxer = AiffDemuxer::create().unwrap();
    demuxer.open(&mut io).unwrap();
    let streams = demuxer.streams();
    assert_eq!(streams.len(), 1);
    let s = &streams[0];
    assert_eq!(s.media_type, MediaType::Audio);
    assert_eq!(s.codec_id, CodecId::PcmS16be);
    assert_eq!(s.nb_frames, 4);
}

#[test]
fn aiff_test_demux_read_packet() {
    let pcm = vec![0x00, 0x01, 0x7F, 0xFF, 0x80, 0x00, 0x00, 0x01];
    let aiff = make_simple_aiff(&pcm, 44100, 1, 16);
    let mut io = IoContext::new(MemoryBackend::from_data(aiff));
    let mut demuxer = AiffDemuxer::create().unwrap();
    demuxer.open(&mut io).unwrap();
    let pkt = demuxer.read_packet(&mut io).unwrap();
    assert_eq!(&pkt.data[..], &pcm[..]);
    assert_eq!(pkt.pts, 0);
    assert_eq!(pkt.duration, 4);
    assert!(pkt.is_keyframe);
    let err = demuxer.read_packet(&mut io).unwrap_err();
    assert!(matches!(err, TaoError::Eof));
}

#[test]
fn aiff_test_demux_duration() {
    let pcm = vec![0u8; 44100 * 2];
    let aiff = make_simple_aiff(&pcm, 44100, 1, 16);
    let mut io = IoContext::new(MemoryBackend::from_data(aiff));
    let mut demuxer = AiffDemuxer::create().unwrap();
    demuxer.open(&mut io).unwrap();
    let s = &demuxer.streams()[0];
    let rate = match &s.params {
        StreamParams::Audio(a) => a.sample_rate,
        _ => panic!("expected audio parameters"),
    };
    let duration = s.duration as f64 / rate as f64;
    assert!((duration - 1.0).abs() < 0.001);
}

#[test]
fn test_ieee_extended_round_trip() {
    let rates = [8000u32, 11025, 22050, 44100, 48000, 96000];
    for rate in rates {
        let encoded = write_extended_rate(rate);
        let decoded = read_extended_rate(&encoded);
        assert_eq!(decoded, rate);
    }
}

#[test]
fn aiff_extended_rate_known_bytes() {
    assert_eq!(write_extended_rate(44100), [0x40, 0x0E, 0xAC, 0x44, 0, 0, 0, 0, 0, 0]);
    assert_eq!(write_extended_rate(0), [0u8; 10]);
    assert_eq!(read_extended_rate(&[0x7F, 0xFF, 0, 0, 0, 0, 0, 0, 0, 0]), u32::MAX);
    assert_eq!(read_extended_rate(&[0xC0, 0x0E, 0xAC, 0x44, 0, 0, 0, 0, 0, 0]), 0);
    // 1.5 rounds half away from zero to 2; 1.25 rounds to 1
    assert_eq!(read_extended_rate(&[0x3F, 0xFF, 0xC0, 0, 0, 0, 0, 0, 0, 0]), 2);
    assert_eq!(read_extended_rate(&[0x3F, 0xFF, 0xA0, 0, 0, 0, 0, 0, 0, 0]), 1);
    // 2^40 saturates
    assert_eq!(read_extended_rate(&[0x40, 0x27, 0x80, 0, 0, 0, 0, 0, 0, 0]), u32::MAX);
}

#[test]
fn test_non_form_file_error() {
    let bad = b"NOT_FORM_DATA_HERE".to_vec();
    let mut io = IoContext::new(MemoryBackend::from_data(bad));
    let mut demuxer = AiffDemuxer::create().unwrap();
    let err = demuxer.open(&mut io).unwrap_err();
    assert!(matches!(err, TaoError::InvalidData(_)));
}

#[test]
fn aiff_open_errors() {
    let pcm = vec![0u8; 4];
    // SSND before COMM
    let mut bad = Vec::new();
    bad.extend_from_slice(b"FORM\0\0\0\x20AIFFSSND\0\0\0\x0c\0\0\0\0\0\0\0\0\0\0\0\0");
    let mut io = IoContext::new(MemoryBackend::from_data(bad));
    let mut demuxer = AiffDemuxer::create().unwrap();
    assert!(matches!(demuxer.open(&mut io), Err(TaoError::InvalidData(_))));
    // no SSND chunk
    let full = make_simple_aiff(&pcm, 8000, 1, 16);
    let cut = full[..38].to_vec();
    let mut io = IoContext::new(MemoryBackend::from_data(cut));
    let mut demuxer = AiffDemuxer::create().unwrap();
    assert!(matches!(demuxer.open(&mut io), Err(TaoError::InvalidData(_))));
    // unsupported bit depth
    let odd = make_simple_aiff(&pcm, 8000, 1, 12);
    let mut io = IoContext::new(MemoryBackend::from_data(odd));
    let mut demuxer = AiffDemuxer::create().unwrap();
    assert!(matches!(demuxer.open(&mut io), Err(TaoError::Unsupported(_))));
    // truncated COMM
    let full = make_simple_aiff(&pcm, 8000, 1, 16);
    let cut = full[..30].to_vec();
    let mut io = IoContext::new(MemoryBackend::from_data(cut));
    let mut demuxer = AiffDemuxer::create().unwrap();
    assert!(matches!(demuxer.open(&mut io), Err(TaoError::Eof)));
}

#[test]
fn aiff_seek_to_frame() {
    let pcm: Vec<u8> = (0u8..16).collect();
    let aiff = make_simple_aiff(&pcm, 8000, 2, 16);
    let mut io = IoContext::new(MemoryBackend::from_data(aiff));
    let mut demuxer = AiffDemuxer::create().unwrap();
    demuxer.open(&mut io).unwrap();
    demuxer.seek(&mut io, 0, 2, SeekFlags::default()).unwrap();
    let pkt = demuxer.read_packet(&mut io).unwrap();
    assert_eq!(&pkt.data[..], &pcm[8..]);
    assert_eq!(pkt.pts, 2);
    assert_eq!(pkt.duration, 2);
}

#[test]
fn aiff_test_mux_basic_write() {
    let mut io = IoContext::new(MemoryBackend::new());
    let stream = make_audio_stream(CodecId::PcmS16be, 44100, 1);
    let mut muxer = AiffMuxer::create().unwrap();
    muxer.write_header(&mut io, &[stream]).unwrap();
    let pcm = vec![0x00, 0x01, 0x7F, 0xFF, 0x80, 0x00, 0x00, 0x01];
    let pkt = Packet::from_data(bytes::Bytes::from(pcm));
    muxer.write_packet(&mut io, &pkt).unwrap();
    muxer.write_trailer(&mut io).unwrap();
}

#[test]
fn aiff_test_mux_demux_roundtrip() {
    let mut io_w = IoContext::new(MemoryBackend::new());
    let stream = make_audio_stream(CodecId::PcmS16be, 44100, 1);
    let mut muxer = AiffMuxer::create().unwrap();
    muxer.write_header(&mut io_w, &[stream]).unwrap();
    let pcm_data = vec![0x00, 0x01, 0x7F, 0xFF, 0x80, 0x00, 0x00, 0x01];
    let pkt = Packet::from_data(bytes::Bytes::from(pcm_data.clone()));
    muxer.write_packet(&mut io_w, &pkt).unwrap();
    muxer.write_trailer(&mut io_w).unwrap();
    io_w.seek(SeekFrom::Start(0)).unwrap();
    let mut demuxer = AiffDemuxer::create().unwrap();
    demuxer.open(&mut io_w).unwrap();
    let streams = demuxer.streams();
    assert_eq!(streams.len(), 1);
    assert_eq!(streams[0].codec_id, CodecId::PcmS16be);
    if let StreamParams::Audio(a) = &streams[0].params {
        assert_eq!(a.sample_rate, 44100);
        assert_eq!(a.channel_layout.channels, 1);
    } else {
        panic!("expected audio parameters");
    }
    let read_pkt = demuxer.read_packet(&mut io_w).unwrap();
    assert_eq!(&read_pkt.data[..], &pcm_data[..]);
}

#[test]
fn aiff_muxed_bytes_are_exact() {
    let mut io = IoContext::new(MemoryBackend::new());
    let stream = make_audio_stream(CodecId::PcmS16be, 44100, 1);
    let mut muxer = AiffMuxer::new();
    muxer.write_aiff_header(&mut io, &[stream]).unwrap();
    let pcm = vec![1u8, 2, 3, 4];
    muxer.write_aiff_packet(&mut io, &Packet::from_vec(pcm.clone())).unwrap();
    muxer.write_aiff_trailer(&mut io).unwrap();
    let expected = make_simple_aiff(&pcm, 44100, 1, 16);
    assert_eq!(io.data(), &expected[..]);
}

#[test]
fn aiff_mux_refuses_bad_streams() {
    let mut io = IoContext::new(MemoryBackend::new());
    let mut muxer = AiffMuxer::new();
    assert!(matches!(muxer.write_aiff_header(&mut io, &[]), Err(TaoError::InvalidArgument(_))));
    let mp3 = make_audio_stream(CodecId::Mp3, 44100, 2);
    assert!(matches!(muxer.write_aiff_header(&mut io, &[mp3]), Err(TaoError::Unsupported(_))));
    assert_eq!(io.data().len(), 0);
}

#[test]
fn aiff_extended_rate_rounds_mantissa_like_a_double() {
    // 44100.5 * 2^48 - 1 with exponent 16398: held as a double the mantissa
    // becomes 44100.5 * 2^48, which rounds to 44101
    let m: u64 = 88201u64 * (1u64 << 47) - 1;
    let mut b = [0u8; 10];
    b[0] = 0x40;
    b[1] = 0x0E;
    b[2..10].copy_from_slice(&m.to_be_bytes());
    assert_eq!(read_extended_rate(&b), 44101);
}
