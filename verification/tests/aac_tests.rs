use tao_format::demuxer::Demuxer;
use tao_format::demuxers::aac::{parse_adts_header, AacDemuxer, AacProbe};
use tao_format::error::TaoError;
use tao_format::io::{IoContext, MemoryBackend};
use tao_format::media::{CodecId, MediaType, SeekFlags, StreamParams};
use tao_format::probe::{FormatProbe, SCORE_MAX};

/// Builds a valid ADTS frame: profile LC, 48 kHz, stereo, no CRC.
fn build_adts_frame(payload: &[u8]) -> Vec<u8> {
    let frame_length = 7 + payload.len() as u16;
    let mut frame = vec![0u8; 7];
    frame[0] = 0xFF;
    frame[1] = 0xF1;
    frame[2] = 0x4C;
    frame[3] = 0x80 | ((frame_length >> 11) as u8 & 0x03);
    frame[4] = (frame_length >> 3) as u8;
    frame[5] = ((frame_length & 0x07) as u8) << 5 | 0x1F;
    frame[6] = 0xFC;
    frame.extend_from_slice(payload);
    frame
}

#[test]
fn test_adts_header_parse() {
    let frame = build_adts_frame(&[0xAA; 10]);
    let header = parse_adts_header(&frame).expect("header parses");
    assert_eq!(header.profile, 1);
    assert_eq!(header.sampling_frequency_index, 3);
    assert_eq!(header.channel_configuration, 2);
    assert_eq!(header.frame_length, 17);
    assert!(!header.has_crc);
    assert_eq!(header.header_size, 7);
}

#[test]
fn test_adts_invalid_sync() {
    let data = [0x00; 7];
    assert!(parse_adts_header(&data).is_none());
}

#[test]
fn test_probe_adts_sync() {
    let probe = AacProbe;
    let mut data = build_adts_frame(&[0xAA; 100]);
    data.extend_from_slice(&build_adts_frame(&[0xBB; 100]));
    assert_eq!(probe.probe(&data, None), Some(SCORE_MAX));
}

#[test]
fn test_probe_aac_extension() {
    let probe = AacProbe;
    assert!(probe.probe(&[], Some("audio.aac")).is_some());
    assert!(probe.probe(&[], Some("audio.mp3")).is_none());
}

#[test]
fn adts_single_frame_scores_lower() {
    let probe = AacProbe;
    let data = build_adts_frame(&[0xAA; 20]);
    assert_eq!(probe.probe(&data, None), Some(SCORE_MAX - 10));
}

#[test]
fn adts_probe_skips_id3_tag() {
    let probe = AacProbe;
    let mut data = b"ID3\x04\x00\x00\x00\x00\x00\x04".to_vec();
    data.extend_from_slice(&[0u8; 4]);
    data.extend_from_slice(&build_adts_frame(&[1; 5]));
    data.extend_from_slice(&build_adts_frame(&[2; 5]));
    assert_eq!(probe.probe(&data, None), Some(SCORE_MAX));
}

fn open(data: Vec<u8>) -> (Box<dyn Demuxer>, IoContext) {
    let mut io = IoContext::new(MemoryBackend::from_data(data));
    let mut demuxer = AacDemuxer::create().unwrap();
    demuxer.open(&mut io).unwrap();
    (demuxer, io)
}

#[test]
fn test_basic_stream_info() {
    let mut data = Vec::new();
    for _ in 0..5 {
        data.extend_from_slice(&build_adts_frame(&[0xAA; 50]));
    }
    let (demuxer, _io) = open(data);
    let streams = demuxer.streams();
    assert_eq!(streams.len(), 1);
    assert_eq!(streams[0].codec_id, CodecId::Aac);
    assert_eq!(streams[0].media_type, MediaType::Audio);
    if let StreamParams::Audio(ref a) = streams[0].params {
        assert_eq!(a.sample_rate, 48000);
        assert_eq!(a.channel_layout.channels, 2);
        assert_eq!(a.frame_size, 1024);
    } else {
        panic!("expected audio parameters");
    }
}

#[test]
fn aac_test_read_packets() {
    let payload = vec![0xAA; 50];
    let mut data = Vec::new();
    for _ in 0..3 {
        data.extend_from_slice(&build_adts_frame(&payload));
    }
    let (mut demuxer, mut io) = open(data);
    let pkt0 = demuxer.read_packet(&mut io).unwrap();
    assert_eq!(pkt0.pts, 0);
    assert_eq!(pkt0.data.len(), 50);
    assert!(pkt0.is_keyframe);
    assert_eq!(pkt0.duration, 1024);
    let pkt1 = demuxer.read_packet(&mut io).unwrap();
    assert_eq!(pkt1.pts, 1024);
    let pkt2 = demuxer.read_packet(&mut io).unwrap();
    assert_eq!(pkt2.pts, 2048);
    assert!(demuxer.read_packet(&mut io).is_err());
}

#[test]
fn test_id3v2_skip() {
    let mut data = Vec::new();
    data.extend_from_slice(b"ID3");
    data.push(4);
    data.push(0);
    data.push(0);
    data.extend_from_slice(&[0x00, 0x00, 0x01, 0x00]);
    data.extend_from_slice(&[0u8; 128]);
    for _ in 0..3 {
        data.extend_from_slice(&build_adts_frame(&[0xCC; 40]));
    }
    let (mut demuxer, mut io) = open(data);
    let pkt = demuxer.read_packet(&mut io).unwrap();
    assert_eq!(pkt.data.len(), 40);
}

#[test]
fn test_extra_data_audio_specific_config() {
    let mut data = Vec::new();
    for _ in 0..2 {
        data.extend_from_slice(&build_adts_frame(&[0xAA; 20]));
    }
    let (demuxer, _io) = open(data);
    let extra = &demuxer.streams()[0].extra_data;
    assert_eq!(extra.len(), 2, "AudioSpecificConfig is two bytes");
    assert_eq!(extra[0], 0x11);
    assert_eq!(extra[1], 0x90);
}

#[test]
fn aac_packet_payload_and_timing() {
    let mut data = Vec::new();
    data.extend_from_slice(&[9, 9, 9]);
    data.extend_from_slice(&build_adts_frame(&[1, 2, 3]));
    data.extend_from_slice(&build_adts_frame(&[4, 5]));
    let mut io = IoContext::new(MemoryBackend::from_data(data));
    let mut demuxer = AacDemuxer::create().unwrap();
    demuxer.open(&mut io).unwrap();
    let s = &demuxer.streams()[0];
    assert_eq!(s.time_base.den, 48000);
    assert_eq!(s.duration, -1);
    let p0 = demuxer.read_packet(&mut io).unwrap();
    assert_eq!(&p0.data[..], &[1, 2, 3]);
    assert_eq!(p0.time_base.num, 1);
    assert_eq!(p0.time_base.den, 48000);
    let p1 = demuxer.read_packet(&mut io).unwrap();
    assert_eq!(&p1.data[..], &[4, 5]);
    assert_eq!(p1.pts, 1024);
    assert!(matches!(demuxer.read_packet(&mut io), Err(TaoError::Eof)));
}

#[test]
fn aac_errors() {
    let mut io = IoContext::new(MemoryBackend::from_data(vec![0u8; 5]));
    let mut demuxer = AacDemuxer::create().unwrap();
    assert!(matches!(demuxer.open(&mut io), Err(TaoError::Eof)));

    let mut io = IoContext::new(MemoryBackend::from_data(vec![0u8; 20]));
    let mut demuxer = AacDemuxer::create().unwrap();
    assert!(matches!(demuxer.open(&mut io), Err(TaoError::Eof)));

    let mut data = build_adts_frame(&[1, 2, 3]);
    data.extend_from_slice(&[0u8; 8]);
    let (mut demuxer, mut io) = open(data);
    demuxer.read_packet(&mut io).unwrap();
    assert!(matches!(demuxer.read_packet(&mut io), Err(TaoError::InvalidData(_))));
    assert!(matches!(demuxer.seek(&mut io, 0, 0, SeekFlags::default()), Err(TaoError::NotImplemented(_))));
}
