use tao_format::demuxer::Demuxer;
use tao_format::demuxers::mp3::{parse_frame_header, Mp3Demuxer};
use tao_format::error::TaoError;
use tao_format::io::{IoContext, MemoryBackend};
use tao_format::media::{CodecId, MediaType, SeekFlags, StreamParams};

fn make_mp3_frame_header(bitrate_idx: u8, sr_idx: u8, padding: bool) -> [u8; 4] {
    let mut h: u32 = 0xFFFB_0000;
    h |= u32::from(bitrate_idx & 0x0F) << 12;
    h |= u32::from(sr_idx & 0x03) << 10;
    if padding {
        h |= 1 << 9;
    }
    h.to_be_bytes()
}

fn build_mp3_frame(bitrate_idx: u8, sr_idx: u8, padding: bool) -> Vec<u8> {
    let header = make_mp3_frame_header(bitrate_idx, sr_idx, padding);
    let fh = parse_frame_header(u32::from_be_bytes(header)).unwrap();
    let mut frame = vec![0u8; fh.frame_size as usize];
    frame[0..4].copy_from_slice(&header);
    frame
}

fn open(data: Vec<u8>) -> (Box<dyn Demuxer>, IoContext) {
    let mut io = IoContext::new(MemoryBackend::from_data(data));
    let mut demuxer = Mp3Demuxer::create().unwrap();
    demuxer.open(&mut io).unwrap();
    (demuxer, io)
}

#[test]
fn mp3_id3v2_tag_is_skipped() {
    let mut data = Vec::new();
    data.extend_from_slice(b"ID3");
    data.push(4);
    data.push(0);
    data.push(0);
    data.extend_from_slice(&[0, 0, 0, 100]);
    data.extend(std::iter::repeat_n(0u8, 100));
    let frame = build_mp3_frame(9, 0, false);
    data.extend_from_slice(&frame);
    data.extend_from_slice(&frame);

    let (demuxer, _io) = open(data);
    let streams = demuxer.streams();
    assert_eq!(streams.len(), 1);
    assert_eq!(streams[0].codec_id, CodecId::Mp3);
}

#[test]
fn mp3_test_read_packets() {
    let frame = build_mp3_frame(9, 0, false);
    let fh = parse_frame_header(u32::from_be_bytes([frame[0], frame[1], frame[2], frame[3]])).unwrap();
    let mut data = Vec::new();
    for _ in 0..4 {
        data.extend_from_slice(&frame);
    }
    let (mut demuxer, mut io) = open(data);

    let pkt0 = demuxer.read_packet(&mut io).unwrap();
    assert_eq!(pkt0.stream_index, 0);
    assert_eq!(pkt0.pts, 0);
    assert_eq!(pkt0.data.len(), fh.frame_size as usize);
    assert!(pkt0.is_keyframe);

    let pkt1 = demuxer.read_packet(&mut io).unwrap();
    assert_eq!(pkt1.pts, i64::from(fh.samples_per_frame));

    let pkt2 = demuxer.read_packet(&mut io).unwrap();
    assert_eq!(pkt2.pts, 2 * i64::from(fh.samples_per_frame));
}

#[test]
fn mp3_basic_stream_info() {
    let frame = build_mp3_frame(9, 0, false);
    let mut data = Vec::new();
    for _ in 0..3 {
        data.extend_from_slice(&frame);
    }
    let (demuxer, _io) = open(data);
    let stream = &demuxer.streams()[0];
    assert_eq!(stream.media_type, MediaType::Audio);
    assert_eq!(stream.codec_id, CodecId::Mp3);
    if let StreamParams::Audio(ref a) = stream.params {
        assert_eq!(a.sample_rate, 44100);
        assert_eq!(a.bit_rate, 128_000);
        assert_eq!(a.frame_size, 1152);
        assert_eq!(a.channel_layout.channels, 2);
    } else {
        panic!("expected audio stream parameters");
    }
}

#[test]
fn mp3_xing_frames_and_gapless_data() {
    let mut first = build_mp3_frame(9, 0, false);
    first[36..40].copy_from_slice(b"Xing");
    first[40..44].copy_from_slice(&1u32.to_be_bytes());
    first[44..48].copy_from_slice(&100u32.to_be_bytes());
    // encoder delay 576, padding 1000, at bytes 21..24 of the LAME block
    first[48 + 21] = 0x24;
    first[48 + 22] = 0x03;
    first[48 + 23] = 0xE8;
    let frame = build_mp3_frame(9, 0, false);
    let mut data = first.clone();
    data.extend_from_slice(&frame);
    data.extend_from_slice(&frame);
    let (mut demuxer, mut io) = open(data);
    let s = &demuxer.streams()[0];
    assert_eq!(s.nb_frames, 100);
    assert_eq!(s.duration, 115_200);
    assert_eq!(s.time_base.num, 1);
    assert_eq!(s.time_base.den, 44100);
    let mut extra = Vec::new();
    extra.extend_from_slice(&1105u32.to_le_bytes());
    extra.extend_from_slice(&1000u32.to_le_bytes());
    extra.extend_from_slice(&113_624u64.to_le_bytes());
    assert_eq!(s.extra_data, extra);
    let p = demuxer.read_packet(&mut io).unwrap();
    assert_eq!(&p.data[..], &frame[..]);
    assert_eq!(p.pts, 0);
}

#[test]
fn mp3_read_skips_garbage_and_ends_with_eof() {
    let frame = build_mp3_frame(9, 0, false);
    let mut data = Vec::new();
    data.extend_from_slice(&frame);
    data.extend_from_slice(&frame);
    data.extend_from_slice(&[1, 2, 3]);
    data.extend_from_slice(&frame);
    let (mut demuxer, mut io) = open(data);
    let p0 = demuxer.read_packet(&mut io).unwrap();
    assert_eq!(p0.pts, 0);
    let p1 = demuxer.read_packet(&mut io).unwrap();
    assert_eq!(&p1.data[..], &frame[..]);
    assert_eq!(p1.pts, 1152);
    assert!(matches!(demuxer.read_packet(&mut io), Err(TaoError::Eof)));
}

#[test]
fn mp3_open_errors_and_seek() {
    let mut io = IoContext::new(MemoryBackend::from_data(vec![0u8; 64]));
    let mut demuxer = Mp3Demuxer::create().unwrap();
    assert!(matches!(demuxer.open(&mut io), Err(TaoError::InvalidData(_))));
    assert_eq!(demuxer.streams().len(), 0);

    let mut io = IoContext::new(MemoryBackend::from_data(vec![0xFFu8; 5]));
    let mut demuxer = Mp3Demuxer::create().unwrap();
    assert!(matches!(demuxer.open(&mut io), Err(TaoError::Eof)));

    let frame = build_mp3_frame(9, 0, false);
    let mut data = frame.clone();
    data.extend_from_slice(&frame);
    let (mut demuxer, mut io) = open(data);
    assert!(matches!(demuxer.seek(&mut io, 0, 0, SeekFlags::default()), Err(TaoError::NotImplemented(_))));
}
