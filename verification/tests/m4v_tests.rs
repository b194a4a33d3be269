use tao_format::demuxer::Demuxer;
use tao_format::demuxers::m4v::M4vDemuxer;
use tao_format::error::TaoError;
use tao_format::io::{IoContext, MemoryBackend};
use tao_format::media::{CodecId, MediaType, SeekFlags};

fn sample() -> Vec<u8> {
    let mut d = Vec::new();
    d.extend_from_slice(&[0, 0, 1, 0xB0, 0x01]);
    d.extend_from_slice(&[0, 0, 1, 0xB5, 0x09]);
    d.extend_from_slice(&[0, 0, 1, 0x20, 0xAA, 0xBB]);
    d.extend_from_slice(&[0, 0, 1, 0xB6, 0x11, 0x22]);
    d.extend_from_slice(&[0, 0, 1, 0xB6, 0x33]);
    d.extend_from_slice(&[0, 0, 1, 0xB6, 0x44, 0x55, 0x66]);
    d.extend_from_slice(&[0, 0, 1, 0xB1]);
    d
}

#[test]
fn m4v_headers_then_one_packet_per_vop() {
    let data = sample();
    let mut io = IoContext::new(MemoryBackend::from_data(data.clone()));
    let mut demuxer = M4vDemuxer::create().unwrap();
    demuxer.open(&mut io).unwrap();
    let s = &demuxer.streams()[0];
    assert_eq!(s.codec_id, CodecId::Mpeg4);
    assert_eq!(s.media_type, MediaType::Video);
    assert_eq!(&s.extra_data[..], &data[0..16]);
    assert_eq!(s.time_base.num, 1);
    assert_eq!(s.time_base.den, 25);

    let extra = s.extra_data.clone();
    let p0 = demuxer.read_packet(&mut io).unwrap();
    assert_eq!(&p0.data[..], &data[0..22]);
    assert!(p0.data.starts_with(&extra));
    assert_eq!(p0.pts, 0);
    assert_eq!(p0.duration, 1);
    assert!(p0.is_keyframe);
    let p1 = demuxer.read_packet(&mut io).unwrap();
    assert_eq!(&p1.data[..], &data[22..27]);
    assert_eq!(p1.pts, 1);
    let p2 = demuxer.read_packet(&mut io).unwrap();
    assert_eq!(&p2.data[..], &data[27..34]);
    assert_eq!(p2.dts, 2);
    assert!(matches!(demuxer.read_packet(&mut io), Err(TaoError::Eof)));
}

#[test]
fn m4v_without_vol_keeps_first_vop_in_headers() {
    let data = vec![0, 0, 1, 0xB6, 0xAA, 0, 0, 1, 0xB6, 0xBB];
    let mut io = IoContext::new(MemoryBackend::from_data(data.clone()));
    let mut demuxer = M4vDemuxer::create().unwrap();
    demuxer.open(&mut io).unwrap();
    assert_eq!(&demuxer.streams()[0].extra_data[..], &data[0..5]);
    let p0 = demuxer.read_packet(&mut io).unwrap();
    assert_eq!(&p0.data[..], &data[..]);
    assert!(matches!(demuxer.read_packet(&mut io), Err(TaoError::Eof)));
}

#[test]
fn m4v_open_errors_and_seek() {
    let mut io = IoContext::new(MemoryBackend::from_data(vec![1, 2, 3, 4, 5, 6]));
    let mut demuxer = M4vDemuxer::create().unwrap();
    assert!(matches!(demuxer.open(&mut io), Err(TaoError::InvalidData(_))));
    assert_eq!(demuxer.streams().len(), 0);

    let mut io = IoContext::new(MemoryBackend::from_data(vec![0, 0, 1, 0xB1, 0, 0, 1, 0xB6]));
    let mut demuxer = M4vDemuxer::create().unwrap();
    assert!(matches!(demuxer.open(&mut io), Err(TaoError::InvalidData(_))));

    let mut io = IoContext::new(MemoryBackend::from_data(sample()));
    let mut demuxer = M4vDemuxer::create().unwrap();
    demuxer.open(&mut io).unwrap();
    assert!(matches!(demuxer.seek(&mut io, 0, 0, SeekFlags::default()), Err(TaoError::NotImplemented(_))));
}
