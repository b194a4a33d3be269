use tao_format::demuxer::Demuxer;
use tao_format::demuxers::h264es::H264EsDemuxer;
use tao_format::error::TaoError;
use tao_format::io::{IoContext, MemoryBackend};
use tao_format::media::{CodecId, MediaType, SeekFlags};

fn sample_stream() -> Vec<u8> {
    let mut d = Vec::new();
    d.extend_from_slice(&[0, 0, 0, 1, 0x67, 0xAA]);
    d.extend_from_slice(&[0, 0, 0, 1, 0x68, 0xBB]);
    d.extend_from_slice(&[0, 0, 1, 0x65, 0xCC]);
    d.extend_from_slice(&[0, 0, 1, 0x41, 0xDD]);
    d.extend_from_slice(&[0, 0, 1, 0x09, 0x10]);
    d.extend_from_slice(&[0, 0, 1, 0x41, 0xEE]);
    d
}

#[test]
fn h264es_access_units() {
    let data = sample_stream();
    let mut io = IoContext::new(MemoryBackend::from_data(data.clone()));
    let mut demuxer = H264EsDemuxer::create().unwrap();
    demuxer.open(&mut io).unwrap();
    assert_eq!(demuxer.streams().len(), 1);
    assert_eq!(demuxer.streams()[0].codec_id, CodecId::H264);
    assert_eq!(demuxer.streams()[0].media_type, MediaType::Video);

    let p1 = demuxer.read_packet(&mut io).unwrap();
    assert_eq!(&p1.data[..], &data[0..17]);
    assert!(p1.is_keyframe);
    assert_eq!(p1.pts, 0);
    assert_eq!(p1.pos, 0);
    assert_eq!(p1.duration, 1);

    let p2 = demuxer.read_packet(&mut io).unwrap();
    assert_eq!(&p2.data[..], &data[17..22]);
    assert!(!p2.is_keyframe);
    assert_eq!(p2.pts, 1);
    assert_eq!(p2.dts, 1);

    let p3 = demuxer.read_packet(&mut io).unwrap();
    assert_eq!(&p3.data[..], &data[22..32]);
    assert_eq!(p3.pts, 2);
    assert_eq!(p3.pos, 22);

    assert!(matches!(demuxer.read_packet(&mut io), Err(TaoError::Eof)));
    assert!(matches!(demuxer.read_packet(&mut io), Err(TaoError::Eof)));
}

#[test]
fn h264es_open_needs_start_code() {
    let mut io = IoContext::new(MemoryBackend::from_data(vec![1, 2, 3, 4, 5]));
    let mut demuxer = H264EsDemuxer::create().unwrap();
    assert!(matches!(demuxer.open(&mut io), Err(TaoError::InvalidData(_))));
    assert_eq!(demuxer.streams().len(), 0);
}

#[test]
fn h264es_seek_not_supported() {
    let mut io = IoContext::new(MemoryBackend::from_data(sample_stream()));
    let mut demuxer = H264EsDemuxer::create().unwrap();
    demuxer.open(&mut io).unwrap();
    assert!(matches!(
        demuxer.seek(&mut io, 0, 0, SeekFlags::default()),
        Err(TaoError::NotImplemented(_))
    ));
}
