use tao_format::demuxer::Demuxer;
use tao_format::demuxers::flv::FlvDemuxer;
use tao_format::error::TaoError;
use tao_format::io::{IoContext, MemoryBackend};
use tao_format::media::{CodecId, MediaType, SeekFlags, StreamParams};

const TAG_AUDIO: u8 = 8;
const TAG_VIDEO: u8 = 9;
const TAG_SCRIPT: u8 = 18;

fn build_flv_header(has_audio: bool, has_video: bool) -> Vec<u8> {
    let mut data = Vec::new();
    data.extend_from_slice(b"FLV");
    data.push(1);
    let flags = if has_audio { 0x04 } else { 0 } | if has_video { 0x01 } else { 0 };
    data.push(flags);
    data.extend_from_slice(&9u32.to_be_bytes());
    data.extend_from_slice(&0u32.to_be_bytes());
    data
}

fn build_tag(tag_type: u8, timestamp: u32, body: &[u8]) -> Vec<u8> {
    let mut tag = Vec::new();
    let data_size = body.len() as u32;
    tag.push(tag_type);
    tag.push((data_size >> 16) as u8);
    tag.push((data_size >> 8) as u8);
    tag.push(data_size as u8);
    tag.push((timestamp >> 16) as u8);
    tag.push((timestamp >> 8) as u8);
    tag.push(timestamp as u8);
    tag.push((timestamp >> 24) as u8);
    tag.extend_from_slice(&[0, 0, 0]);
    tag.extend_from_slice(body);
    let total_tag_size = 11 + data_size;
    tag.extend_from_slice(&total_tag_size.to_be_bytes());
    tag
}

fn build_audio_tag(timestamp: u32, payload: &[u8]) -> Vec<u8> {
    let mut body = vec![0xAF, 1];
    body.extend_from_slice(payload);
    build_tag(TAG_AUDIO, timestamp, &body)
}

fn build_video_tag(timestamp: u32, is_keyframe: bool, payload: &[u8]) -> Vec<u8> {
    let frame_type: u8 = if is_keyframe { 1 } else { 2 };
    let mut body = vec![(frame_type << 4) | 7, 1, 0, 0, 0];
    body.extend_from_slice(payload);
    build_tag(TAG_VIDEO, timestamp, &body)
}

fn build_minimal_flv() -> Vec<u8> {
    let mut data = build_flv_header(true, true);
    data.extend_from_slice(&build_video_tag(0, true, &[0xDE, 0xAD]));
    data.extend_from_slice(&build_audio_tag(0, &[0xBE, 0xEF]));
    data.extend_from_slice(&build_video_tag(33, false, &[0xCA, 0xFE]));
    data.extend_from_slice(&build_audio_tag(23, &[0xF0, 0x0D]));
    data
}

fn amf_number(key: &[u8], value: f64) -> Vec<u8> {
    let mut v = Vec::new();
    v.extend_from_slice(&(key.len() as u16).to_be_bytes());
    v.extend_from_slice(key);
    v.push(0x00);
    v.extend_from_slice(&value.to_bits().to_be_bytes());
    v
}

fn open(data: Vec<u8>) -> (Box<dyn Demuxer>, IoContext) {
    let mut io = IoContext::new(MemoryBackend::from_data(data));
    let mut demuxer = FlvDemuxer::create().unwrap();
    demuxer.open(&mut io).unwrap();
    (demuxer, io)
}

#[test]
fn test_parse_minimal_flv() {
    let (demuxer, _io) = open(build_minimal_flv());
    let streams = demuxer.streams();
    assert!(streams.len() >= 2, "expected at least 2 streams, got {}", streams.len());
    let has_video = streams.iter().any(|s| s.media_type == MediaType::Video);
    let has_audio = streams.iter().any(|s| s.media_type == MediaType::Audio);
    assert!(has_video, "expected a video stream");
    assert!(has_audio, "expected an audio stream");
}

#[test]
fn test_read_flv_packets() {
    let (mut demuxer, mut io) = open(build_minimal_flv());
    let mut packets = Vec::new();
    loop {
        match demuxer.read_packet(&mut io) {
            Ok(pkt) => packets.push(pkt),
            Err(TaoError::Eof) => break,
            Err(e) => panic!("reading a packet failed: {:?}", e),
        }
    }
    assert!(packets.len() >= 4, "expected at least 4 packets, got {}", packets.len());
}

#[test]
fn test_video_keyframe_flag() {
    let (mut demuxer, mut io) = open(build_minimal_flv());
    let mut video_keyframes = 0;
    let mut video_non_keyframes = 0;
    loop {
        match demuxer.read_packet(&mut io) {
            Ok(pkt) => {
                if let Some(idx) = demuxer.streams().iter().position(|s| s.media_type == MediaType::Video) {
                    if pkt.stream_index == idx {
                        if pkt.is_keyframe {
                            video_keyframes += 1;
                        } else {
                            video_non_keyframes += 1;
                        }
                    }
                }
            }
            Err(TaoError::Eof) => break,
            Err(e) => panic!("reading a packet failed: {:?}", e),
        }
    }
    assert!(video_keyframes >= 1, "expected a keyframe");
    assert!(video_non_keyframes >= 1, "expected a non-keyframe");
}

#[test]
fn test_audio_only_flv() {
    let mut data = build_flv_header(true, false);
    data.extend_from_slice(&build_audio_tag(0, &[0xAA; 50]));
    data.extend_from_slice(&build_audio_tag(23, &[0xBB; 50]));
    let (demuxer, _io) = open(data);
    assert_eq!(demuxer.streams().len(), 1);
    assert_eq!(demuxer.streams()[0].media_type, MediaType::Audio);
    assert_eq!(demuxer.streams()[0].codec_id, CodecId::Aac);
}

#[test]
fn flv_packets_in_order_with_timestamps() {
    let (mut demuxer, mut io) = open(build_minimal_flv());
    let p1 = demuxer.read_packet(&mut io).unwrap();
    assert_eq!(p1.stream_index, 0);
    assert_eq!(&p1.data[..], &[0xDE, 0xAD]);
    assert!(p1.is_keyframe);
    let p2 = demuxer.read_packet(&mut io).unwrap();
    assert_eq!(p2.stream_index, 1);
    assert_eq!(&p2.data[..], &[0xBE, 0xEF]);
    let p3 = demuxer.read_packet(&mut io).unwrap();
    assert_eq!(p3.pts, 33);
    assert_eq!(p3.dts, 33);
    assert!(!p3.is_keyframe);
    let p4 = demuxer.read_packet(&mut io).unwrap();
    assert_eq!(p4.pts, 23);
    assert_eq!(p4.time_base.num, 1);
    assert_eq!(p4.time_base.den, 1000);
    assert!(matches!(demuxer.read_packet(&mut io), Err(TaoError::Eof)));
}

#[test]
fn flv_sequence_headers_become_codec_data() {
    let mut data = build_flv_header(true, true);
    data.extend_from_slice(&build_tag(TAG_VIDEO, 0, &[0x17, 0, 0, 0, 0, 1, 2, 3]));
    data.extend_from_slice(&build_tag(TAG_AUDIO, 0, &[0xAF, 0, 0x12, 0x10]));
    data.extend_from_slice(&build_tag(TAG_VIDEO, 40, &[0x27, 1, 0xFF, 0xFF, 0xF6, 9]));
    let (mut demuxer, mut io) = open(data);
    let streams = demuxer.streams();
    assert_eq!(streams[0].codec_id, CodecId::H264);
    assert_eq!(streams[0].extra_data, vec![1, 2, 3]);
    assert_eq!(streams[1].extra_data, vec![0x12, 0x10]);
    match &streams[1].params {
        StreamParams::Audio(a) => {
            assert_eq!(a.sample_rate, 44100);
            assert_eq!(a.channel_layout.channels, 2);
        }
        _ => panic!("expected audio parameters"),
    }
    // the composition offset is -10
    let p = demuxer.read_packet(&mut io).unwrap();
    assert_eq!(&p.data[..], &[9]);
    assert_eq!(p.dts, 40);
    assert_eq!(p.pts, 30);
    assert!(matches!(demuxer.read_packet(&mut io), Err(TaoError::Eof)));
}

#[test]
fn flv_metadata_duration_and_size() {
    let mut script = vec![0x02, 0x00, 0x0A];
    script.extend_from_slice(b"onMetaData");
    script.extend_from_slice(&amf_number(b"duration", 2.5));
    script.extend_from_slice(&amf_number(b"width", 640.75));
    script.extend_from_slice(&amf_number(b"height", 480.0));
    let mut data = build_flv_header(false, true);
    data.extend_from_slice(&build_video_tag(0, true, &[1]));
    data.extend_from_slice(&build_tag(TAG_SCRIPT, 0, &script));
    let (demuxer, _io) = open(data);
    let s = &demuxer.streams()[0];
    assert_eq!(s.duration, 2500);
    match &s.params {
        StreamParams::Video(v) => {
            assert_eq!(v.width, 640);
            assert_eq!(v.height, 480);
        }
        _ => panic!("expected video parameters"),
    }
}

#[test]
fn flv_metadata_ignores_non_positive_numbers() {
    let mut script = Vec::new();
    script.extend_from_slice(&amf_number(b"duration", -3.0));
    script.extend_from_slice(&amf_number(b"width", f64::INFINITY));
    let mut data = build_flv_header(false, true);
    data.extend_from_slice(&build_video_tag(0, true, &[1]));
    data.extend_from_slice(&build_tag(TAG_SCRIPT, 0, &script));
    let (demuxer, _io) = open(data);
    let s = &demuxer.streams()[0];
    assert_eq!(s.duration, -1);
    match &s.params {
        StreamParams::Video(v) => assert_eq!(v.width, 0),
        _ => panic!("expected video parameters"),
    }
}

#[test]
fn flv_open_errors() {
    let mut io = IoContext::new(MemoryBackend::from_data(b"FLX\x01\x05\0\0\0\x09".to_vec()));
    let mut demuxer = FlvDemuxer::create().unwrap();
    assert!(matches!(demuxer.open(&mut io), Err(TaoError::InvalidData(_))));
    let mut io = IoContext::new(MemoryBackend::from_data(build_flv_header(true, true)));
    let mut demuxer = FlvDemuxer::create().unwrap();
    assert!(matches!(demuxer.open(&mut io), Err(TaoError::InvalidData(_))));
    let mut io = IoContext::new(MemoryBackend::from_data(b"FL".to_vec()));
    let mut demuxer = FlvDemuxer::create().unwrap();
    assert!(matches!(demuxer.open(&mut io), Err(TaoError::Eof)));
    let mut data = build_flv_header(true, false);
    let mut tag = build_audio_tag(0, &[1, 2, 3]);
    tag.truncate(14);
    data.extend_from_slice(&tag);
    let mut io = IoContext::new(MemoryBackend::from_data(data));
    let mut demuxer = FlvDemuxer::create().unwrap();
    assert!(matches!(demuxer.open(&mut io), Err(TaoError::Eof)));
}

#[test]
fn flv_seek_not_implemented() {
    let (mut demuxer, mut io) = open(build_minimal_flv());
    let r = demuxer.seek(&mut io, 0, 0, SeekFlags::default());
    assert!(matches!(r, Err(TaoError::NotImplemented(_))));
}
