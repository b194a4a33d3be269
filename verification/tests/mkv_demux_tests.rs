use tao_format::demuxer::Demuxer;
use tao_format::demuxers::mkv::ebml::{
    AUDIO_CHANNELS, AUDIO_SAMPLING_FREQ, AUDIO_SETTINGS, BLOCK, BLOCK_GROUP, CLUSTER, CLUSTER_TIMESTAMP,
    EBML_DOC_TYPE, EBML_HEADER, INFO_DURATION, INFO_TIMESCALE, SEGMENT, SEGMENT_INFO, SIMPLE_BLOCK, TRACKS,
    TRACK_CODEC_ID, TRACK_DEFAULT_DURATION, TRACK_ENTRY, TRACK_NUMBER, TRACK_TYPE, VIDEO_PIXEL_HEIGHT,
    VIDEO_PIXEL_WIDTH, VIDEO_SETTINGS,
};
use tao_format::demuxers::mkv::{mkv_codec_to_id, sample_rate_of, MkvDemuxer};
use tao_format::error::TaoError;
use tao_format::format_id::FormatId;
use tao_format::io::{IoContext, MemoryBackend};
use tao_format::media::{CodecId, MediaType, StreamParams};

fn write_vint_id(buf: &mut Vec<u8>, id: u32) {
    if id <= 0xFF {
        buf.push(id as u8);
    } else if id <= 0xFFFF {
        buf.push((id >> 8) as u8);
        buf.push(id as u8);
    } else if id <= 0xFF_FFFF {
        buf.push((id >> 16) as u8);
        buf.push((id >> 8) as u8);
        buf.push(id as u8);
    } else {
        buf.push((id >> 24) as u8);
        buf.push((id >> 16) as u8);
        buf.push((id >> 8) as u8);
        buf.push(id as u8);
    }
}

fn write_vint_size(buf: &mut Vec<u8>, size: u64) {
    if size < 0x7F {
        buf.push(0x80 | size as u8);
    } else if size < 0x3FFF {
        buf.push(0x40 | (size >> 8) as u8);
        buf.push(size as u8);
    } else {
        buf.push(0x20 | (size >> 16) as u8);
        buf.push((size >> 8) as u8);
        buf.push(size as u8);
    }
}

fn write_element(buf: &mut Vec<u8>, id: u32, content: &[u8]) {
    write_vint_id(buf, id);
    write_vint_size(buf, content.len() as u64);
    buf.extend_from_slice(content);
}

fn write_uint_element(buf: &mut Vec<u8>, id: u32, val: u64) {
    let bytes = if val == 0 {
        vec![0]
    } else {
        let mut b = val.to_be_bytes().to_vec();
        while b.len() > 1 && b[0] == 0 {
            b.remove(0);
        }
        b
    };
    write_element(buf, id, &bytes);
}

fn write_float_element(buf: &mut Vec<u8>, id: u32, val: f64) {
    let bytes = val.to_bits().to_be_bytes();
    write_element(buf, id, &bytes);
}

fn write_string_element(buf: &mut Vec<u8>, id: u32, s: &str) {
    write_element(buf, id, s.as_bytes());
}

fn build_minimal_mkv() -> Vec<u8> {
    let mut data = Vec::new();
    let mut ebml_content = Vec::new();
    write_string_element(&mut ebml_content, EBML_DOC_TYPE, "matroska");
    write_element(&mut data, EBML_HEADER, &ebml_content);

    write_vint_id(&mut data, SEGMENT);
    data.push(0x01);
    data.extend_from_slice(&[0xFF, 0xFF, 0xFF, 0xFF, 0xFF, 0xFF, 0xFF]);

    let mut info_content = Vec::new();
    write_uint_element(&mut info_content, INFO_TIMESCALE, 1_000_000);
    write_float_element(&mut info_content, INFO_DURATION, 5000.0);
    write_element(&mut data, SEGMENT_INFO, &info_content);

    let mut tracks_content = Vec::new();
    {
        let mut track_content = Vec::new();
        write_uint_element(&mut track_content, TRACK_NUMBER, 1);
        write_uint_element(&mut track_content, TRACK_TYPE, 1);
        write_string_element(&mut track_content, TRACK_CODEC_ID, "V_VP9");
        let mut video = Vec::new();
        write_uint_element(&mut video, VIDEO_PIXEL_WIDTH, 1280);
        write_uint_element(&mut video, VIDEO_PIXEL_HEIGHT, 720);
        write_element(&mut track_content, VIDEO_SETTINGS, &video);
        write_element(&mut tracks_content, TRACK_ENTRY, &track_content);
    }
    {
        let mut track_content = Vec::new();
        write_uint_element(&mut track_content, TRACK_NUMBER, 2);
        write_uint_element(&mut track_content, TRACK_TYPE, 2);
        write_string_element(&mut track_content, TRACK_CODEC_ID, "A_OPUS");
        let mut audio = Vec::new();
        let sr_bytes = (48000.0f64).to_bits().to_be_bytes();
        write_element(&mut audio, AUDIO_SAMPLING_FREQ, &sr_bytes);
        write_uint_element(&mut audio, AUDIO_CHANNELS, 2);
        write_element(&mut track_content, AUDIO_SETTINGS, &audio);
        write_element(&mut tracks_content, TRACK_ENTRY, &track_content);
    }
    write_element(&mut data, TRACKS, &tracks_content);

    let mut cluster_content = Vec::new();
    write_uint_element(&mut cluster_content, CLUSTER_TIMESTAMP, 0);
    {
        let mut block = vec![0x81, 0x00, 0x00, 0x80];
        block.extend_from_slice(&[0xDE, 0xAD]);
        write_element(&mut cluster_content, SIMPLE_BLOCK, &block);
    }
    {
        let mut block = vec![0x82, 0x00, 0x00, 0x80];
        block.extend_from_slice(&[0xBE, 0xEF, 0xCA, 0xFE]);
        write_element(&mut cluster_content, SIMPLE_BLOCK, &block);
    }
    write_element(&mut data, CLUSTER, &cluster_content);
    data
}

fn open_minimal() -> (MkvDemuxer, IoContext) {
    let mut io = IoContext::new(MemoryBackend::from_data(build_minimal_mkv()));
    let mut demuxer = MkvDemuxer::new();
    demuxer.open(&mut io).unwrap();
    (demuxer, io)
}

#[test]
fn test_parse_minimal_mkv() {
    let (demuxer, _io) = open_minimal();
    let streams = demuxer.streams();
    assert_eq!(streams.len(), 2, "two tracks");
    assert_eq!(streams[0].media_type, MediaType::Video);
    assert_eq!(streams[0].codec_id, CodecId::Vp9);
    if let StreamParams::Video(ref v) = streams[0].params {
        assert_eq!(v.width, 1280);
        assert_eq!(v.height, 720);
    } else {
        panic!("video parameters expected");
    }
    assert_eq!(streams[1].media_type, MediaType::Audio);
    assert_eq!(streams[1].codec_id, CodecId::Opus);
    if let StreamParams::Audio(ref a) = streams[1].params {
        assert_eq!(a.sample_rate, 48000);
        assert_eq!(a.channel_layout.channels, 2);
    } else {
        panic!("audio parameters expected");
    }
}

#[test]
fn mod_test_read_packets() {
    let (mut demuxer, mut io) = open_minimal();
    let pkt0 = demuxer.read_packet(&mut io).unwrap();
    assert_eq!(pkt0.stream_index, 0);
    assert!(pkt0.is_keyframe);
    assert_eq!(pkt0.data.as_ref(), &[0xDE, 0xAD]);
    let pkt1 = demuxer.read_packet(&mut io).unwrap();
    assert_eq!(pkt1.stream_index, 1);
    assert_eq!(pkt1.data.as_ref(), &[0xBE, 0xEF, 0xCA, 0xFE]);
    assert!(matches!(demuxer.read_packet(&mut io), Err(TaoError::Eof)));
}

#[test]
fn test_duration() {
    let (demuxer, _io) = open_minimal();
    let (width, bits) = demuxer.duration_bits().expect("a duration");
    assert_eq!(width, 8);
    let ticks = f64::from_bits(bits);
    let dur = ticks * demuxer.timescale() as f64 / 1_000_000_000.0;
    assert!((dur - 5.0).abs() < 0.01, "about 5 seconds, got {dur}");
}

#[test]
fn test_codec_id_mapping() {
    assert_eq!(mkv_codec_to_id("V_MPEG4/ISO/AVC"), CodecId::H264);
    assert_eq!(mkv_codec_to_id("V_VP9"), CodecId::Vp9);
    assert_eq!(mkv_codec_to_id("A_OPUS"), CodecId::Opus);
    assert_eq!(mkv_codec_to_id("A_AAC"), CodecId::Aac);
    assert_eq!(mkv_codec_to_id("A_FLAC"), CodecId::Flac);
    assert_eq!(mkv_codec_to_id("UNKNOWN"), CodecId::Unknown);
}

#[test]
fn mkv_sample_rate_from_float_bits() {
    assert_eq!(sample_rate_of((8, 44100.0f64.to_bits())), 44100);
    assert_eq!(sample_rate_of((8, 22050.75f64.to_bits())), 22050);
    assert_eq!(sample_rate_of((4, 48000.0f32.to_bits() as u64)), 48000);
    assert_eq!(sample_rate_of((4, 8000.5f32.to_bits() as u64)), 8000);
    assert_eq!(sample_rate_of((8, 0.5f64.to_bits())), 0);
    assert_eq!(sample_rate_of((8, 1e12f64.to_bits())), u32::MAX);
    assert_eq!(sample_rate_of((8, (-1.0f64).to_bits())), 48000);
    assert_eq!(sample_rate_of((8, f64::NAN.to_bits())), 48000);
    assert_eq!(sample_rate_of((0, 0)), 48000);
}

#[test]
fn mkv_block_group_and_timestamps() {
    let mut data = Vec::new();
    let mut ebml_content = Vec::new();
    write_string_element(&mut ebml_content, EBML_DOC_TYPE, "webm");
    write_element(&mut data, EBML_HEADER, &ebml_content);
    let mut seg = Vec::new();
    let mut info = Vec::new();
    write_uint_element(&mut info, INFO_TIMESCALE, 2_000_000);
    write_element(&mut seg, SEGMENT_INFO, &info);
    let mut tracks = Vec::new();
    let mut t = Vec::new();
    write_uint_element(&mut t, TRACK_NUMBER, 5);
    write_uint_element(&mut t, TRACK_TYPE, 1);
    write_uint_element(&mut t, TRACK_DEFAULT_DURATION, 40_000_000);
    write_string_element(&mut t, TRACK_CODEC_ID, "V_MPEG4/ISO/AVC");
    write_element(&mut tracks, TRACK_ENTRY, &t);
    write_element(&mut seg, TRACKS, &tracks);
    let mut cluster = Vec::new();
    write_uint_element(&mut cluster, CLUSTER_TIMESTAMP, 100);
    let mut group = Vec::new();
    write_element(&mut group, BLOCK, &[0x85, 0xFF, 0xFE, 0x00, 0x11]);
    write_element(&mut cluster, BLOCK_GROUP, &group);
    write_element(&mut seg, CLUSTER, &cluster);
    write_element(&mut data, SEGMENT, &seg);

    let mut io = IoContext::new(MemoryBackend::from_data(data));
    let mut demuxer = MkvDemuxer::new();
    demuxer.open(&mut io).unwrap();
    assert_eq!(demuxer.format_id(), FormatId::Webm);
    assert_eq!(demuxer.name(), "webm");
    let s = &demuxer.streams()[0];
    assert_eq!(s.codec_id, CodecId::H264);
    assert_eq!(s.time_base.den, 1000);
    if let StreamParams::Video(ref v) = s.params {
        assert_eq!(v.frame_rate.num, 25000);
        assert_eq!(v.frame_rate.den, 1000);
    } else {
        panic!("video parameters expected");
    }
    let pkt = demuxer.read_packet(&mut io).unwrap();
    assert_eq!(pkt.stream_index, 0);
    // (100 - 2) ticks of 2 ms each.
    assert_eq!(pkt.pts, 196);
    assert_eq!(pkt.dts, 196);
    assert!(!pkt.is_keyframe);
    assert_eq!(pkt.data.as_ref(), &[0x11]);
    assert!(matches!(demuxer.read_packet(&mut io), Err(TaoError::Eof)));
}

#[test]
fn mkv_without_tracks_is_invalid() {
    let mut data = Vec::new();
    let mut ebml_content = Vec::new();
    write_string_element(&mut ebml_content, EBML_DOC_TYPE, "matroska");
    write_element(&mut data, EBML_HEADER, &ebml_content);
    write_element(&mut data, SEGMENT, &[]);
    let mut io = IoContext::new(MemoryBackend::from_data(data));
    let mut demuxer = MkvDemuxer::new();
    assert!(matches!(demuxer.open(&mut io), Err(TaoError::InvalidData(_))));

    let mut io = IoContext::new(MemoryBackend::from_data(vec![0x1A, 0x45, 0xDF]));
    let mut demuxer = MkvDemuxer::new();
    assert!(matches!(demuxer.open(&mut io), Err(TaoError::Eof)));

    let mut bad = Vec::new();
    write_element(&mut bad, SEGMENT, &[]);
    let mut io = IoContext::new(MemoryBackend::from_data(bad));
    let mut demuxer = MkvDemuxer::new();
    assert!(matches!(demuxer.open(&mut io), Err(TaoError::InvalidData(_))));
}
