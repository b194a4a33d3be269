use tao_format::demuxer::Demuxer;
use tao_format::demuxers::mpegts::{
    parse_pes_header, parse_timestamp, stream_type_to_codec, TsDemuxer, TsProbe, TS_PACKET_SIZE,
    TS_SYNC_BYTE,
};
use tao_format::error::TaoError;
use tao_format::io::{IoContext, MemoryBackend};
use tao_format::media::{CodecId, MediaType, Rational, SeekFlags, StreamParams};
use tao_format::probe::{FormatProbe, SCORE_MAX};

const PID_PAT: u16 = 0x0000;

fn build_ts_packet(pid: u16, pusi: bool, payload: &[u8]) -> [u8; TS_PACKET_SIZE] {
    let mut pkt = [0xFFu8; TS_PACKET_SIZE];
    pkt[0] = TS_SYNC_BYTE;
    pkt[1] = if pusi { 0x40 } else { 0x00 } | ((pid >> 8) as u8 & 0x1F);
    pkt[2] = pid as u8;
    pkt[3] = 0x10;
    let copy_len = payload.len().min(TS_PACKET_SIZE - 4);
    pkt[4..4 + copy_len].copy_from_slice(&payload[..copy_len]);
    pkt
}

fn build_ts_packet_with_af(pid: u16, pusi: bool, random_access: bool, payload: &[u8]) -> [u8; TS_PACKET_SIZE] {
    let mut pkt = [0xFFu8; TS_PACKET_SIZE];
    pkt[0] = TS_SYNC_BYTE;
    pkt[1] = if pusi { 0x40 } else { 0x00 } | ((pid >> 8) as u8 & 0x1F);
    pkt[2] = pid as u8;
    pkt[3] = 0x30;
    let af_flags = if random_access { 0x40 } else { 0x00 };
    let payload_space = TS_PACKET_SIZE - 4 - 2;
    let copy_len = payload.len().min(payload_space);
    let stuffing = payload_space - copy_len;
    pkt[4] = (1 + stuffing) as u8;
    pkt[5] = af_flags;
    for i in 0..stuffing {
        pkt[6 + i] = 0xFF;
    }
    let payload_start = 6 + stuffing;
    pkt[payload_start..payload_start + copy_len].copy_from_slice(&payload[..copy_len]);
    pkt
}

fn build_pat(pmt_pid: u16) -> [u8; TS_PACKET_SIZE] {
    let mut section = Vec::new();
    section.push(0x00);
    section.push(0x00);
    let section_length: u16 = 13;
    section.push(0xB0 | ((section_length >> 8) as u8 & 0x0F));
    section.push(section_length as u8);
    section.extend_from_slice(&[0x00, 0x01]);
    section.push(0xC1);
    section.push(0x00);
    section.push(0x00);
    section.push(0x00);
    section.push(0x01);
    section.push(0xE0 | ((pmt_pid >> 8) as u8 & 0x1F));
    section.push(pmt_pid as u8);
    section.extend_from_slice(&[0x00, 0x00, 0x00, 0x00]);
    build_ts_packet(PID_PAT, true, &section)
}

fn build_pmt(pmt_pid: u16, entries: &[(u8, u16)]) -> [u8; TS_PACKET_SIZE] {
    let mut section = Vec::new();
    section.push(0x00);
    section.push(0x02);
    let stream_data_len = entries.len() * 5;
    let section_length = 9 + stream_data_len + 4;
    section.push(0xB0 | ((section_length >> 8) as u8 & 0x0F));
    section.push(section_length as u8);
    section.extend_from_slice(&[0x00, 0x01]);
    section.push(0xC1);
    section.push(0x00);
    section.push(0x00);
    let pcr_pid = entries.first().map_or(0x1FFF, |e| e.1);
    section.push(0xE0 | ((pcr_pid >> 8) as u8 & 0x1F));
    section.push(pcr_pid as u8);
    section.extend_from_slice(&[0xF0, 0x00]);
    for &(stream_type, es_pid) in entries {
        section.push(stream_type);
        section.push(0xE0 | ((es_pid >> 8) as u8 & 0x1F));
        section.push(es_pid as u8);
        section.extend_from_slice(&[0xF0, 0x00]);
    }
    section.extend_from_slice(&[0x00, 0x00, 0x00, 0x00]);
    build_ts_packet(pmt_pid, true, &section)
}

fn build_pes_header(stream_id: u8, pts: Option<u64>, data: &[u8]) -> Vec<u8> {
    let mut pes = Vec::new();
    pes.extend_from_slice(&[0x00, 0x00, 0x01]);
    pes.push(stream_id);
    let has_pts = pts.is_some();
    let header_ext_len = if has_pts { 5 } else { 0 };
    let pes_length = 3 + header_ext_len + data.len();
    pes.push((pes_length >> 8) as u8);
    pes.push(pes_length as u8);
    pes.push(0x80);
    pes.push(if has_pts { 0x80 } else { 0x00 });
    pes.push(header_ext_len as u8);
    if let Some(pts_val) = pts {
        pes.push(0x21 | ((((pts_val >> 30) as u8) & 0x07) << 1));
        pes.push((pts_val >> 22) as u8);
        pes.push(0x01 | ((((pts_val >> 15) as u8) & 0x7F) << 1));
        pes.push((pts_val >> 7) as u8);
        pes.push(0x01 | (((pts_val as u8) & 0x7F) << 1));
    }
    pes.extend_from_slice(data);
    pes
}

fn build_minimal_ts() -> Vec<u8> {
    let pmt_pid: u16 = 0x100;
    let video_pid: u16 = 0x101;
    let audio_pid: u16 = 0x102;
    let mut ts = Vec::new();
    ts.extend_from_slice(&build_pat(pmt_pid));
    ts.extend_from_slice(&build_pmt(pmt_pid, &[(0x1B, video_pid), (0x0F, audio_pid)]));
    {
        let video_data = vec![0xDE, 0xAD, 0xBE, 0xEF];
        let pes = build_pes_header(0xE0, Some(90000), &video_data);
        ts.extend_from_slice(&build_ts_packet_with_af(video_pid, true, true, &pes));
    }
    {
        let audio_data = vec![0xCA, 0xFE, 0xBA, 0xBE];
        let pes = build_pes_header(0xC0, Some(90000), &audio_data);
        ts.extend_from_slice(&build_ts_packet(audio_pid, true, &pes));
    }
    {
        let video_data = vec![0x11, 0x22, 0x33];
        let pes = build_pes_header(0xE0, Some(93600), &video_data);
        ts.extend_from_slice(&build_ts_packet_with_af(video_pid, true, false, &pes));
    }
    {
        let audio_data = vec![0x44, 0x55];
        let pes = build_pes_header(0xC0, Some(93600), &audio_data);
        ts.extend_from_slice(&build_ts_packet(audio_pid, true, &pes));
    }
    ts
}

#[test]
fn test_probe_ts_sync_byte() {
    let probe = TsProbe;
    let ts = build_minimal_ts();
    assert_eq!(probe.probe(&ts, None), Some(SCORE_MAX));
}

#[test]
fn test_probe_ts_extension() {
    let probe = TsProbe;
    assert!(probe.probe(&[], Some("video.ts")).is_some());
    assert!(probe.probe(&[], Some("video.m2ts")).is_some());
    assert!(probe.probe(&[], Some("video.mp4")).is_none());
}

#[test]
fn ts_probe_two_packets_scores_lower() {
    let mut ts = Vec::new();
    ts.extend_from_slice(&build_pat(0x100));
    ts.extend_from_slice(&build_pat(0x100));
    assert_eq!(TsProbe.probe(&ts, None), Some(SCORE_MAX - 10));
}

#[test]
fn test_parse_timestamp() {
    let pts_val = 90000u64;
    let encoded = [
        0x21 | ((((pts_val >> 30) as u8) & 0x07) << 1),
        (pts_val >> 22) as u8,
        0x01 | ((((pts_val >> 15) as u8) & 0x7F) << 1),
        (pts_val >> 7) as u8,
        0x01 | (((pts_val as u8) & 0x7F) << 1),
    ];
    let ts = parse_timestamp(&encoded);
    assert_eq!(ts, 90000, "timestamp parses to 90000");
}

#[test]
fn parse_timestamp_uses_all_33_bits() {
    let pts_val: u64 = (1 << 32) + 12345;
    let encoded = [
        0x21 | ((((pts_val >> 30) as u8) & 0x07) << 1),
        (pts_val >> 22) as u8,
        0x01 | ((((pts_val >> 15) as u8) & 0x7F) << 1),
        (pts_val >> 7) as u8,
        0x01 | (((pts_val as u8) & 0x7F) << 1),
    ];
    assert_eq!(parse_timestamp(&encoded), pts_val as i64);
}

#[test]
fn test_stream_type_mapping() {
    assert_eq!(stream_type_to_codec(0x1B), CodecId::H264);
    assert_eq!(stream_type_to_codec(0x24), CodecId::H265);
    assert_eq!(stream_type_to_codec(0x0F), CodecId::Aac);
    assert_eq!(stream_type_to_codec(0x03), CodecId::Mp3);
    assert_eq!(stream_type_to_codec(0x81), CodecId::Ac3);
    assert_eq!(stream_type_to_codec(0x02), CodecId::Mpeg2Video);
}

#[test]
fn test_pes_header_parse() {
    let data = vec![0xAA; 10];
    let pes = build_pes_header(0xE0, Some(45000), &data);
    let (pts, dts, hdr_len) = parse_pes_header(&pes).unwrap();
    assert_eq!(pts, 45000);
    assert_eq!(dts, -1);
    assert!(hdr_len > 0);
    assert_eq!(&pes[hdr_len..], &data);
}

#[test]
fn pes_header_without_start_code_is_none() {
    assert!(parse_pes_header(&[0x00, 0x00, 0x02, 0xE0, 0, 0, 0x80, 0, 0]).is_none());
    assert_eq!(parse_pes_header(&[0x00, 0x00, 0x01, 0xE0, 0, 0, 0x40, 0, 0]), Some((-1, -1, 6)));
}

fn open_ts(data: Vec<u8>) -> (Box<dyn Demuxer>, IoContext) {
    let mut io = IoContext::new(MemoryBackend::from_data(data));
    let mut demuxer = TsDemuxer::create().unwrap();
    demuxer.open(&mut io).unwrap();
    (demuxer, io)
}

#[test]
fn test_parse_pat_pmt() {
    let (demuxer, _io) = open_ts(build_minimal_ts());
    let streams = demuxer.streams();
    assert_eq!(streams.len(), 2, "expected 2 streams");
    assert_eq!(streams[0].media_type, MediaType::Video);
    assert_eq!(streams[0].codec_id, CodecId::H264);
    assert_eq!(streams[1].media_type, MediaType::Audio);
    assert_eq!(streams[1].codec_id, CodecId::Aac);
}

#[test]
fn mpegts_test_read_packets() {
    let (mut demuxer, mut io) = open_ts(build_minimal_ts());
    let mut packets = Vec::new();
    loop {
        match demuxer.read_packet(&mut io) {
            Ok(pkt) => packets.push(pkt),
            Err(TaoError::Eof) => break,
            Err(e) => panic!("reading failed: {:?}", e),
        }
    }
    assert!(packets.len() >= 2, "expected at least 2 packets, got {}", packets.len());
}

#[test]
fn test_pts_timestamp() {
    let (mut demuxer, mut io) = open_ts(build_minimal_ts());
    let pkt = demuxer.read_packet(&mut io).unwrap();
    assert_eq!(pkt.pts, 90000, "PTS should be 90000 (1 s)");
    assert_eq!(pkt.time_base, Rational::new(1, 90000));
}

#[test]
fn test_keyframe_flag() {
    let (mut demuxer, mut io) = open_ts(build_minimal_ts());
    let mut found_keyframe = false;
    loop {
        match demuxer.read_packet(&mut io) {
            Ok(pkt) => {
                if pkt.stream_index == 0 && pkt.is_keyframe {
                    found_keyframe = true;
                    break;
                }
            }
            Err(TaoError::Eof) => break,
            Err(e) => panic!("reading failed: {:?}", e),
        }
    }
    assert!(found_keyframe, "expected a keyframe");
}

#[test]
fn mpegts_packets_are_exact() {
    let (mut demuxer, mut io) = open_ts(build_minimal_ts());
    let v = demuxer.read_packet(&mut io).unwrap();
    assert_eq!(v.stream_index, 0);
    assert_eq!(&v.data[..], &[0xDE, 0xAD, 0xBE, 0xEF]);
    assert_eq!(v.dts, 90000);
    assert!(v.is_keyframe);
    let a = demuxer.read_packet(&mut io).unwrap();
    assert_eq!(a.stream_index, 1);
    assert_eq!(&a.data[..4], &[0xCA, 0xFE, 0xBA, 0xBE]);
    assert_eq!(a.pts, 90000);
    assert!(!a.is_keyframe);
    assert!(matches!(demuxer.read_packet(&mut io), Err(TaoError::Eof)));
    match &demuxer.streams()[1].params {
        StreamParams::Audio(p) => {
            assert_eq!(p.sample_rate, 44100);
            assert_eq!(p.channel_layout.channels, 2);
        }
        _ => panic!("expected audio parameters"),
    }
}

#[test]
fn mpegts_open_errors() {
    let mut io = IoContext::new(MemoryBackend::from_data(vec![0u8; 400]));
    let mut demuxer = TsDemuxer::create().unwrap();
    assert!(matches!(demuxer.open(&mut io), Err(TaoError::Eof)));
    let mut only_pat = Vec::new();
    only_pat.extend_from_slice(&build_pat(0x100));
    only_pat.extend_from_slice(&build_pat(0x100));
    let mut io = IoContext::new(MemoryBackend::from_data(only_pat));
    let mut demuxer = TsDemuxer::create().unwrap();
    assert!(matches!(demuxer.open(&mut io), Err(TaoError::InvalidData(_))));
}

#[test]
fn mpegts_seek_not_implemented() {
    let (mut demuxer, mut io) = open_ts(build_minimal_ts());
    assert!(matches!(
        demuxer.seek(&mut io, 0, 0, SeekFlags::default()),
        Err(TaoError::NotImplemented(_))
    ));
}
