use tao_format::demuxers::ogg::{
    identify_codec, normalize_granule, ogg_crc32, parse_opus_header, parse_vorbis_header, OggPage,
};
use tao_format::demuxer::Demuxer;
use tao_format::demuxers::ogg::{OggDemuxer, FLAG_BOS, FLAG_CONTINUED, FLAG_EOS};
use tao_format::error::TaoError;
use tao_format::io::{IoContext, MemoryBackend};
use tao_format::media::{CodecId, MediaType, SeekFlags, StreamParams, NOPTS_VALUE};
use tao_format::muxers::mpegts::crc32_mpeg2;

#[test]
fn test_page_extract_packets() {
    let page = OggPage {
        header_type: 0,
        granule_position: 100,
        serial_number: 1,
        page_sequence: 0,
        segment_table: vec![100, 50, 255, 200],
        data: vec![0u8; 100 + 50 + 255 + 200],
    };
    let packets = page.extract_packets();
    assert_eq!(packets.len(), 3);
    assert_eq!(packets[0], (0, 100, true));
    assert_eq!(packets[1], (100, 50, true));
    assert_eq!(packets[2], (150, 455, true));

    let page2 = OggPage {
        header_type: 0,
        granule_position: 100,
        serial_number: 1,
        page_sequence: 0,
        segment_table: vec![100, 255],
        data: vec![0u8; 100 + 255],
    };
    let packets2 = page2.extract_packets();
    assert_eq!(packets2.len(), 2);
    assert_eq!(packets2[0], (0, 100, true));
    assert_eq!(packets2[1], (100, 255, false));
}

#[test]
fn extract_packets_zero_lacing_is_empty_packet() {
    let page = OggPage {
        header_type: 0x02,
        granule_position: 0,
        serial_number: 1,
        page_sequence: 0,
        segment_table: vec![255, 0, 3],
        data: vec![0u8; 258],
    };
    assert_eq!(page.extract_packets(), vec![(0, 255, true), (255, 3, true)]);
    assert!(page.is_bos());
    assert!(!page.is_eos());
    assert!(!page.is_continued());
}

#[test]
fn test_identify_vorbis() {
    let mut data = vec![1u8];
    data.extend_from_slice(b"vorbis");
    data.extend_from_slice(&[0u8; 23]);
    assert_eq!(identify_codec(&data), CodecId::Vorbis);
}

#[test]
fn test_identify_opus() {
    let data = b"OpusHead\x01\x02\x00\x00\x80\xBB\x00\x00\x00\x00\x00";
    assert_eq!(identify_codec(data), CodecId::Opus);
}

#[test]
fn test_identify_flac() {
    let data = b"\x7FFLAC\x01\x00\x00\x01fLaC";
    assert_eq!(identify_codec(data), CodecId::Flac);
}

#[test]
fn test_identify_flac_legacy_ogg_packet_header() {
    let data = b"fLaC\x00\x00\x00\x22";
    assert_eq!(identify_codec(data), CodecId::Flac);
}

#[test]
fn test_identify_theora() {
    let mut data = vec![0x80u8];
    data.extend_from_slice(b"theora");
    assert_eq!(identify_codec(&data), CodecId::Theora);
}

#[test]
fn identify_unknown_codec() {
    assert_eq!(identify_codec(b"hello"), CodecId::Unknown);
}

#[test]
fn vorbis_and_opus_headers() {
    let mut v = vec![1u8];
    v.extend_from_slice(b"vorbis");
    v.extend_from_slice(&0u32.to_le_bytes());
    v.push(2);
    v.extend_from_slice(&44100u32.to_le_bytes());
    assert_eq!(parse_vorbis_header(&v), Some((44100, 2)));
    let o = b"OpusHead\x01\x06\x00\x00\x80\xBB\x00\x00";
    assert_eq!(parse_opus_header(o), Some((48000, 6)));
    assert_eq!(parse_opus_header(b"OpusHead"), None);
}

#[test]
fn granule_normalization() {
    assert_eq!(normalize_granule(-1), NOPTS_VALUE);
    assert_eq!(normalize_granule(0), 0);
    assert_eq!(normalize_granule(4096), 4096);
}

fn reference_crc(init: u32, data: &[u8]) -> u32 {
    let mut crc = init;
    for &b in data {
        crc ^= (b as u32) << 24;
        for _ in 0..8 {
            crc = if crc & 0x8000_0000 != 0 { (crc << 1) ^ 0x04C1_1DB7 } else { crc << 1 };
        }
    }
    crc
}

#[test]
fn test_crc32() {
    let data = [0x00, 0x01, 0x02, 0x03];
    let crc = crc32_mpeg2(&data);
    assert_ne!(crc, 0);
}

#[test]
fn crc32_known_values() {
    // CRC-32/MPEG-2 check value of "123456789".
    assert_eq!(crc32_mpeg2(b"123456789"), 0x0376_E6E7);
    assert_eq!(ogg_crc32(b"OggS"), reference_crc(0, b"OggS"));
    assert_eq!(crc32_mpeg2(&[]), 0xFFFF_FFFF);
}

fn build_ogg_page_lacing(
    header_type: u8,
    granule: i64,
    serial: u32,
    page_seq: u32,
    segments: &[u8],
    body: &[u8],
) -> Vec<u8> {
    let mut page = Vec::new();
    page.extend_from_slice(b"OggS");
    page.push(0);
    page.push(header_type);
    page.extend_from_slice(&(granule as u64).to_le_bytes());
    page.extend_from_slice(&serial.to_le_bytes());
    page.extend_from_slice(&page_seq.to_le_bytes());
    let crc_offset = page.len();
    page.extend_from_slice(&0u32.to_le_bytes());
    page.push(segments.len() as u8);
    page.extend_from_slice(segments);
    page.extend_from_slice(body);
    let crc = ogg_crc32(&page);
    page[crc_offset..crc_offset + 4].copy_from_slice(&crc.to_le_bytes());
    page
}

fn build_ogg_page(header_type: u8, granule: i64, serial: u32, page_seq: u32, packet_data: &[u8]) -> Vec<u8> {
    let mut segments = Vec::new();
    let mut remaining = packet_data.len();
    while remaining >= 255 {
        segments.push(255u8);
        remaining -= 255;
    }
    segments.push(remaining as u8);
    build_ogg_page_lacing(header_type, granule, serial, page_seq, &segments, packet_data)
}

fn vorbis_id_header() -> Vec<u8> {
    let mut vorbis_id = Vec::new();
    vorbis_id.push(1u8);
    vorbis_id.extend_from_slice(b"vorbis");
    vorbis_id.extend_from_slice(&0u32.to_le_bytes());
    vorbis_id.push(2);
    vorbis_id.extend_from_slice(&44100u32.to_le_bytes());
    vorbis_id.extend_from_slice(&0i32.to_le_bytes());
    vorbis_id.extend_from_slice(&128000i32.to_le_bytes());
    vorbis_id.extend_from_slice(&0i32.to_le_bytes());
    vorbis_id.push(0x88);
    vorbis_id.push(1);
    vorbis_id
}

fn build_minimal_ogg_vorbis() -> Vec<u8> {
    let mut data = Vec::new();
    data.extend_from_slice(&build_ogg_page(FLAG_BOS, 0, 0x12345678, 0, &vorbis_id_header()));
    let audio_data = vec![0u8; 100];
    data.extend_from_slice(&build_ogg_page(0, 1024, 0x12345678, 1, &audio_data));
    data.extend_from_slice(&build_ogg_page(FLAG_EOS, 2048, 0x12345678, 2, &[]));
    data
}

fn build_vorbis_seek_test_ogg() -> Vec<u8> {
    let mut data = Vec::new();
    let serial = 0x87654321;
    let mut page_seq = 0u32;
    data.extend_from_slice(&build_ogg_page(FLAG_BOS, 0, serial, page_seq, &vorbis_id_header()));
    page_seq += 1;
    let mut comment = Vec::new();
    comment.push(3u8);
    comment.extend_from_slice(b"vorbis");
    comment.extend_from_slice(&[0u8; 8]);
    data.extend_from_slice(&build_ogg_page(0, 0, serial, page_seq, &comment));
    page_seq += 1;
    let mut setup = Vec::new();
    setup.push(5u8);
    setup.extend_from_slice(b"vorbis");
    setup.extend_from_slice(&[0u8; 8]);
    data.extend_from_slice(&build_ogg_page(0, 0, serial, page_seq, &setup));
    page_seq += 1;
    data.extend_from_slice(&build_ogg_page(0, 256, serial, page_seq, &[0x00, 0x11]));
    page_seq += 1;
    data.extend_from_slice(&build_ogg_page(0, 512, serial, page_seq, &[0x00, 0x22]));
    page_seq += 1;
    data.extend_from_slice(&build_ogg_page(0, 768, serial, page_seq, &[0x00, 0x33]));
    page_seq += 1;
    data.extend_from_slice(&build_ogg_page(FLAG_EOS, 1024, serial, page_seq, &[]));
    data
}

#[test]
fn test_demux_vorbis_single_stream() {
    let ogg_data = build_minimal_ogg_vorbis();
    let mut io = IoContext::new(MemoryBackend::from_data(ogg_data));
    let mut demuxer = OggDemuxer::create().unwrap();
    demuxer.open(&mut io).unwrap();
    let streams = demuxer.streams();
    assert_eq!(streams.len(), 1);
    assert_eq!(streams[0].codec_id, CodecId::Vorbis);
    assert_eq!(streams[0].media_type, MediaType::Audio);
    match &streams[0].params {
        StreamParams::Audio(a) => {
            assert_eq!(a.sample_rate, 44100);
            assert_eq!(a.channel_layout.channels, 2);
        }
        _ => panic!("expected audio parameters"),
    }
}

#[test]
fn test_demux_support_id3_prefix() {
    let mut data = Vec::new();
    data.extend_from_slice(b"ID3");
    data.extend_from_slice(&[4, 0, 0]);
    data.extend_from_slice(&[0, 0, 0, 4]);
    data.extend_from_slice(&[0u8; 4]);
    data.extend_from_slice(&build_minimal_ogg_vorbis());
    let mut io = IoContext::new(MemoryBackend::from_data(data));
    let mut demuxer = OggDemuxer::create().unwrap();
    demuxer.open(&mut io).unwrap();
    let streams = demuxer.streams();
    assert_eq!(streams.len(), 1);
    assert_eq!(streams[0].codec_id, CodecId::Vorbis);
}

#[test]
fn ogg_test_read_packets() {
    let ogg_data = build_minimal_ogg_vorbis();
    let mut io = IoContext::new(MemoryBackend::from_data(ogg_data));
    let mut demuxer = OggDemuxer::create().unwrap();
    demuxer.open(&mut io).unwrap();
    let pkt = demuxer.read_packet(&mut io).unwrap();
    assert_eq!(pkt.stream_index, 0);
    assert!(!pkt.data.is_empty());
}

#[test]
fn test_duration_estimable() {
    let ogg_data = build_minimal_ogg_vorbis();
    let mut io = IoContext::new(MemoryBackend::from_data(ogg_data));
    let mut demuxer = OggDemuxer::create().unwrap();
    demuxer.open(&mut io).unwrap();
    let streams = demuxer.streams();
    assert!(streams[0].duration > 0, "stream duration should be filled in");
    let tb = streams[0].time_base;
    let duration_sec = streams[0].duration as f64 * tb.num as f64 / tb.den as f64;
    assert!(duration_sec > 0.0, "duration in seconds: {duration_sec}");
}

#[test]
fn test_seek_skip_vorbis_header_packet_page() {
    let mut io = IoContext::new(MemoryBackend::from_data(build_vorbis_seek_test_ogg()));
    let mut demuxer = OggDemuxer::create().unwrap();
    demuxer.open(&mut io).unwrap();
    demuxer.seek(&mut io, 0, 0, SeekFlags::default()).expect("seek to the start");
    let pkt = demuxer.read_packet(&mut io).expect("a packet after the seek");
    assert_eq!(pkt.pts, 256);
}

#[test]
fn test_seek_backward_seek_to_page_before_target() {
    let mut io = IoContext::new(MemoryBackend::from_data(build_vorbis_seek_test_ogg()));
    let mut demuxer = OggDemuxer::create().unwrap();
    demuxer.open(&mut io).unwrap();
    demuxer.seek(&mut io, 0, 700, SeekFlags::default()).expect("backward seek");
    let pkt = demuxer.read_packet(&mut io).expect("a packet after the seek");
    assert_eq!(pkt.pts, 512);
}

#[test]
fn test_seek_forward_seek_to_page_after_target() {
    let mut io = IoContext::new(MemoryBackend::from_data(build_vorbis_seek_test_ogg()));
    let mut demuxer = OggDemuxer::create().unwrap();
    demuxer.open(&mut io).unwrap();
    let flags = SeekFlags { backward: false, ..SeekFlags::default() };
    demuxer.seek(&mut io, 0, 700, flags).expect("forward seek");
    let pkt = demuxer.read_packet(&mut io).expect("a packet after the seek");
    assert_eq!(pkt.pts, 768);
}

#[test]
fn ogg_packet_across_pages_is_joined() {
    let serial = 7;
    let mut data = Vec::new();
    data.extend_from_slice(&build_ogg_page(FLAG_BOS, 0, serial, 0, &vorbis_id_header()));
    let first = vec![0xAAu8; 255];
    data.extend_from_slice(&build_ogg_page_lacing(0, -1, serial, 1, &[255], &first));
    let second = vec![0xBBu8; 10];
    data.extend_from_slice(&build_ogg_page_lacing(FLAG_CONTINUED, 4000, serial, 2, &[10], &second));
    let mut io = IoContext::new(MemoryBackend::from_data(data));
    let mut demuxer = OggDemuxer::create().unwrap();
    demuxer.open(&mut io).unwrap();
    let pkt = demuxer.read_packet(&mut io).unwrap();
    assert_eq!(pkt.data.len(), 265);
    assert_eq!(&pkt.data[..255], &first[..]);
    assert_eq!(&pkt.data[255..], &second[..]);
    assert_eq!(pkt.pts, 4000);
    assert!(matches!(demuxer.read_packet(&mut io), Err(TaoError::Eof)));
}

#[test]
fn ogg_bad_crc_page_is_skipped() {
    let serial = 9;
    let mut data = Vec::new();
    data.extend_from_slice(&build_ogg_page(FLAG_BOS, 0, serial, 0, &vorbis_id_header()));
    let mut bad = build_ogg_page(0, 100, serial, 1, &[1, 2, 3]);
    let last = bad.len() - 1;
    bad[last] ^= 0xFF;
    data.extend_from_slice(&bad);
    data.extend_from_slice(&build_ogg_page(0, 200, serial, 2, &[4, 5]));
    let mut io = IoContext::new(MemoryBackend::from_data(data));
    let mut demuxer = OggDemuxer::create().unwrap();
    demuxer.open(&mut io).unwrap();
    // the page after the bad one breaks the sequence: its packet comes
    // without a granule
    let pkt = demuxer.read_packet(&mut io).unwrap();
    assert_eq!(&pkt.data[..], &[4, 5]);
    assert_eq!(pkt.pts, NOPTS_VALUE);
}

#[test]
fn ogg_open_without_pages_is_eof() {
    let mut io = IoContext::new(MemoryBackend::from_data(b"no pages here".to_vec()));
    let mut demuxer = OggDemuxer::create().unwrap();
    assert!(matches!(demuxer.open(&mut io), Err(TaoError::Eof)));
}

#[test]
fn ogg_seek_errors() {
    let mut io = IoContext::new(MemoryBackend::from_data(build_minimal_ogg_vorbis()));
    let mut demuxer = OggDemuxer::create().unwrap();
    demuxer.open(&mut io).unwrap();
    assert!(matches!(demuxer.seek(&mut io, 3, 0, SeekFlags::default()), Err(TaoError::InvalidData(_))));
    let byte = SeekFlags { byte: true, ..SeekFlags::default() };
    assert!(matches!(demuxer.seek(&mut io, 0, 0, byte), Err(TaoError::NotImplemented(_))));
}
