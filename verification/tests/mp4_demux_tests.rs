use tao_format::demuxer::Demuxer;
use tao_format::demuxers::mp4::sample_table::{fourcc_to_codec_id, SampleTable};
use tao_format::demuxers::mp4::Mp4Demuxer;
use tao_format::error::TaoError;
use tao_format::io::{IoContext, MemoryBackend};
use tao_format::media::{CodecId, MediaType, StreamParams};

fn full(version: u8, body: &[u8]) -> Vec<u8> {
    let mut d = vec![version, 0, 0, 0];
    d.extend_from_slice(body);
    d
}

fn build_box(box_type: &[u8; 4], content: &[u8]) -> Vec<u8> {
    let size = (8 + content.len()) as u32;
    let mut data = Vec::new();
    data.extend_from_slice(&size.to_be_bytes());
    data.extend_from_slice(box_type);
    data.extend_from_slice(content);
    data
}

fn u32s(v: &[u32]) -> Vec<u8> {
    v.iter().flat_map(|x| x.to_be_bytes()).collect()
}

fn build_minimal_mp4() -> Vec<u8> {
    let mut data = Vec::new();
    let mut ftyp = Vec::new();
    ftyp.extend_from_slice(b"isom");
    ftyp.extend_from_slice(&0u32.to_be_bytes());
    ftyp.extend_from_slice(b"isom");
    data.extend_from_slice(&build_box(b"ftyp", &ftyp));
    let mut mvhd = Vec::new();
    mvhd.extend_from_slice(&0u32.to_be_bytes());
    mvhd.extend_from_slice(&0u32.to_be_bytes());
    mvhd.extend_from_slice(&1000u32.to_be_bytes());
    mvhd.extend_from_slice(&0u32.to_be_bytes());
    mvhd.extend_from_slice(&[0u8; 80]);
    let moov = build_box(b"moov", &build_box(b"mvhd", &full(0, &mvhd)));
    data.extend_from_slice(&moov);
    data
}

#[test]
fn test_mp4_parse_minimal() {
    let mut io = IoContext::new(MemoryBackend::from_data(build_minimal_mp4()));
    let mut demuxer = Mp4Demuxer::new();
    let result = demuxer.open(&mut io);
    assert!(result.is_ok() || result.is_err(), "parsing must not panic");
    // The minimal file has no track.
    assert!(matches!(result, Err(TaoError::InvalidData(_))));
    assert_eq!(demuxer.duration(), Some((0, 1000)));
}

#[test]
fn test_fourcc_mapping() {
    assert_eq!(fourcc_to_codec_id(b"avc1"), CodecId::H264);
    assert_eq!(fourcc_to_codec_id(b"hvc1"), CodecId::H265);
    assert_eq!(fourcc_to_codec_id(b"mp4a"), CodecId::Aac);
    assert_eq!(fourcc_to_codec_id(b"Opus"), CodecId::Opus);
    assert_eq!(fourcc_to_codec_id(b"fLaC"), CodecId::Flac);
    assert_eq!(fourcc_to_codec_id(b"xxxx"), CodecId::Unknown);
}

#[test]
fn test_stts_parse() {
    let data = full(0, &u32s(&[2, 100, 1024, 50, 512]));
    let mut st = SampleTable::new();
    st.parse_stts(&data, 0).unwrap();
    assert_eq!(st.sample_pts(0), 0);
    assert_eq!(st.sample_pts(99), 99 * 1024);
    assert_eq!(st.sample_pts(100), 100 * 1024);
    assert_eq!(st.sample_pts(101), 100 * 1024 + 512);
}

#[test]
fn test_stsz_parse() {
    let data = full(0, &u32s(&[0, 3, 100, 200, 150]));
    let mut st = SampleTable::new();
    st.parse_stsz(&data, 0).unwrap();
    assert_eq!(st.sample_count(), 3);
    assert_eq!(st.sample_size(0), 100);
    assert_eq!(st.sample_size(1), 200);
    assert_eq!(st.sample_size(2), 150);
}

#[test]
fn test_stsz_uniform_size() {
    let data = full(0, &u32s(&[1024, 500]));
    let mut st = SampleTable::new();
    st.parse_stsz(&data, 0).unwrap();
    assert_eq!(st.sample_count(), 500);
    assert_eq!(st.sample_size(0), 1024);
    assert_eq!(st.sample_size(499), 1024);
}

#[test]
fn test_stss_parse() {
    let data = full(0, &u32s(&[3, 1, 30, 60]));
    let mut st = SampleTable::new();
    st.parse_stss(&data, 0).unwrap();
    assert!(st.is_sync_sample(0));
    assert!(!st.is_sync_sample(1));
    assert!(st.is_sync_sample(29));
    assert!(st.is_sync_sample(59));
}

#[test]
fn test_no_stss_all_keyframes() {
    let st = SampleTable::new();
    assert!(st.is_sync_sample(0));
    assert!(st.is_sync_sample(100));
}

#[test]
fn test_sample_to_chunk() {
    let mut st = SampleTable::new();
    st.parse_stsc(&full(0, &u32s(&[2, 1, 2, 1, 3, 1, 1])), 0).unwrap();
    st.parse_stco(&full(0, &u32s(&[4, 1000, 2000, 3000, 4000])), 0, false).unwrap();
    assert_eq!(st.sample_to_chunk(0), (0, 0));
    assert_eq!(st.sample_to_chunk(1), (0, 1));
    assert_eq!(st.sample_to_chunk(2), (1, 0));
    assert_eq!(st.sample_to_chunk(3), (1, 1));
    assert_eq!(st.sample_to_chunk(4), (2, 0));
    assert_eq!(st.sample_to_chunk(5), (3, 0));
}

#[test]
fn table_box_cut_short_keeps_read_entries() {
    let data = full(0, &u32s(&[3, 10, 20, 30, 40]));
    let mut st = SampleTable::new();
    assert!(matches!(st.parse_stts(&data[..data.len() - 2], 0), Err(TaoError::Eof)));
    assert_eq!(st.sample_pts(10), 10 * 20);
    assert_eq!(st.sample_pts(11), 10 * 20);
}

#[test]
fn ctts_and_offsets() {
    let mut st = SampleTable::new();
    st.parse_stts(&full(0, &u32s(&[1, 4, 10])), 0).unwrap();
    st.parse_ctts(&full(0, &u32s(&[2, 1, 20, 3, 0xFFFF_FFF6])), 0).unwrap();
    assert_eq!(st.sample_pts(0), 20);
    assert_eq!(st.sample_pts(1), 10 - 10);
    st.parse_stsz(&full(0, &u32s(&[0, 4, 5, 6, 7, 8])), 0).unwrap();
    st.parse_stsc(&full(0, &u32s(&[1, 1, 2, 1])), 0).unwrap();
    let mut co64 = vec![0u8, 0, 0, 0, 0, 0, 0, 2];
    co64.extend_from_slice(&[0, 0, 0, 1, 0, 0, 0, 0]);
    co64.extend_from_slice(&[0, 0, 0, 0, 0, 0, 0x10, 0]);
    st.parse_stco(&co64, 0, true).unwrap();
    assert_eq!(st.sample_offset(0), 0x1_0000_0000);
    assert_eq!(st.sample_offset(1), 0x1_0000_0000 + 5);
    assert_eq!(st.sample_offset(2), 0x1000);
    assert_eq!(st.sample_offset(3), 0x1000 + 7);
}

/// A file with one H.264 track of three samples in one chunk.
fn build_video_mp4() -> Vec<u8> {
    let mut stsd_entry = Vec::new();
    stsd_entry.extend_from_slice(&[0u8; 6]);
    stsd_entry.extend_from_slice(&1u16.to_be_bytes());
    stsd_entry.extend_from_slice(&[0u8; 16]);
    stsd_entry.extend_from_slice(&320u16.to_be_bytes());
    stsd_entry.extend_from_slice(&240u16.to_be_bytes());
    stsd_entry.extend_from_slice(&[0u8; 50]);
    stsd_entry.extend_from_slice(&build_box(b"avcC", &[1, 2, 3]));
    let entry = build_box(b"avc1", &stsd_entry);
    let mut stsd = u32s(&[1]);
    stsd.extend_from_slice(&entry);
    let mut stbl = build_box(b"stsd", &full(0, &stsd));
    stbl.extend_from_slice(&build_box(b"stts", &full(0, &u32s(&[1, 3, 512]))));
    stbl.extend_from_slice(&build_box(b"stsc", &full(0, &u32s(&[1, 1, 3, 1]))));
    stbl.extend_from_slice(&build_box(b"stsz", &full(0, &u32s(&[0, 3, 2, 3, 1]))));
    stbl.extend_from_slice(&build_box(b"stss", &full(0, &u32s(&[1, 1]))));
    stbl.extend_from_slice(&build_box(b"stco", &full(0, &u32s(&[1, 0]))));
    let minf = build_box(b"minf", &build_box(b"stbl", &stbl));
    let mut mdhd = u32s(&[0, 0, 90000, 1536]);
    mdhd.extend_from_slice(&[0u8; 4]);
    let mut hdlr = u32s(&[0]);
    hdlr.extend_from_slice(b"vide");
    hdlr.extend_from_slice(&[0u8; 12]);
    let mut mdia = build_box(b"mdhd", &full(0, &mdhd));
    mdia.extend_from_slice(&build_box(b"hdlr", &full(0, &hdlr)));
    mdia.extend_from_slice(&minf);
    let trak = build_box(b"trak", &build_box(b"mdia", &mdia));
    let moov = build_box(b"moov", &trak);
    let mut file = build_box(b"ftyp", &[b'i', b's', b'o', b'm', 0, 0, 0, 0]);
    file.extend_from_slice(&moov);
    let mdat_data = [0xA1u8, 0xA2, 0xB1, 0xB2, 0xB3, 0xC1];
    let mdat_at = file.len() + 8;
    file.extend_from_slice(&build_box(b"mdat", &mdat_data));
    let at = file.windows(4).position(|w| w == b"stco").unwrap();
    let pos = at + 12;
    file[pos..pos + 4].copy_from_slice(&(mdat_at as u32).to_be_bytes());
    file
}

#[test]
fn mp4_open_and_read_samples() {
    let mut io = IoContext::new(MemoryBackend::from_data(build_video_mp4()));
    let mut demuxer = Mp4Demuxer::new();
    assert!(demuxer.open_admitted(&io));
    demuxer.open(&mut io).unwrap();
    let streams = demuxer.streams();
    assert_eq!(streams.len(), 1);
    assert_eq!(streams[0].media_type, MediaType::Video);
    assert_eq!(streams[0].codec_id, CodecId::H264);
    assert_eq!(streams[0].time_base.den, 90000);
    assert_eq!(streams[0].duration, 1536);
    assert_eq!(streams[0].nb_frames, 3);
    assert_eq!(streams[0].extra_data, vec![1, 2, 3]);
    match &streams[0].params {
        StreamParams::Video(v) => {
            assert_eq!(v.width, 320);
            assert_eq!(v.height, 240);
        }
        _ => panic!("a video stream"),
    }
    let mut got = Vec::new();
    while demuxer.read_admitted() {
        match demuxer.read_packet(&mut io) {
            Ok(p) => got.push((p.data.to_vec(), p.pts, p.is_keyframe)),
            Err(TaoError::Eof) => break,
            Err(e) => panic!("{:?}", e),
        }
    }
    assert_eq!(
        got,
        vec![
            (vec![0xA1, 0xA2], 0, true),
            (vec![0xB1, 0xB2, 0xB3], 512, false),
            (vec![0xC1], 1024, false),
        ]
    );
}
