use tao_format::demuxers::ogg::ogg_crc32;
use tao_format::io::{IoContext, MemoryBackend, SeekFrom};
use tao_format::media::{
    AudioStreamParams, ChannelLayout, CodecId, MediaType, Packet, Rational, SampleFormat, Stream,
    StreamParams,
};
use tao_format::muxer::Muxer;
use tao_format::muxers::ogg::{ogg_crc, OggMuxer};

fn make_audio_stream() -> Stream {
    Stream {
        index: 0,
        media_type: MediaType::Audio,
        codec_id: CodecId::Flac,
        time_base: Rational::new(1, 44100),
        duration: -1,
        start_time: 0,
        nb_frames: 0,
        extra_data: Vec::new(),
        params: StreamParams::Audio(AudioStreamParams {
            sample_rate: 44100,
            channel_layout: ChannelLayout::from_channels(2),
            sample_format: SampleFormat::S16,
            bit_rate: 0,
            frame_size: 1024,
        }),
        metadata: Vec::new(),
    }
}

fn output(io: &mut IoContext) -> Vec<u8> {
    io.seek(SeekFrom::Start(0)).unwrap();
    let size = io.size().unwrap() as usize;
    io.read_bytes(size).unwrap()
}

/// Checks the page at `p`: capture pattern, version, CRC; returns its end.
fn check_page(d: &[u8], p: usize) -> usize {
    assert_eq!(&d[p..p + 4], b"OggS");
    assert_eq!(d[p + 4], 0);
    let nseg = d[p + 26] as usize;
    let body: usize = d[p + 27..p + 27 + nseg].iter().map(|&x| x as usize).sum();
    let end = p + 27 + nseg + body;
    let mut zeroed = d[p..end].to_vec();
    zeroed[22..26].copy_from_slice(&[0, 0, 0, 0]);
    let crc = u32::from_le_bytes([d[p + 22], d[p + 23], d[p + 24], d[p + 25]]);
    assert_eq!(ogg_crc32(&zeroed), crc);
    end
}

#[test]
fn test_ogg_write_header() {
    let mut muxer = OggMuxer::create().unwrap();
    let mut io = IoContext::new(MemoryBackend::new());
    let streams = vec![make_audio_stream()];
    muxer.write_header(&mut io, &streams).unwrap();
    let pos = io.position().unwrap();
    assert!(pos > 27, "an Ogg page has at least a 27 byte header");
}

#[test]
fn test_ogg_write_packet() {
    let mut muxer = OggMuxer::create().unwrap();
    let mut io = IoContext::new(MemoryBackend::new());
    let streams = vec![make_audio_stream()];
    muxer.write_header(&mut io, &streams).unwrap();

    let mut packet = Packet::from_vec(vec![1u8, 2, 3, 4, 5]);
    packet.pts = 0;
    packet.dts = 0;
    packet.duration = 1024;
    packet.stream_index = 0;
    packet.is_keyframe = true;
    muxer.write_packet(&mut io, &packet).unwrap();

    let pos = io.position().unwrap();
    assert!(pos > 56, "two Ogg pages are written");
}

#[test]
fn test_ogg_write_trailer() {
    let mut muxer = OggMuxer::create().unwrap();
    let mut io = IoContext::new(MemoryBackend::new());
    let streams = vec![make_audio_stream()];
    muxer.write_header(&mut io, &streams).unwrap();
    muxer.write_trailer(&mut io).unwrap();

    let pos = io.position().unwrap();
    assert!(pos > 54, "a BOS and an EOS page are written");
}

#[test]
fn ogg_test_empty_streams_error() {
    let mut muxer = OggMuxer::create().unwrap();
    let mut io = IoContext::new(MemoryBackend::new());
    assert!(muxer.write_header(&mut io, &[]).is_err());
}

#[test]
fn ogg_bos_page_bytes_exact() {
    let mut muxer = OggMuxer::new();
    let mut io = IoContext::new(MemoryBackend::new());
    muxer.write_header(&mut io, &[make_audio_stream()]).unwrap();
    let d = output(&mut io);
    let mut body = vec![4u8];
    body.extend_from_slice(b"flac");
    body.extend_from_slice(&44100u32.to_le_bytes());
    body.push(2);
    assert_eq!(d.len(), 27 + 1 + body.len());
    assert_eq!(&d[0..6], &[0x4F, 0x67, 0x67, 0x53, 0, 0x02]);
    assert_eq!(&d[6..14], &[0u8; 8]);
    assert_eq!(&d[14..18], &0x12345u32.to_le_bytes());
    assert_eq!(&d[18..22], &[0, 0, 0, 0]);
    assert_eq!(d[26], 1);
    assert_eq!(d[27], body.len() as u8);
    assert_eq!(&d[28..], &body[..]);
    assert_eq!(check_page(&d, 0), d.len());
}

#[test]
fn ogg_pages_follow_streams_and_packets() {
    let mut muxer = OggMuxer::new();
    let mut io = IoContext::new(MemoryBackend::new());
    let mut second = make_audio_stream();
    second.index = 1;
    second.extra_data = vec![9u8; 300];
    muxer.write_header(&mut io, &[make_audio_stream(), second]).unwrap();
    let mut p = Packet::from_vec(vec![7u8; 510]);
    p.stream_index = 1;
    p.pts = 100;
    p.duration = 20;
    muxer.write_packet(&mut io, &p).unwrap();
    let mut q = Packet::from_vec(vec![1u8, 2]);
    q.stream_index = 1;
    q.duration = 5;
    muxer.write_packet(&mut io, &q).unwrap();
    muxer.write_trailer(&mut io).unwrap();
    let d = output(&mut io);

    let mut pages = Vec::new();
    let mut at = 0;
    while at < d.len() {
        let end = check_page(&d, at);
        pages.push((at, end));
        at = end;
    }
    assert_eq!(at, d.len());
    assert_eq!(pages.len(), 6);
    let field = |p: usize, off: usize| u32::from_le_bytes([d[p + off], d[p + off + 1], d[p + off + 2], d[p + off + 3]]);
    let granule = |p: usize| i64::from_le_bytes(d[p + 6..p + 14].try_into().unwrap());
    // First pages: one per stream, serials (i + 1) * 0x12345.
    assert_eq!(d[pages[0].0 + 5], 0x02);
    assert_eq!(field(pages[0].0, 14), 0x12345);
    assert_eq!(d[pages[1].0 + 5], 0x02);
    assert_eq!(field(pages[1].0, 14), 0x2468A);
    // The 300 bytes of codec private data: lacing 255, 45.
    assert_eq!(&d[pages[1].0 + 26..pages[1].0 + 29], &[2, 255, 45]);
    // 510 bytes: lacing 255, 255, 0; granule pts + duration; sequence 1.
    let p2 = pages[2].0;
    assert_eq!(d[p2 + 5], 0);
    assert_eq!(&d[p2 + 26..p2 + 30], &[3, 255, 255, 0]);
    assert_eq!(granule(p2), 120);
    assert_eq!(field(p2, 18), 1);
    // No pts: the last granule plus the duration; sequence 2.
    let p3 = pages[3].0;
    assert_eq!(granule(p3), 125);
    assert_eq!(field(p3, 18), 2);
    // Last pages: flags EOS, empty, each stream's granule and next sequence.
    assert_eq!(d[pages[4].0 + 5], 0x04);
    assert_eq!(granule(pages[4].0), 0);
    assert_eq!(field(pages[4].0, 18), 1);
    assert_eq!(&d[pages[4].0 + 26..pages[4].1], &[1, 0]);
    assert_eq!(d[pages[5].0 + 5], 0x04);
    assert_eq!(granule(pages[5].0), 125);
    assert_eq!(field(pages[5].0, 18), 3);
}

#[test]
fn ogg_packet_errors() {
    let mut muxer = OggMuxer::new();
    let mut io = IoContext::new(MemoryBackend::new());
    let p = Packet::from_vec(vec![1u8]);
    assert!(matches!(muxer.write_packet(&mut io, &p), Err(tao_format::error::TaoError::Codec(_))));
    muxer.write_header(&mut io, &[make_audio_stream()]).unwrap();
    let mut q = Packet::from_vec(vec![1u8]);
    q.stream_index = 3;
    assert!(matches!(muxer.write_packet(&mut io, &q), Err(tao_format::error::TaoError::StreamNotFound(_))));
}

#[test]
fn ogg_crc_of_header_and_body() {
    let mut whole = b"OggS".to_vec();
    whole.extend_from_slice(&[0u8; 30]);
    assert_eq!(ogg_crc(&whole[..10], &whole[10..]), ogg_crc32(&whole));
    assert_ne!(ogg_crc(&whole[..10], &whole[10..]), 0);
}
