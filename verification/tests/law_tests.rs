use tao_format::demuxers::mkv::ebml::read_element_size;
use tao_format::demuxers::mp4::boxes::BoxType;
use tao_format::muxers::mkv::size_to_vint;
use tao_format::format_id::FormatId;
use tao_format::io::{IoContext, MemoryBackend, SeekFrom};

const FORMATS: [FormatId; 22] = [
    FormatId::Mp4,
    FormatId::Matroska,
    FormatId::Webm,
    FormatId::Avi,
    FormatId::Flv,
    FormatId::MpegTs,
    FormatId::MpegPs,
    FormatId::Mxf,
    FormatId::ThreeGp,
    FormatId::Ogg,
    FormatId::Asf,
    FormatId::Wav,
    FormatId::FlacContainer,
    FormatId::Mp3Container,
    FormatId::AacAdts,
    FormatId::Aiff,
    FormatId::ImageSequence,
    FormatId::RawVideo,
    FormatId::RawAudio,
    FormatId::Mpeg4Es,
    FormatId::H264Es,
    FormatId::Cue,
];

#[test]
fn format_names_are_distinct() {
    for (i, a) in FORMATS.iter().enumerate() {
        for (j, b) in FORMATS.iter().enumerate() {
            if i != j {
                assert_ne!(a.name(), b.name());
            }
        }
    }
    assert_eq!(FormatId::Matroska.name(), "matroska");
    assert_eq!(FormatId::MpegPs.name(), "mpeg");
    assert_eq!(FormatId::ImageSequence.name(), "image2");
    assert_eq!(FormatId::FlacContainer.name(), "flac");
    assert_eq!(FormatId::Mpeg4Es.name(), "m4v");
}

#[test]
fn extension_takes_first_listing_format() {
    assert_eq!(FormatId::from_extension("m4v"), Some(FormatId::Mp4));
    assert_eq!(FormatId::from_extension("M4V"), Some(FormatId::Mp4));
    assert_eq!(FormatId::from_extension("MKV"), Some(FormatId::Matroska));
    assert_eq!(FormatId::from_extension("aif"), Some(FormatId::Aiff));
    assert_eq!(FormatId::from_extension("wav"), Some(FormatId::Wav));
    assert_eq!(FormatId::from_extension("xyz"), None);
}

#[test]
fn reads_keep_size() {
    let data: Vec<u8> = (0u8..40).collect();
    let mut io = IoContext::new(MemoryBackend::from_data(data));
    assert_eq!(io.size(), Some(40));
    io.read_u32_be().unwrap();
    assert_eq!(io.size(), Some(40));
    io.seek(SeekFrom::Start(30)).unwrap();
    assert_eq!(io.size(), Some(40));
    let mut buf = [0u8; 16];
    assert!(io.read_exact(&mut buf).is_err());
    assert_eq!(&buf[..10], &(30u8..40).collect::<Vec<u8>>()[..]);
    assert_eq!(io.size(), Some(40));
}

#[test]
fn vint_written_reads_back() {
    for (size, len) in [
        (0u64, 1u8),
        (0x7E, 1),
        (0x7F, 2),
        (0x3FFE, 2),
        (0x3FFF, 3),
        (0x1F_FFFE, 3),
        (0x1F_FFFF, 4),
        (0x0FFF_FFFE, 4),
        (0x0FFF_FFFF, 8),
        (0xFF_FFFF_FFFF_FFFE, 8),
    ] {
        let v = size_to_vint(size);
        assert_eq!(v.len(), len as usize);
        let mut io = IoContext::new(MemoryBackend::from_data(v));
        assert_eq!(read_element_size(&mut io).unwrap(), (size, len));
    }
}

#[test]
fn box_types_of_distinct_codes_differ() {
    assert!(BoxType::from_fourcc(b"ftyp") == BoxType::Ftyp);
    assert!(BoxType::from_fourcc(b"FTYP") == BoxType::Unknown(*b"FTYP"));
    assert!(BoxType::from_fourcc(b"moov") != BoxType::from_fourcc(b"mdat"));
    assert!(BoxType::from_fourcc(b"abcd") != BoxType::from_fourcc(b"abce"));
}
