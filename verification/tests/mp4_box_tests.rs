use tao_format::demuxers::mp4::boxes::{read_box_header, BoxHeader, BoxType, FtypBox};
use tao_format::io::{IoContext, MemoryBackend};

#[test]
fn test_read_box_header() {
    let mut data = Vec::new();
    data.extend_from_slice(&20u32.to_be_bytes());
    data.extend_from_slice(b"ftyp");
    data.extend_from_slice(&[0u8; 12]);
    let mut io = IoContext::new(MemoryBackend::from_data(data));
    let header = read_box_header(&mut io).unwrap();
    assert_eq!(header.box_type, BoxType::Ftyp);
    assert_eq!(header.size, 20);
    assert_eq!(header.header_size, 8);
    assert_eq!(header.content_size(), 12);
}

#[test]
fn test_read_64bit_box_header() {
    let mut data = Vec::new();
    data.extend_from_slice(&1u32.to_be_bytes());
    data.extend_from_slice(b"mdat");
    data.extend_from_slice(&0u32.to_be_bytes());
    data.extend_from_slice(&1000u32.to_be_bytes());
    data.extend_from_slice(&[0u8; 984]);
    let mut io = IoContext::new(MemoryBackend::from_data(data));
    let header = read_box_header(&mut io).unwrap();
    assert_eq!(header.box_type, BoxType::Mdat);
    assert_eq!(header.size, 1000);
    assert_eq!(header.header_size, 16);
    assert_eq!(header.content_size(), 984);
}

#[test]
fn box_header_size_zero_runs_to_end() {
    let header = BoxHeader { size: 0, box_type: BoxType::Mdat, header_size: 8 };
    assert_eq!(header.content_size(), u64::MAX);
}

#[test]
fn test_ftyp_parse() {
    let mut content = Vec::new();
    content.extend_from_slice(b"isom");
    content.extend_from_slice(&0u32.to_be_bytes());
    content.extend_from_slice(b"isom");
    content.extend_from_slice(b"mp41");
    let mut io = IoContext::new(MemoryBackend::from_data(content.clone()));
    let ftyp = FtypBox::parse(&mut io, content.len() as u64).unwrap();
    assert_eq!(&ftyp.major_brand, b"isom");
    assert_eq!(ftyp._minor_version, 0);
    assert_eq!(ftyp._compatible_brands.len(), 2);
    assert_eq!(&ftyp._compatible_brands[0], b"isom");
    assert_eq!(&ftyp._compatible_brands[1], b"mp41");
    assert_eq!(ftyp.major_brand_str(), "isom");
}
