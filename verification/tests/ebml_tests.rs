use tao_format::demuxers::mkv::ebml::{
    read_binary, read_element_header, read_element_id, read_element_size, read_sint, read_string,
    read_uint, EBML_HEADER, EBML_UNKNOWN_SIZE,
};
use tao_format::error::TaoError;
use tao_format::io::{IoContext, MemoryBackend};

fn io_over(data: Vec<u8>) -> IoContext {
    IoContext::new(MemoryBackend::from_data(data))
}

#[test]
fn test_read_1_byte_vint_id() {
    let mut io = io_over(vec![0x81]);
    let (id, len) = read_element_id(&mut io).unwrap();
    assert_eq!(id, 0x81);
    assert_eq!(len, 1);
}

#[test]
fn test_read_2_byte_vint_id() {
    let mut io = io_over(vec![0x42, 0x86]);
    let (id, len) = read_element_id(&mut io).unwrap();
    assert_eq!(id, 0x4286);
    assert_eq!(len, 2);
}

#[test]
fn test_read_4_byte_vint_id() {
    let mut io = io_over(vec![0x1A, 0x45, 0xDF, 0xA3]);
    let (id, len) = read_element_id(&mut io).unwrap();
    assert_eq!(id, EBML_HEADER);
    assert_eq!(len, 4);
}

#[test]
fn read_element_id_rejects_zero_and_long_ids() {
    let mut io = io_over(vec![0x00]);
    assert!(matches!(read_element_id(&mut io), Err(TaoError::InvalidData(_))));
    let mut io = io_over(vec![0x08, 0, 0, 0, 0]);
    assert!(matches!(read_element_id(&mut io), Err(TaoError::InvalidData(_))));
    let mut io = io_over(vec![0x1A, 0x45]);
    assert!(matches!(read_element_id(&mut io), Err(TaoError::Eof)));
}

#[test]
fn test_read_vint_size() {
    let mut io = io_over(vec![0x85]);
    let (size, len) = read_element_size(&mut io).unwrap();
    assert_eq!(size, 5);
    assert_eq!(len, 1);
}

#[test]
fn test_read_2_byte_vint_size() {
    let mut io = io_over(vec![0x40, 0x20]);
    let (size, len) = read_element_size(&mut io).unwrap();
    assert_eq!(size, 32);
    assert_eq!(len, 2);
}

#[test]
fn test_unknown_size() {
    let mut io = io_over(vec![0xFF]);
    let (size, _) = read_element_size(&mut io).unwrap();
    assert_eq!(size, EBML_UNKNOWN_SIZE);
}

#[test]
fn read_element_size_eight_bytes() {
    let mut io = io_over(vec![0x01, 0, 0, 0, 0, 0, 0x01, 0x00]);
    assert_eq!(read_element_size(&mut io).unwrap(), (256, 8));
    let mut io = io_over(vec![0x01, 0xFF, 0xFF, 0xFF, 0xFF, 0xFF, 0xFF, 0xFF]);
    assert_eq!(read_element_size(&mut io).unwrap(), (EBML_UNKNOWN_SIZE, 8));
}

#[test]
fn read_element_header_combines_id_and_size() {
    let mut io = io_over(vec![0x42, 0x86, 0x81, 0x01]);
    assert_eq!(read_element_header(&mut io).unwrap(), (0x4286, 1, 3));
}

#[test]
fn test_read_uint() {
    let mut io = io_over(vec![0x01, 0x00]);
    assert_eq!(read_uint(&mut io, 2).unwrap(), 256);
}

#[test]
fn read_uint_rejects_bad_sizes() {
    let mut io = io_over(vec![0x01; 9]);
    assert!(matches!(read_uint(&mut io, 0), Err(TaoError::InvalidData(_))));
    assert!(matches!(read_uint(&mut io, 9), Err(TaoError::InvalidData(_))));
}

#[test]
fn read_sint_sign_extends() {
    let mut io = io_over(vec![0xFF, 0xFE]);
    assert_eq!(read_sint(&mut io, 2).unwrap(), -2);
    let mut io = io_over(vec![0x7F]);
    assert_eq!(read_sint(&mut io, 1).unwrap(), 127);
    let mut io = io_over(vec![0x80, 0, 0, 0, 0, 0, 0, 0]);
    assert_eq!(read_sint(&mut io, 8).unwrap(), i64::MIN);
    let mut io = io_over(vec![0xFF; 8]);
    assert_eq!(read_sint(&mut io, 8).unwrap(), -1);
    let mut io = io_over(vec![0x7F, 0xFF, 0xFF, 0xFF, 0xFF, 0xFF, 0xFF, 0xFF]);
    assert_eq!(read_sint(&mut io, 8).unwrap(), i64::MAX);
}

#[test]
fn test_read_string() {
    let data = b"hello\x00\x00".to_vec();
    let mut io = io_over(data);
    let s = read_string(&mut io, 7).unwrap();
    assert_eq!(s, "hello");
}

#[test]
fn read_binary_reads_bytes() {
    let mut io = io_over(vec![1, 2, 3]);
    assert_eq!(read_binary(&mut io, 2).unwrap(), vec![1, 2]);
    assert!(matches!(read_binary(&mut io, 2), Err(TaoError::Eof)));
}
