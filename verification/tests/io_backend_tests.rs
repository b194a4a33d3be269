use tao_format::error::TaoError;
use tao_format::io::{IoBackend, MemoryBackend, SeekFrom};

#[test]
fn memory_backend_reads_in_order_then_zero() {
    let mut m = MemoryBackend::from_data(vec![1, 2, 3, 4, 5]);
    assert_eq!(m.size(), Some(5));
    assert!(m.is_seekable());
    assert_eq!(m.position().unwrap(), 0);
    let mut buf = [0u8; 2];
    assert_eq!(m.read(&mut buf).unwrap(), 2);
    assert_eq!(buf, [1, 2]);
    assert_eq!(m.read(&mut buf).unwrap(), 2);
    assert_eq!(buf, [3, 4]);
    assert_eq!(m.read(&mut buf).unwrap(), 1);
    assert_eq!(buf[0], 5);
    assert_eq!(m.read(&mut buf).unwrap(), 0);
    assert_eq!(m.position().unwrap(), 5);
}

#[test]
fn memory_backend_new_is_empty() {
    let mut m = MemoryBackend::new();
    assert!(m.data().is_empty());
    assert_eq!(m.size(), Some(0));
    assert_eq!(m.position().unwrap(), 0);
    assert!(m.is_seekable());
    let d = MemoryBackend::default();
    assert!(d.data().is_empty());
}

#[test]
fn memory_backend_write_and_seek() {
    let mut m = MemoryBackend::new();
    assert_eq!(m.write(&[9, 9, 9]).unwrap(), 3);
    assert_eq!(m.seek(SeekFrom::Start(1)).unwrap(), 1);
    m.write_all(&[7, 7, 7]).unwrap();
    assert_eq!(m.data(), &[9, 7, 7, 7]);
    assert_eq!(m.seek(SeekFrom::End(-1)).unwrap(), 3);
    assert_eq!(m.seek(SeekFrom::Current(-1)).unwrap(), 2);
    assert!(matches!(m.seek(SeekFrom::Current(-5)), Err(TaoError::Io(_))));
    assert_eq!(m.position().unwrap(), 2);
}
