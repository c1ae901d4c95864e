use minist::{decompress_archive, LoadError};
use std::io::Write;

fn gzip(bytes: &[u8]) -> Vec<u8> {
    let mut encoder = flate2::write::GzEncoder::new(Vec::new(), flate2::Compression::default());
    encoder.write_all(bytes).unwrap();
    encoder.finish().unwrap()
}

#[test]
fn decompress_restores_original_bytes() {
    let original: Vec<u8> = (0..200u16).map(|i| (i % 251) as u8).collect();
    let archive = gzip(&original);
    assert_ne!(archive, original);
    let raw = decompress_archive(&archive).unwrap();
    assert_eq!(raw, original);
}

#[test]
fn decompress_empty_payload() {
    let archive = gzip(&[]);
    let raw = decompress_archive(&archive).unwrap();
    assert!(raw.is_empty());
}

#[test]
fn corrupt_stream_is_io_error() {
    let garbage = vec![0x1f, 0x8b, 0xff, 0x00, 0x12, 0x34];
    assert_eq!(decompress_archive(&garbage), Err(LoadError::Io));
}

#[test]
fn non_gzip_bytes_are_io_error() {
    assert_eq!(decompress_archive(&vec![1, 2, 3]), Err(LoadError::Io));
}
