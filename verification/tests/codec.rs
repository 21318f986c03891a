use logpack::codec::{compress_bytes, CompressError};
use logpack::compression::CompressionType;

use std::io::Read;

fn gunzip(bytes: &[u8]) -> Vec<u8> {
    let mut decoder = flate2::read::GzDecoder::new(bytes);
    let mut out = Vec::new();
    decoder.read_to_end(&mut out).expect("a valid gzip stream");
    out
}

fn unzstd(bytes: &[u8]) -> Vec<u8> {
    zstd::decode_all(bytes).expect("a valid zstd frame")
}

fn sample_bytes() -> Vec<u8> {
    let mut data = Vec::new();
    for i in 0..4096u32 {
        data.push((i % 251) as u8);
        data.push((i / 7) as u8);
    }
    data
}

#[test]
fn gzip_round_trip() {
    let data = sample_bytes();
    let out = compress_bytes(&data, &CompressionType::Gzip(6)).unwrap();
    assert!(!out.is_empty());
    assert_ne!(out, data);
    assert_eq!(gunzip(&out), data);
}

#[test]
fn gzip_round_trip_at_level_zero() {
    let data = sample_bytes();
    let out = compress_bytes(&data, &CompressionType::Gzip(0)).unwrap();
    assert_eq!(gunzip(&out), data);
}

#[test]
fn gzip_empty_payload_is_a_valid_stream() {
    let data = Vec::new();
    let out = compress_bytes(&data, &CompressionType::Gzip(6)).unwrap();
    assert!(!out.is_empty());
    assert_eq!(gunzip(&out), Vec::<u8>::new());
}

#[test]
fn zstd_round_trip() {
    let data = sample_bytes();
    let out = compress_bytes(&data, &CompressionType::Zstd(3)).unwrap();
    assert!(!out.is_empty());
    assert_ne!(out, data);
    assert_eq!(unzstd(&out), data);
}

#[test]
fn zstd_empty_payload_is_a_valid_frame() {
    let data = Vec::new();
    let out = compress_bytes(&data, &CompressionType::Zstd(1)).unwrap();
    assert!(!out.is_empty());
    assert_eq!(unzstd(&out), Vec::<u8>::new());
}

#[test]
fn errors_compare_by_variant() {
    assert_eq!(CompressError::SourceNotFound, CompressError::SourceNotFound);
    assert_ne!(CompressError::SourceNotFound, CompressError::SourceTooLarge);
    assert_ne!(CompressError::SourceTooLarge, CompressError::EncodeFailed);
}
