use logpack::codec::CompressError;
use logpack::compression::CompressionType;
use logpack::store::{compress, FileStore};

use std::io::Read;

fn gunzip(bytes: &[u8]) -> Vec<u8> {
    let mut decoder = flate2::read::GzDecoder::new(bytes);
    let mut out = Vec::new();
    decoder.read_to_end(&mut out).expect("a valid gzip stream");
    out
}

#[test]
fn write_read_overwrite_remove() {
    let mut store = FileStore::new();
    let path = String::from("app.log.1");

    assert!(!store.contains(&path));
    store.write(&path, vec![1, 2, 3]);
    assert!(store.contains(&path));
    assert_eq!(store.read(&path).unwrap(), &vec![1, 2, 3]);

    store.write(&path, vec![9]);
    assert_eq!(store.read(&path).unwrap(), &vec![9]);

    store.remove(&path);
    assert!(store.read(&path).is_none());
}

#[test]
fn compress_ten_thousand_a_bytes_with_gzip() {
    let mut store = FileStore::new();
    let path = String::from("app.log.1");
    let content = vec![b'A'; 10_000];
    store.write(&path, content.clone());

    let dest = compress(&mut store, &path, &CompressionType::Gzip(6)).unwrap();

    assert_eq!(dest, "app.log.1.gz");
    assert!(!store.contains(&path));
    let copy = store.read(&dest).unwrap();
    assert!(!copy.is_empty());
    assert_eq!(gunzip(copy), content);
}

#[test]
fn compress_empty_file_with_gzip() {
    let mut store = FileStore::new();
    let path = String::from("app.log.1");
    store.write(&path, Vec::new());

    let dest = compress(&mut store, &path, &CompressionType::Gzip(6)).unwrap();

    assert_eq!(dest, "app.log.1.gz");
    assert!(!store.contains(&path));
    let copy = store.read(&dest).unwrap();
    assert!(!copy.is_empty());
    assert_eq!(gunzip(copy), Vec::<u8>::new());
}

#[test]
fn compress_with_zstd_round_trips() {
    let mut store = FileStore::new();
    let path = String::from("db.log.2");
    let content: Vec<u8> = (0..5000u32).map(|i| (i % 7) as u8).collect();
    store.write(&path, content.clone());

    let dest = compress(&mut store, &path, &CompressionType::Zstd(3)).unwrap();

    assert_eq!(dest, "db.log.2.zst");
    assert!(!store.contains(&path));
    let copy = store.read(&dest).unwrap();
    assert_eq!(zstd::decode_all(copy.as_slice()).unwrap(), content);
}

#[test]
fn second_compress_of_the_same_path_reports_a_missing_source() {
    let mut store = FileStore::new();
    let path = String::from("app.log.1");
    store.write(&path, vec![b'x'; 100]);

    let codec = CompressionType::Gzip(6);
    compress(&mut store, &path, &codec).unwrap();
    let second = compress(&mut store, &path, &codec);

    assert_eq!(second, Err(CompressError::SourceNotFound));
}

#[test]
fn compress_of_a_missing_path_leaves_the_directory_alone() {
    let mut store = FileStore::new();
    let other = String::from("kept.log");
    store.write(&other, vec![4, 5, 6]);

    let missing = String::from("gone.log");
    let r = compress(&mut store, &missing, &CompressionType::Gzip(6));

    assert_eq!(r, Err(CompressError::SourceNotFound));
    assert_eq!(store.read(&other).unwrap(), &vec![4, 5, 6]);
    assert!(!store.contains(&String::from("gone.log.gz")));
}

#[test]
fn compress_leaves_other_files_untouched() {
    let mut store = FileStore::new();
    let kept = String::from("app.log.0");
    let path = String::from("app.log.1");
    store.write(&kept, vec![7, 8]);
    store.write(&path, vec![b'z'; 64]);

    compress(&mut store, &path, &CompressionType::Gzip(1)).unwrap();

    assert_eq!(store.read(&kept).unwrap(), &vec![7, 8]);
}
