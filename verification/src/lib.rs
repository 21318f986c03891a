//! Compression of rotated log files.
//!
//! A rotated log file is compressed in place: the library turns the file's
//! bytes into a gzip stream or a zstd frame, the compressed copy is stored
//! under the source path plus an algorithm-specific suffix, and the source
//! is removed — but only once the compressed copy is complete, so that a
//! failure never loses data.

pub mod codec;
pub mod compression;
pub mod store;
