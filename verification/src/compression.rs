//! Compression configuration: which codec, at which level, and when.

use vstd::prelude::*;

verus! {

/// Compression type - algorithm + level.
#[derive(Debug, Clone)]
pub enum CompressionType {
    /// Gzip compression at a deflate level, 0 (store) through 9 (best).
    Gzip(u32),
    /// Zstd compression at a level, 1 through 22.
    Zstd(u32),
}

impl CompressionType {
    /// The canonical filename extension of the codec's container format.
    pub open spec fn suffix_spec(self) -> Seq<char> {
        match self {
            CompressionType::Gzip(_) => "gz"@,
            CompressionType::Zstd(_) => "zst"@,
        }
    }

    /// Whether the configured level lies in the codec's supported range.
    pub open spec fn level_ok(self) -> bool {
        match self {
            CompressionType::Gzip(level) => level <= 9,
            CompressionType::Zstd(level) => 1 <= level && level <= 22,
        }
    }

    /// Checks that the configured level lies in the codec's supported range.
    pub fn level_in_range(&self) -> (r: bool)
        ensures
            r == self.level_ok(),
    {
        match self {
            CompressionType::Gzip(level) => *level <= 9,
            CompressionType::Zstd(level) => 1 <= *level && *level <= 22,
        }
    }

    /// Suffix for the compressed file.
    pub fn suffix(&self) -> (r: &'static str)
        ensures
            r@ == self.suffix_spec(),
    {
        match self {
            CompressionType::Gzip(_) => "gz",
            CompressionType::Zstd(_) => "zst",
        }
    }
}

/// The default gzip level: the balanced middle of the deflate scale.
pub const DEFAULT_GZIP_LEVEL: u32 = 6;

impl Default for CompressionType {
    /// The default codec: gzip at its customary balanced level.
    fn default() -> (r: Self)
        ensures
            r == CompressionType::Gzip(DEFAULT_GZIP_LEVEL),
    {
        CompressionType::Gzip(DEFAULT_GZIP_LEVEL)
    }
}

/// Compression mode - when to compress files.
#[derive(Debug, Clone)]
pub enum Compression {
    /// No compression ever.
    Never,
    /// Look for files to compress when rotating.
    OnRotate {
        /// How many files to keep uncompressed (excluding the original file).
        keep_uncompressed: usize,
        /// Compression type.
        compression: CompressionType,
    },
}

/// The path of the compressed copy: the source path, a dot, and the codec's
/// suffix.
pub open spec fn dest_path_spec(path: Seq<char>, codec: CompressionType) -> Seq<char> {
    path + "."@ + codec.suffix_spec()
}

/// Appends the codec's suffix to the source path.
pub fn dest_path(path: &String, codec: &CompressionType) -> (r: String)
    ensures
        r@ == dest_path_spec(path@, *codec),
{
    let mut r = path.clone();
    r.append(".");
    r.append(codec.suffix());
    r
}

} // verus!
