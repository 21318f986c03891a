//! The codecs: gzip and zstd encoding of a byte sequence.

use vstd::prelude::*;

use crate::compression::CompressionType;

verus! {

/// The payload that a standard gzip decoder yields for a byte sequence, or
/// `None` when the bytes are not one complete gzip stream.
pub uninterp spec fn gzip_decode(data: Seq<u8>) -> Option<Seq<u8>>;

/// The payload that a standard zstd decoder yields for a byte sequence, or
/// `None` when the bytes are not one complete zstd frame.
pub uninterp spec fn zstd_decode(data: Seq<u8>) -> Option<Seq<u8>>;

/// The compressed bytes decode, under the codec's standard decoder, to
/// exactly the source bytes.
pub open spec fn decodes_to(codec: CompressionType, out: Seq<u8>, src: Seq<u8>) -> bool {
    match codec {
        CompressionType::Gzip(_) => gzip_decode(out) == Some(src),
        CompressionType::Zstd(_) => zstd_decode(out) == Some(src),
    }
}

/// The source lengths on which the codec owes success: gzip encodes any
/// length, while the zstd encoder accepts a source size hint only up to
/// `i32::MAX` bytes.
pub open spec fn codec_accepts(codec: CompressionType, len: nat) -> bool {
    match codec {
        CompressionType::Gzip(_) => true,
        CompressionType::Zstd(_) => len <= i32::MAX,
    }
}

/// Why a compress operation failed.
#[derive(Debug, Clone, Copy, PartialEq, Eq, Structural)]
pub enum CompressError {
    /// The source path names no file.
    SourceNotFound,
    /// The source is too large for the zstd encoder's size hint.
    SourceTooLarge,
    /// The encoder reported an error while compressing.
    EncodeFailed,
}

/// Relies on flate2::write::GzEncoder: once `finish` succeeds, the bytes
/// written to the underlying writer are one complete gzip stream (header,
/// deflate body and trailer, hence never empty) whose decoded payload is
/// exactly the bytes that were written into the encoder. With a level no
/// higher than 9 and an in-memory sink, whose writes cannot fail, the
/// deflate backend has no error left to report, so `finish` succeeds.
#[verifier::external_body]
fn gzip_encode(data: &Vec<u8>, level: u32) -> (r: Option<Vec<u8>>)
    requires
        level <= 9,
    ensures
        r is Some,
        r matches Some(c) ==> gzip_decode(c@) == Some(data@) && c@.len() > 0,
{
    let mut encoder = flate2::write::GzEncoder::new(Vec::new(), flate2::Compression::new(level));
    if std::io::Write::write_all(&mut encoder, data.as_slice()).is_err() {
        return None;
    }
    encoder.finish().ok()
}

/// Relies on zstd::stream::Encoder: once `finish` succeeds, the bytes written
/// to the underlying writer are one complete zstd frame (never empty) whose
/// decoded payload is exactly the bytes that were written into the encoder;
/// the source size hint passed through zstd_safe::CParameter::SrcSizeHint is
/// advisory (it tunes the ratio, never the payload). The encoder rejects a
/// hint above `i32::MAX`; below that bound, with a level of 1 through 22 and
/// an in-memory sink, whose writes cannot fail, every step succeeds.
#[verifier::external_body]
fn zstd_encode(data: &Vec<u8>, level: u32, size_hint: u32) -> (r: Option<Vec<u8>>)
    requires
        1 <= level <= 22,
    ensures
        size_hint <= i32::MAX ==> r is Some,
        r matches Some(c) ==> zstd_decode(c@) == Some(data@) && c@.len() > 0,
{
    let mut encoder = match zstd::stream::Encoder::new(Vec::new(), level as i32) {
        Ok(e) => e,
        Err(_) => return None,
    };
    if encoder.set_parameter(zstd::zstd_safe::CParameter::SrcSizeHint(size_hint)).is_err() {
        return None;
    }
    if std::io::Write::write_all(&mut encoder, data.as_slice()).is_err() {
        return None;
    }
    encoder.finish().ok()
}

/// Compresses `data` with the chosen codec.
///
/// Success yields one complete compressed stream that decodes back to
/// exactly `data`, and is owed wherever the codec accepts the length: gzip
/// always, zstd up to the largest size hint its encoder takes. A source
/// longer than the zstd encoder's size-hint range is rejected before any
/// byte is encoded.
pub fn compress_bytes(data: &Vec<u8>, codec: &CompressionType) -> (r: Result<
    Vec<u8>,
    CompressError,
>)
    requires
        codec.level_ok(),
    ensures
        codec_accepts(*codec, data@.len()) ==> r is Ok,
        r matches Ok(c) ==> decodes_to(*codec, c@, data@) && c@.len() > 0,
        (codec matches CompressionType::Zstd(_) && data@.len() > u32::MAX) <==> r == Err::<
            Vec<u8>,
            CompressError,
        >(CompressError::SourceTooLarge),
        r matches Err(e) ==> e == CompressError::SourceTooLarge || e
            == CompressError::EncodeFailed,
{
    match codec {
        CompressionType::Gzip(level) => match gzip_encode(data, *level) {
            Some(c) => Ok(c),
            None => Err(CompressError::EncodeFailed),
        },
        CompressionType::Zstd(level) => {
            if data.len() > u32::MAX as usize {
                return Err(CompressError::SourceTooLarge);
            }
            let hint = data.len() as u32;
            match zstd_encode(data, *level, hint) {
                Some(c) => Ok(c),
                None => Err(CompressError::EncodeFailed),
            }
        },
    }
}

} // verus!
