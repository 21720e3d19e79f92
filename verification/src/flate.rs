//! The compressed object format.
//!
//! A snapshot document is stored gzip-compressed.  Compression is an
//! outside call; the library relies on gzip being lossless — decompressing
//! what was compressed yields the original document — and on decompression
//! being a function of the stored bytes that rejects invalid streams.

use crate::errors::VersionsError;
use flate2::Compression;
use flate2::read::GzDecoder;
use flate2::write::GzEncoder;
use std::io::Read;
use std::io::Write;
use vstd::prelude::*;

verus! {

/// What decompressing a byte sequence yields: the decompressed bytes, or
/// nothing when the sequence is not a valid compressed stream.
pub uninterp spec fn gunzip_of(b: Seq<u8>) -> Option<Seq<u8>>;

/// Relies on flate2's `GzEncoder`: gzip is lossless, so the stream it
/// produces decompresses to exactly the input.  Writing into a vector can
/// only fail with an I/O error, which is passed through.
#[verifier::external_body]
pub(crate) fn compress(data: &Vec<u8>) -> (r: Result<Vec<u8>, VersionsError>)
    ensures
        r matches Ok(c) ==> gunzip_of(c@) == Some(data@),
        r matches Err(e) ==> e matches VersionsError::IoError(_),
{
    let mut encoder = GzEncoder::new(Vec::new(), Compression::best());
    if let Err(e) = encoder.write_all(data) {
        return Err(VersionsError::IoError(e.to_string().into_bytes()));
    }
    match encoder.finish() {
        Ok(c) => Ok(c),
        Err(e) => Err(VersionsError::IoError(e.to_string().into_bytes())),
    }
}

/// Relies on flate2's `GzDecoder`: decompression is a function of the
/// stored bytes; a stream that is not valid gzip is rejected.
#[verifier::external_body]
pub(crate) fn decompress(data: &Vec<u8>) -> (r: Result<Vec<u8>, VersionsError>)
    ensures
        match r {
            Ok(v) => gunzip_of(data@) == Some(v@),
            Err(e) => gunzip_of(data@) is None && e == VersionsError::MalformedObject,
        },
{
    let mut decoder = GzDecoder::new(data.as_slice());
    let mut out = Vec::new();
    match decoder.read_to_end(&mut out) {
        Ok(_) => Ok(out),
        Err(_) => Err(VersionsError::MalformedObject),
    }
}

} // verus!
