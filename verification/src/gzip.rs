//! Decompression of a gzip stream held in memory.

use crate::error::DataLoadError;
use std::io::Read;
use vstd::prelude::*;

verus! {

/// `std::io::Error`, the error of the decoder; it is passed on unread.
#[verifier::external_type_specification]
#[verifier::external_body]
pub struct ExIoError(std::io::Error);

/// What a gzip stream decompresses to: the data of its first member, as
/// `flate2::read::GzDecoder` yields it when read to its end, or `None` where
/// the decoder rejects the bytes.
pub uninterp spec fn gzip_payload(bytes: Seq<u8>) -> Option<Seq<u8>>;

/// Makes a `flate2::read::GzDecoder` over `bytes` and reads it to its end with
/// `std::io::Read::read_to_end`. Trusted: the outcome depends on the bytes
/// alone; success yields the payload, an error means there is none.
#[verifier::external_body]
fn inflate(bytes: &[u8]) -> (out: Result<Vec<u8>, std::io::Error>)
    ensures
        match out {
            Ok(data) => gzip_payload(bytes@) == Some(data@),
            Err(_) => gzip_payload(bytes@) is None,
        },
{
    let mut data = Vec::new();
    let mut decoder = flate2::read::GzDecoder::new(bytes);
    match decoder.read_to_end(&mut data) {
        Ok(_) => Ok(data),
        Err(e) => Err(e),
    }
}

/// Decompresses a gzip stream.
pub fn gunzip(bytes: &[u8]) -> (out: Result<Vec<u8>, DataLoadError>)
    ensures
        match out {
            Ok(data) => gzip_payload(bytes@) == Some(data@),
            Err(e) => e == DataLoadError::Gzip && gzip_payload(bytes@) is None,
        },
{
    match inflate(bytes) {
        Ok(data) => Ok(data),
        Err(_) => Err(DataLoadError::Gzip),
    }
}

} // verus!
