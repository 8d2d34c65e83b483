//! zlib streams, through flate2.

use vstd::prelude::*;
use flate2::bufread::{ZlibDecoder, ZlibEncoder};
use flate2::Compression;
use std::io::Read;

verus! {

#[verifier::external_type_specification]
#[verifier::external_body]
pub struct ExIoError(std::io::Error);

/// The zlib stream that flate2 makes of `data` at its default level.
pub uninterp spec fn zlib_deflated(data: Seq<u8>) -> Seq<u8>;

/// What flate2 inflates the zlib stream `data` to, or `None` where it reports
/// an error.
pub uninterp spec fn zlib_inflated(data: Seq<u8>) -> Option<Seq<u8>>;

/// Relies on flate2's `bufread::ZlibEncoder` at `Compression::default()`, read
/// to its end: the compressed stream depends on the input bytes alone.
#[verifier::external_body]
pub(crate) fn zlib_compress(data: &[u8]) -> (r: Result<Vec<u8>, std::io::Error>)
    ensures
        r matches Ok(v) ==> v@ == zlib_deflated(data@),
{
    let mut out = Vec::new();
    match ZlibEncoder::new(data, Compression::default()).read_to_end(&mut out) {
        Ok(_) => Ok(out),
        Err(e) => Err(e),
    }
}

/// Relies on flate2's `bufread::ZlibDecoder`, read to its end into a buffer
/// reserved for `capacity` bytes: the result depends on the input bytes alone.
#[verifier::external_body]
pub(crate) fn zlib_decompress(data: &[u8], capacity: usize) -> (r: Result<Vec<u8>, std::io::Error>)
    ensures
        match r {
            Ok(v) => zlib_inflated(data@) == Some(v@),
            Err(_) => zlib_inflated(data@) is None,
        },
{
    let mut out = Vec::with_capacity(capacity);
    match ZlibDecoder::new(data).read_to_end(&mut out) {
        Ok(_) => Ok(out),
        Err(e) => Err(e),
    }
}

} // verus!
