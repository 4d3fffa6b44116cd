//! Decompression of the raw archive bytes.

use vstd::prelude::*;

use crate::error::BtfError;

verus! {

/// `std::io::Error`, the error of the decoder and of the archive reader. It is
/// carried as an opaque value; nothing is claimed of what it holds.
#[verifier::external_type_specification]
#[verifier::external_body]
pub struct ExIoError(std::io::Error);

/// What draining a `flate2::read::GzDecoder` over `raw` produces: the data of
/// the first gzip member, or nothing where the decoder reports an error.
pub uninterp spec fn gzip_member(raw: Seq<u8>) -> Option<Seq<u8>>;

/// `flate2::read::GzDecoder::new` over the bytes, drained by `read_to_end`.
/// The decoder reads one gzip member and reports a corrupt header, a corrupt or
/// truncated stream and a checksum mismatch as errors. What it produces depends
/// on the bytes alone and is named `gzip_member`.
#[verifier::external_body]
fn gunzip(raw: &[u8]) -> (out: Result<Vec<u8>, std::io::Error>)
    ensures
        out matches Ok(data) ==> gzip_member(raw@) == Some(data@),
        out is Err ==> gzip_member(raw@) is None,
{
    let mut data = Vec::new();
    std::io::Read::read_to_end(&mut flate2::read::GzDecoder::new(raw), &mut data)?;
    Ok(data)
}

/// Decompresses the raw archive bytes in full. No partial buffer is handed out:
/// any decoder failure yields `DecompressionError`.
pub fn decompress(raw: &[u8]) -> (out: Result<Vec<u8>, BtfError>)
    ensures
        match out {
            Ok(data) => gzip_member(raw@) == Some(data@),
            Err(e) => e == BtfError::DecompressionError && gzip_member(raw@) is None,
        },
{
    match gunzip(raw) {
        Ok(data) => Ok(data),
        Err(_) => Err(BtfError::DecompressionError),
    }
}

} // verus!
