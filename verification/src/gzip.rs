//! Unpacking a gzip stream, which is `flate2`'s work.

use std::io::Read;
use vstd::prelude::*;

verus! {

/// `std::io::Error`, with which a reader reports that it cannot go on.
#[verifier::external_type_specification]
#[verifier::external_body]
pub struct ExIoError(std::io::Error);

/// What `flate2::read::GzDecoder` reads out of `bytes` up to the end of the
/// first gzip member, or nothing where it reports an error on the way.
pub uninterp spec fn gzip_content(bytes: Seq<u8>) -> Option<Seq<u8>>;

/// `flate2::read::GzDecoder::new` over the bytes, read with
/// `std::io::Read::read_to_end`: believed to depend on the bytes alone.
#[verifier::external_body]
fn read_gzip(bytes: &[u8]) -> (r: Result<Vec<u8>, std::io::Error>)
    ensures
        match r {
            Ok(content) => gzip_content(bytes@) == Some(content@),
            Err(_) => gzip_content(bytes@) is None,
        },
{
    let mut content = Vec::new();
    flate2::read::GzDecoder::new(bytes).read_to_end(&mut content)?;
    Ok(content)
}

/// Unpacks a gzip stream, or tells that `bytes` is none.
pub fn gunzip(bytes: &[u8]) -> (r: Option<Vec<u8>>)
    ensures
        match r {
            Some(content) => gzip_content(bytes@) == Some(content@),
            None => gzip_content(bytes@) is None,
        },
{
    match read_gzip(bytes) {
        Ok(content) => Some(content),
        Err(_) => None,
    }
}

} // verus!
