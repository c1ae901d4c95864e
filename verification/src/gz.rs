use vstd::prelude::*;

use crate::error::LoadError;

verus! {

/// The decompressed form of a gzip stream, or nothing when the bytes are not
/// a well-formed gzip archive. Gzip decoding is deterministic in the input
/// bytes alone; this name stands for its result, which is far too long to
/// state here.
pub uninterp spec fn gunzip_of(s: Seq<u8>) -> Option<Seq<u8>>;

/// Relies on flate2's `read::GzDecoder`, drained by `std::io::Read::read_to_end`:
/// reading from an in-memory slice, it inflates the gzip stream and fails
/// exactly on a malformed one, so both the outcome and the bytes produced are
/// a function of the input bytes alone.
#[verifier::external_body]
fn gunzip(data: &Vec<u8>) -> (r: Result<Vec<u8>, ()>)
    ensures
        r is Ok <==> gunzip_of(data@) is Some,
        r matches Ok(out) ==> gunzip_of(data@) == Some(out@),
{
    let mut decoder = flate2::read::GzDecoder::new(data.as_slice());
    let mut buffer = Vec::new();
    match std::io::Read::read_to_end(&mut decoder, &mut buffer) {
        Ok(_) => Ok(buffer),
        Err(_) => Err(()),
    }
}

/// Decompresses a downloaded archive into the raw bytes of a dataset file.
/// Extraction is all-or-nothing: a malformed stream yields no bytes at all,
/// and is reported as a local I/O fault, never retried against a mirror.
pub fn decompress_archive(data: &Vec<u8>) -> (r: Result<Vec<u8>, LoadError>)
    ensures
        r is Ok <==> gunzip_of(data@) is Some,
        r matches Ok(out) ==> gunzip_of(data@) == Some(out@),
        r matches Err(e) ==> e == LoadError::Io,
{
    match gunzip(data) {
        Ok(raw) => Ok(raw),
        Err(_) => Err(LoadError::Io),
    }
}

} // verus!
