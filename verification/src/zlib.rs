//! The one decompression primitive the archive format needs, backed by the
//! flate2 crate.

use vstd::prelude::*;

use crate::error::Nups2Error;

verus! {

/// What zlib decompression yields on a byte sequence: the decompressed bytes
/// when the input is a well-formed zlib stream, nothing otherwise. The result
/// depends on the input bytes alone.
pub uninterp spec fn zlib_inflate(s: Seq<u8>) -> Option<Seq<u8>>;

/// Relies on flate2::read::ZlibDecoder and Read::read_to_end: decompresses
/// one zlib stream from the start of `input`, ignoring any bytes after the
/// stream's end, and fails exactly when the stream is malformed.
#[verifier::external_body]
pub fn inflate(input: &[u8]) -> (r: Result<Vec<u8>, Nups2Error>)
    ensures
        match r {
            Ok(v) => zlib_inflate(input@) == Some(v@),
            Err(e) => e is DecompressFailed && zlib_inflate(input@) is None,
        },
{
    let mut decoder = flate2::read::ZlibDecoder::new(input);
    let mut buf: Vec<u8> = Vec::new();
    match std::io::Read::read_to_end(&mut decoder, &mut buf) {
        Ok(_) => Ok(buf),
        Err(_) => Err(Nups2Error::DecompressFailed),
    }
}

} // verus!
