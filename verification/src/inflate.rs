//! Zlib decompression of image data, done by `flate2`.

use vstd::prelude::*;

verus! {

/// The bytes that `flate2`'s zlib decoder (`flate2::bufread::ZlibDecoder`, read to the end
/// with `std::io::Read::read_to_end`) yields from `input`. The decoder stops at the end of
/// the zlib stream, so bytes after it do not contribute. On a damaged or unfinished stream
/// `read_to_end` reports an error after the bytes already delivered; those bytes are the
/// result.
pub uninterp spec fn zlib_inflated(input: Seq<u8>) -> Seq<u8>;

/// Decompresses the zlib stream at the start of `input` with
/// `flate2::bufread::ZlibDecoder::new` and `std::io::Read::read_to_end`, ignoring the
/// error that `read_to_end` may report, as the reader does. The contract only names the
/// result: it is what the decoder produced from `input`, and nothing more is claimed of it.
#[verifier::external_body]
pub(crate) fn inflate_zlib(input: &[u8]) -> (out: Vec<u8>)
    ensures
        out@ == zlib_inflated(input@),
{
    let mut decoder = flate2::bufread::ZlibDecoder::new(input);
    let mut out: Vec<u8> = Vec::new();
    let _ = std::io::Read::read_to_end(&mut decoder, &mut out);
    out
}

} // verus!
