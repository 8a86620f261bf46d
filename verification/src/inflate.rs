//! Decompression of the image data, which is left to the `flate2` crate.

use vstd::prelude::*;

verus! {

/// What decompressing a zlib stream yields: the decompressed bytes, or
/// `None` where the stream is not a complete, well-formed zlib stream.
pub uninterp spec fn zlib_inflate(compressed: Seq<u8>) -> Option<Seq<u8>>;

/// Decompresses a zlib stream with `flate2::read::ZlibDecoder`, read to its
/// end. The contract claims only that the outcome depends on the compressed
/// bytes alone: it is `zlib_inflate` of them, with `None` standing for an
/// error of the decoder.
#[verifier::external_body]
pub(crate) fn inflate(compressed: &[u8]) -> (inflated: Option<Vec<u8>>)
    ensures
        match inflated {
            Some(bytes) => zlib_inflate(compressed@) == Some(bytes@),
            None => zlib_inflate(compressed@) is None,
        },
{
    let mut decoder = flate2::read::ZlibDecoder::new(compressed);
    let mut bytes: Vec<u8> = Vec::new();
    match std::io::Read::read_to_end(&mut decoder, &mut bytes) {
        Ok(_) => Some(bytes),
        Err(_) => None,
    }
}

} // verus!
