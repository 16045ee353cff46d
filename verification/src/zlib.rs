//! Size-validated decompression of raw zlib blocks.

use vstd::prelude::*;

use crate::error::LodError;

verus! {

/// The decompressed form of a zlib stream, or `None` if the bytes are not a
/// well-formed stream. Decompression is a function of the input bytes alone.
pub uninterp spec fn inflated(s: Seq<u8>) -> Option<Seq<u8>>;

/// The stream inflates to exactly `size` bytes.
pub open spec fn inflates_to_len(s: Seq<u8>, size: int) -> bool {
    match inflated(s) {
        Some(v) => v.len() == size,
        None => false,
    }
}

/// Relies on `flate2::bufread::ZlibDecoder`: reading it to the end yields the
/// whole decompressed stream, a function of the input bytes alone, and fails
/// exactly on bytes that are not a well-formed zlib stream.
#[verifier::external_body]
fn inflate(data: &[u8]) -> (r: Option<Vec<u8>>)
    ensures
        match r {
            Some(v) => inflated(data@) == Some(v@),
            None => inflated(data@) is None,
        },
{
    let mut z = flate2::bufread::ZlibDecoder::new(data);
    let mut buf: Vec<u8> = Vec::new();
    match std::io::Read::read_to_end(&mut z, &mut buf) {
        Ok(_) => Some(buf),
        Err(_) => None,
    }
}

/// Compare an actual byte count against a declared one: a mismatch is a
/// hard `SizeMismatch` failure.
pub fn check_size(size: usize, expected_size: usize) -> (r: Result<(), LodError>)
    ensures
        r is Ok <==> size == expected_size,
        r matches Err(e) ==> e == LodError::SizeMismatch,
{
    if size != expected_size {
        return Err(LodError::SizeMismatch);
    }
    Ok(())
}

/// Inflate `data`, validating the declared compressed size against the
/// supplied slice and the declared uncompressed size against the inflated
/// byte count. A mismatch of either declared size is a hard failure with
/// `SizeMismatch`; bytes that are no zlib stream fail with `Truncated`.
pub fn decompress(data: &[u8], compressed_size: usize, uncompressed_size: usize) -> (r: Result<
    Vec<u8>,
    LodError,
>)
    ensures
        r is Ok <==> (data@.len() == compressed_size && inflates_to_len(
            data@,
            uncompressed_size as int,
        )),
        match r {
            Ok(v) => inflated(data@) == Some(v@) && v@.len() == uncompressed_size,
            Err(e) => e == (if data@.len() != compressed_size {
                LodError::SizeMismatch
            } else if inflated(data@) is None {
                LodError::Truncated
            } else {
                LodError::SizeMismatch
            }),
        },
{
    check_size(data.len(), compressed_size)?;
    match inflate(data) {
        Some(buf) => {
            check_size(buf.len(), uncompressed_size)?;
            Ok(buf)
        },
        None => Err(LodError::Truncated),
    }
}

} // verus!
