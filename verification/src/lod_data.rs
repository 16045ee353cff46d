//! Framing of compressed archive entries: a short 8-byte header or an
//! extended 48-byte header, both declaring a compressed and an uncompressed
//! size, followed by a raw zlib payload. Entries that match neither framing
//! are kept as they are.

use vstd::prelude::*;

use crate::bytes::le32;
use crate::error::LodError;
use crate::zlib::{decompress, inflated, inflates_to_len};

verus! {

/// The bytes a zlib stream inflates to (empty if it is no valid stream).
pub open spec fn inflated_bytes(s: Seq<u8>) -> Seq<u8> {
    match inflated(s) {
        Some(v) => v,
        None => Seq::empty(),
    }
}

/// The entry decodes under the 8-byte framing: a compressed size at offset 0
/// that matches the payload length, and an uncompressed size at offset 4 that
/// matches the inflated length.
pub open spec fn frames_with_8(d: Seq<u8>) -> bool {
    &&& d.len() >= 8
    &&& le32(d, 0) == d.len() - 8
    &&& inflates_to_len(d.skip(8), le32(d, 4))
}

/// The entry decodes under the 48-byte framing: a compressed size at offset
/// 20 that matches the payload length, and an uncompressed size at offset 40
/// that matches the inflated length.
pub open spec fn frames_with_48(d: Seq<u8>) -> bool {
    &&& d.len() >= 48
    &&& le32(d, 20) == d.len() - 48
    &&& inflates_to_len(d.skip(48), le32(d, 40))
}

/// The plain bytes of an archive entry: the inflated payload under whichever
/// framing fits (the 8-byte form is tried first), or the entry itself.
pub open spec fn entry_plain_bytes(d: Seq<u8>) -> Seq<u8> {
    if frames_with_8(d) {
        inflated_bytes(d.skip(8))
    } else if frames_with_48(d) {
        inflated_bytes(d.skip(48))
    } else {
        d
    }
}

/// An archive entry decoded out of its compressed framing, if it had one.
pub struct LodData {
    /// The framing header the entry carried, if any.
    pub header: Option<Vec<u8>>,
    /// The plain entry bytes.
    pub data: Vec<u8>,
}

fn decompress_with_8_bytes_header(d: &[u8]) -> (r: Result<LodData, LodError>)
    ensures
        r is Ok <==> frames_with_8(d@),
        match r {
            Ok(l) => {
                &&& l.data@ == inflated_bytes(d@.skip(8))
                &&& l.header matches Some(h) && h@ == d@.subrange(0, 8)
            },
            Err(_) => true,
        },
{
    if d.len() < 8 {
        return Err(LodError::Truncated);
    }
    let compressed_size: u32 = crate::bytes::read_u32_le(d, 0);
    let uncompressed_size: u32 = crate::bytes::read_u32_le(d, 4);
    let payload: &[u8] = &d[8..d.len()];
    proof {
        assert(payload@ =~= d@.skip(8));
    }
    if compressed_size as usize != payload.len() {
        return Err(LodError::SizeMismatch);
    }
    let data: Vec<u8> = decompress(payload, compressed_size as usize, uncompressed_size as usize)?;
    Ok(LodData { header: Some(crate::bytes::copy_range(d, 0, 8)), data })
}

fn decompress_with_48_bytes_header(d: &[u8]) -> (r: Result<LodData, LodError>)
    ensures
        r is Ok <==> frames_with_48(d@),
        match r {
            Ok(l) => {
                &&& l.data@ == inflated_bytes(d@.skip(48))
                &&& l.header matches Some(h) && h@ == d@.subrange(0, 48)
            },
            Err(_) => true,
        },
{
    if d.len() < 48 {
        return Err(LodError::Truncated);
    }
    let compressed_size: u32 = crate::bytes::read_u32_le(d, 20);
    let uncompressed_size: u32 = crate::bytes::read_u32_le(d, 40);
    let payload: &[u8] = &d[48..d.len()];
    proof {
        assert(payload@ =~= d@.skip(48));
    }
    if compressed_size as usize != payload.len() {
        return Err(LodError::SizeMismatch);
    }
    let data: Vec<u8> = decompress(payload, compressed_size as usize, uncompressed_size as usize)?;
    Ok(LodData { header: Some(crate::bytes::copy_range(d, 0, 48)), data })
}

impl LodData {
    /// Decode an archive entry out of its framing. Never fails: an entry
    /// that matches neither framing is returned as it is, with no header.
    pub fn try_from(d: &[u8]) -> (r: LodData)
        ensures
            r.data@ == entry_plain_bytes(d@),
            r.header is Some <==> (frames_with_8(d@) || frames_with_48(d@)),
    {
        match decompress_with_8_bytes_header(d) {
            Ok(l) => l,
            Err(_) => match decompress_with_48_bytes_header(d) {
                Ok(l) => l,
                Err(_) => LodData {
                    header: None,
                    data: vstd::slice::slice_to_vec(d),
                },
            },
        }
    }
}

} // verus!
