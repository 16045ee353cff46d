//! Error kinds shared by every decoder in the crate.

use vstd::prelude::*;

verus! {

/// Why a decode failed. Every decode entry point returns a `Result` with
/// this error; none of them panics.
#[derive(Clone, Copy, Debug, PartialEq, Eq, Structural)]
pub enum LodError {
    /// Bad magic tag or malformed directory record.
    InvalidFormat,
    /// The version token matched none of the known game versions.
    UnsupportedVersion,
    /// A read ran past the end of the available bytes.
    Truncated,
    /// A file-system failure reported by the caller that read the bytes.
    Io,
    /// A declared byte count does not match the actual byte count.
    SizeMismatch,
    /// A named archive, entry or atlas bitmap is missing.
    NotFound,
    /// A palette entry does not have the exact expected size.
    MalformedPalette,
    /// A palette entry name does not end in a numeric id.
    InvalidId,
    /// An image header declares zero pixels.
    ZeroPixelSize,
    /// An image entry is too short to hold its payload and palette.
    InsufficientData,
    /// A sprite names a palette id that the palette table does not hold.
    PaletteNotFound,
    /// A tile name in the atlas set has no bitmap in the archive set.
    MissingAsset,
}

impl LodError {
    /// A short human-readable description of the error kind.
    pub fn message(&self) -> &'static str {
        match self {
            LodError::InvalidFormat => "invalid file format",
            LodError::UnsupportedVersion => "unsupported game version",
            LodError::Truncated => "data is truncated",
            LodError::Io => "input could not be read",
            LodError::SizeMismatch => "declared size does not match actual size",
            LodError::NotFound => "entry not found",
            LodError::MalformedPalette => "palette entry has a wrong size",
            LodError::InvalidId => "palette name has no numeric id",
            LodError::ZeroPixelSize => "image header declares zero pixels",
            LodError::InsufficientData => "image entry is too short",
            LodError::PaletteNotFound => "palette id is not in the table",
            LodError::MissingAsset => "atlas bitmap is missing",
        }
    }
}

} // verus!
