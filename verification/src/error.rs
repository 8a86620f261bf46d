//! The ways in which decoding can fail.

use vstd::prelude::*;

verus! {

/// Why a byte stream could not be decoded. Every failure ends the decode.
#[derive(Debug, Clone, Copy, PartialEq, Eq, Structural)]
pub enum DecodeError {
    /// The stream does not begin with the eight signature bytes.
    InvalidSignature,
    /// Fewer bytes remain than a chunk or a fixed-size chunk body needs, or
    /// the stream ends before its terminating chunk.
    TruncatedStream,
    /// The checksum stored after a chunk (`expected`) differs from the one
    /// computed over its type and body (`computed`).
    CrcMismatch { expected: u32, computed: u32 },
    /// The header declares a width or a height of zero.
    InvalidDimensions,
    /// The header names a compression method other than 0.
    UnsupportedCompression,
    /// The header names a filter method other than 0.
    UnsupportedFilter,
    /// The header's colour type and bit depth do not go together.
    InvalidColorDepth,
    /// A scanline begins with a filter byte greater than 4.
    InvalidFilterType,
    /// The decompressed data is not exactly one filter byte and one stride of
    /// bytes for every row of the image.
    ScanlineLengthMismatch,
    /// An indexed-colour image has no palette, or refers to an entry that its
    /// palette does not hold.
    MissingPalette,
    /// The image is interlaced.
    UnsupportedInterlacing,
    /// A chunk came before the header, or a second header was found.
    HeaderOutOfOrder,
    /// A palette came after image data.
    PaletteOutOfOrder,
    /// A chunk of unknown type is marked as critical.
    UnsupportedCriticalChunk,
    /// The compressed image data could not be decompressed.
    CompressedStreamCorrupt,
}

/// The four families of failure.
#[derive(Debug, Clone, Copy, PartialEq, Eq, Structural)]
pub enum ErrorKind {
    /// The stream is not laid out as a PNG stream must be.
    Format,
    /// The stream was damaged: a checksum fails or bytes are missing.
    Integrity,
    /// The stream uses a feature that this decoder does not offer.
    UnsupportedFeature,
    /// The decompressor rejected the image data.
    Dependency,
}

impl DecodeError {
    /// The family that an error belongs to.
    pub open spec fn spec_kind(self) -> ErrorKind {
        match self {
            DecodeError::CrcMismatch { .. } | DecodeError::TruncatedStream => ErrorKind::Integrity,
            DecodeError::UnsupportedCompression
            | DecodeError::UnsupportedFilter
            | DecodeError::InvalidColorDepth
            | DecodeError::UnsupportedInterlacing
            | DecodeError::UnsupportedCriticalChunk => ErrorKind::UnsupportedFeature,
            DecodeError::CompressedStreamCorrupt => ErrorKind::Dependency,
            DecodeError::InvalidSignature
            | DecodeError::InvalidDimensions
            | DecodeError::InvalidFilterType
            | DecodeError::ScanlineLengthMismatch
            | DecodeError::MissingPalette
            | DecodeError::HeaderOutOfOrder
            | DecodeError::PaletteOutOfOrder => ErrorKind::Format,
        }
    }

    #[verifier::when_used_as_spec(spec_kind)]
    pub fn kind(self) -> (kind: ErrorKind)
        ensures
            kind == self.spec_kind(),
    {
        match self {
            DecodeError::CrcMismatch { .. } | DecodeError::TruncatedStream => ErrorKind::Integrity,
            DecodeError::UnsupportedCompression
            | DecodeError::UnsupportedFilter
            | DecodeError::InvalidColorDepth
            | DecodeError::UnsupportedInterlacing
            | DecodeError::UnsupportedCriticalChunk => ErrorKind::UnsupportedFeature,
            DecodeError::CompressedStreamCorrupt => ErrorKind::Dependency,
            DecodeError::InvalidSignature
            | DecodeError::InvalidDimensions
            | DecodeError::InvalidFilterType
            | DecodeError::ScanlineLengthMismatch
            | DecodeError::MissingPalette
            | DecodeError::HeaderOutOfOrder
            | DecodeError::PaletteOutOfOrder => ErrorKind::Format,
        }
    }
}

} // verus!
