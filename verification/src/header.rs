//! The image header and the optional physical pixel dimensions.

use vstd::prelude::*;
use crate::error::DecodeError;
use crate::utils::{
    be_bytes_to_u32, be_u32_at, is_grayscale, is_grayscale_with_alpha, is_indexed_color,
    is_true_color, is_true_color_with_alpha,
};

verus! {

/// How the samples of a pixel are to be read.
#[derive(Debug, Clone, Copy, PartialEq, Eq, Structural)]
pub enum ColorType {
    Grayscale,
    TrueColor,
    Indexed,
    GrayscaleAlpha,
    TrueColorAlpha,
}

impl ColorType {
    /// The colour type that a header byte stands for, if any.
    pub open spec fn spec_from_code(code: u8) -> Option<ColorType> {
        if code == 0 {
            Some(ColorType::Grayscale)
        } else if code == 2 {
            Some(ColorType::TrueColor)
        } else if code == 3 {
            Some(ColorType::Indexed)
        } else if code == 4 {
            Some(ColorType::GrayscaleAlpha)
        } else if code == 6 {
            Some(ColorType::TrueColorAlpha)
        } else {
            None
        }
    }

    #[verifier::when_used_as_spec(spec_from_code)]
    pub fn from_code(code: u8) -> (color_type: Option<ColorType>)
        ensures
            color_type == ColorType::spec_from_code(code),
    {
        if is_grayscale(code) {
            Some(ColorType::Grayscale)
        } else if is_true_color(code) {
            Some(ColorType::TrueColor)
        } else if is_indexed_color(code) {
            Some(ColorType::Indexed)
        } else if is_grayscale_with_alpha(code) {
            Some(ColorType::GrayscaleAlpha)
        } else if is_true_color_with_alpha(code) {
            Some(ColorType::TrueColorAlpha)
        } else {
            None
        }
    }

    /// The header byte that stands for this colour type.
    pub open spec fn spec_code(self) -> u8 {
        match self {
            ColorType::Grayscale => 0,
            ColorType::TrueColor => 2,
            ColorType::Indexed => 3,
            ColorType::GrayscaleAlpha => 4,
            ColorType::TrueColorAlpha => 6,
        }
    }

    #[verifier::when_used_as_spec(spec_code)]
    pub fn code(self) -> (code: u8)
        ensures
            code == self.spec_code(),
    {
        match self {
            ColorType::Grayscale => 0,
            ColorType::TrueColor => 2,
            ColorType::Indexed => 3,
            ColorType::GrayscaleAlpha => 4,
            ColorType::TrueColorAlpha => 6,
        }
    }

    /// The number of samples that make up one pixel.
    pub open spec fn spec_channels(self) -> nat {
        match self {
            ColorType::Grayscale => 1,
            ColorType::TrueColor => 3,
            ColorType::Indexed => 1,
            ColorType::GrayscaleAlpha => 2,
            ColorType::TrueColorAlpha => 4,
        }
    }

    pub fn channels(self) -> (channels: usize)
        ensures
            channels == self.spec_channels(),
    {
        match self {
            ColorType::Grayscale => 1,
            ColorType::TrueColor => 3,
            ColorType::Indexed => 1,
            ColorType::GrayscaleAlpha => 2,
            ColorType::TrueColorAlpha => 4,
        }
    }

    /// Whether samples of this colour type may be `depth` bits wide.
    pub open spec fn spec_allows_depth(self, depth: u8) -> bool {
        match self {
            ColorType::Grayscale => depth == 1 || depth == 2 || depth == 4 || depth == 8 || depth
                == 16,
            ColorType::Indexed => depth == 1 || depth == 2 || depth == 4 || depth == 8,
            ColorType::TrueColor | ColorType::GrayscaleAlpha | ColorType::TrueColorAlpha => depth
                == 8 || depth == 16,
        }
    }

    #[verifier::when_used_as_spec(spec_allows_depth)]
    pub fn allows_depth(self, depth: u8) -> (allowed: bool)
        ensures
            allowed == self.spec_allows_depth(depth),
    {
        match self {
            ColorType::Grayscale => depth == 1 || depth == 2 || depth == 4 || depth == 8 || depth
                == 16,
            ColorType::Indexed => depth == 1 || depth == 2 || depth == 4 || depth == 8,
            ColorType::TrueColor | ColorType::GrayscaleAlpha | ColorType::TrueColorAlpha => depth
                == 8 || depth == 16,
        }
    }
}

/// The parameters of an image, as its header chunk gives them.
#[derive(Debug, Clone, Copy, PartialEq, Eq, Structural)]
pub struct PngParam {
    pub width: u32,
    pub height: u32,
    pub depth: u8,
    pub color_type: ColorType,
    pub compression: u8,
    pub filter: u8,
    pub interlace: bool,
}

impl PngParam {
    /// What every header that `new` returns satisfies.
    pub open spec fn wf(self) -> bool {
        &&& self.width > 0
        &&& self.height > 0
        &&& self.compression == 0
        &&& self.filter == 0
        &&& self.color_type.spec_allows_depth(self.depth)
    }

    /// The header that a chunk body of at least thirteen bytes denotes, or
    /// the reason why it denotes none. The checks are made in the order in
    /// which they stand here.
    pub open spec fn parse_spec(body: Seq<u8>) -> Result<PngParam, DecodeError> {
        if body.len() < 13 {
            Err(DecodeError::TruncatedStream)
        } else if be_u32_at(body, 0) == 0 || be_u32_at(body, 4) == 0 {
            Err(DecodeError::InvalidDimensions)
        } else if body[10] != 0 {
            Err(DecodeError::UnsupportedCompression)
        } else if body[11] != 0 {
            Err(DecodeError::UnsupportedFilter)
        } else {
            match ColorType::spec_from_code(body[9]) {
                Some(color_type) if color_type.spec_allows_depth(body[8]) => Ok(
                    PngParam {
                        width: be_u32_at(body, 0) as u32,
                        height: be_u32_at(body, 4) as u32,
                        depth: body[8],
                        color_type,
                        compression: body[10],
                        filter: body[11],
                        interlace: body[12] == 1,
                    },
                ),
                _ => Err(DecodeError::InvalidColorDepth),
            }
        }
    }

    /// Reads and validates the body of a header chunk.
    pub fn new(raw_body: &[u8]) -> (header: Result<PngParam, DecodeError>)
        ensures
            header == PngParam::parse_spec(raw_body@),
            header matches Ok(p) ==> p.wf(),
    {
        if raw_body.len() < 13 {
            return Err(DecodeError::TruncatedStream);
        }
        let width = be_bytes_to_u32(raw_body[0], raw_body[1], raw_body[2], raw_body[3]);
        let height = be_bytes_to_u32(raw_body[4], raw_body[5], raw_body[6], raw_body[7]);
        let depth = raw_body[8];
        let compression = raw_body[10];
        let filter = raw_body[11];
        let interlace = raw_body[12] == 1;
        if width == 0 || height == 0 {
            return Err(DecodeError::InvalidDimensions);
        }
        if compression != 0 {
            return Err(DecodeError::UnsupportedCompression);
        }
        if filter != 0 {
            return Err(DecodeError::UnsupportedFilter);
        }
        match ColorType::from_code(raw_body[9]) {
            Some(color_type) => {
                if color_type.allows_depth(depth) {
                    Ok(PngParam { width, height, depth, color_type, compression, filter, interlace })
                } else {
                    Err(DecodeError::InvalidColorDepth)
                }
            },
            None => Err(DecodeError::InvalidColorDepth),
        }
    }

    /// The number of bits that one pixel takes in a scanline.
    pub open spec fn spec_bits_per_pixel(self) -> nat {
        self.color_type.spec_channels() * (self.depth as nat)
    }

    /// The distance in bytes between a byte and the corresponding byte of
    /// the pixel before: the bytes of one pixel, rounded up, and never less
    /// than one.
    pub open spec fn spec_bpp(self) -> nat {
        (self.spec_bits_per_pixel() + 7) / 8
    }

    /// The number of bytes in one scanline, without its filter byte.
    pub open spec fn spec_stride(self) -> nat {
        ((self.width as nat) * self.spec_bits_per_pixel() + 7) / 8
    }

    pub fn bits_per_pixel(&self) -> (bits: usize)
        requires
            self.wf(),
        ensures
            bits == self.spec_bits_per_pixel(),
            1 <= bits <= 64,
    {
        self.color_type.channels() * (self.depth as usize)
    }

    pub fn bpp(&self) -> (bpp: usize)
        requires
            self.wf(),
        ensures
            bpp == self.spec_bpp(),
            1 <= bpp <= 8,
    {
        (self.bits_per_pixel() + 7) / 8
    }

    pub fn stride(&self) -> (stride: u64)
        requires
            self.wf(),
        ensures
            stride == self.spec_stride(),
            1 <= stride <= 0x8_0000_0000,
    {
        let bits: u64 = self.bits_per_pixel() as u64;
        let width: u64 = self.width as u64;
        assert(width * bits <= 0xFFFF_FFFF * 64) by (nonlinear_arith)
            requires
                0 < width <= 0xFFFF_FFFF,
                1 <= bits <= 64,
        ;
        assert(width * bits >= 1) by (nonlinear_arith)
            requires
                0 < width,
                1 <= bits,
        ;
        (width * bits + 7) / 8
    }
}

/// The unit in which physical pixel dimensions are given.
#[derive(Debug, Clone, Copy, PartialEq, Eq, Structural)]
pub enum PhysUnit {
    Unspecified,
    Meter,
}

/// The physical pixel dimensions of an image, kept as they were found.
#[derive(Debug, Clone, Copy, PartialEq, Eq, Structural)]
pub struct PhysParam {
    pub x_pixels_per_unit: u32,
    pub y_pixels_per_unit: u32,
    pub unit_specifier: u8,
}

impl PhysParam {
    /// The dimensions that a chunk body of at least nine bytes denotes.
    pub open spec fn parse_spec(body: Seq<u8>) -> Result<PhysParam, DecodeError> {
        if body.len() < 9 {
            Err(DecodeError::TruncatedStream)
        } else {
            Ok(
                PhysParam {
                    x_pixels_per_unit: be_u32_at(body, 0) as u32,
                    y_pixels_per_unit: be_u32_at(body, 4) as u32,
                    unit_specifier: body[8],
                },
            )
        }
    }

    /// Reads the body of a physical-dimensions chunk.
    pub fn new(raw_body: &[u8]) -> (phys: Result<PhysParam, DecodeError>)
        ensures
            phys == PhysParam::parse_spec(raw_body@),
    {
        if raw_body.len() < 9 {
            return Err(DecodeError::TruncatedStream);
        }
        let x_pixels_per_unit = be_bytes_to_u32(
            raw_body[0],
            raw_body[1],
            raw_body[2],
            raw_body[3],
        );
        let y_pixels_per_unit = be_bytes_to_u32(
            raw_body[4],
            raw_body[5],
            raw_body[6],
            raw_body[7],
        );
        Ok(PhysParam { x_pixels_per_unit, y_pixels_per_unit, unit_specifier: raw_body[8] })
    }

    /// The unit that the unit byte names: 1 is the metre, anything else
    /// leaves the unit open.
    pub open spec fn spec_unit(self) -> PhysUnit {
        if self.unit_specifier == 1 {
            PhysUnit::Meter
        } else {
            PhysUnit::Unspecified
        }
    }

    #[verifier::when_used_as_spec(spec_unit)]
    pub fn unit(self) -> (unit: PhysUnit)
        ensures
            unit == self.spec_unit(),
    {
        if self.unit_specifier == 1 {
            PhysUnit::Meter
        } else {
            PhysUnit::Unspecified
        }
    }
}

} // verus!
