//! The pixel assembler: from reconstructed rows to pixels of four 8-bit
//! channels.

use vstd::prelude::*;
use vstd::arithmetic::power2::{lemma2_to64, pow2};
use vstd::bits::lemma_u8_shr_is_div;
use crate::error::DecodeError;
use crate::header::{ColorType, PngParam};
use crate::pixel::Pixel;
use crate::scanline::rows_view;
use crate::utils::rgba_to_u32;

verus! {

/// Sample number `k` of a row whose samples are `depth` bits wide. Samples
/// of 16 bits are stored most significant byte first; samples narrower than
/// a byte are packed into bytes from the most significant bits down.
pub open spec fn sample(row: Seq<u8>, depth: u8, k: int) -> int {
    if depth == 16 {
        row[2 * k] as int * 256 + row[2 * k + 1] as int
    } else if depth == 8 {
        row[k] as int
    } else {
        let per_byte = 8int / (depth as int);
        let shift = (depth as int) * (per_byte - 1 - k % per_byte);
        (row[k / per_byte] as int / pow2(shift as nat) as int) % (pow2(depth as nat) as int)
    }
}

/// A sample of `depth` bits, brought to eight bits: a wider sample keeps
/// its more significant byte, a narrower one is spread evenly over 0..=255.
pub open spec fn scale_sample(depth: u8, v: int) -> u8 {
    if depth == 16 {
        (v / 256) as u8
    } else if depth == 8 {
        v as u8
    } else if depth == 4 {
        (v * 17) as u8
    } else if depth == 2 {
        (v * 85) as u8
    } else {
        (v * 255) as u8
    }
}

/// Sample number `k` of a row, as eight bits.
pub open spec fn channel(row: Seq<u8>, depth: u8, k: int) -> u8 {
    scale_sample(depth, sample(row, depth, k))
}

/// The palette entry with number `index`, if the palette holds it. A
/// palette is a sequence of entries of three bytes: red, green, blue.
pub open spec fn palette_entry(palette: Seq<u8>, index: int) -> Option<Pixel> {
    if 0 <= index && 3 * index + 2 < palette.len() {
        Some(
            Pixel {
                r: palette[3 * index],
                g: palette[3 * index + 1],
                b: palette[3 * index + 2],
                a: 255,
            },
        )
    } else {
        None
    }
}

/// Pixel number `x` of a reconstructed row. Colour types without an alpha
/// channel give opaque pixels; grey samples fill all three colour channels.
/// An indexed pixel is its palette entry; there is none if the palette is
/// missing or too short.
pub open spec fn pixel_at(params: PngParam, palette: Option<Seq<u8>>, row: Seq<u8>, x: int) -> Option<
    Pixel,
> {
    let d = params.depth;
    match params.color_type {
        ColorType::Grayscale => {
            let grey = channel(row, d, x);
            Some(Pixel { r: grey, g: grey, b: grey, a: 255 })
        },
        ColorType::GrayscaleAlpha => {
            let grey = channel(row, d, 2 * x);
            Some(Pixel { r: grey, g: grey, b: grey, a: channel(row, d, 2 * x + 1) })
        },
        ColorType::TrueColor => Some(
            Pixel {
                r: channel(row, d, 3 * x),
                g: channel(row, d, 3 * x + 1),
                b: channel(row, d, 3 * x + 2),
                a: 255,
            },
        ),
        ColorType::TrueColorAlpha => Some(
            Pixel {
                r: channel(row, d, 4 * x),
                g: channel(row, d, 4 * x + 1),
                b: channel(row, d, 4 * x + 2),
                a: channel(row, d, 4 * x + 3),
            },
        ),
        ColorType::Indexed => match palette {
            Some(entries) => palette_entry(entries, sample(row, d, x)),
            None => None,
        },
    }
}

/// Pixel number `k` of an image, counted row by row from the top left.
pub open spec fn pixel_number(
    params: PngParam,
    palette: Option<Seq<u8>>,
    rows: Seq<Seq<u8>>,
    k: int,
) -> Option<Pixel> {
    pixel_at(params, palette, rows[k / (params.width as int)], k % (params.width as int))
}

/// The pixels of an image with header `params` and reconstructed rows
/// `rows`, or the reason why there are none. The checks are made in the
/// order in which they stand here.
pub open spec fn assemble_spec(
    params: PngParam,
    palette: Option<Seq<u8>>,
    rows: Seq<Seq<u8>>,
) -> Result<Seq<Pixel>, DecodeError> {
    if params.interlace {
        Err(DecodeError::UnsupportedInterlacing)
    } else if params.color_type == ColorType::Indexed && palette is None {
        Err(DecodeError::MissingPalette)
    } else if rows.len() != params.height || exists|y: int|
        0 <= y < rows.len() && (#[trigger] rows[y]).len() != params.spec_stride() {
        Err(DecodeError::ScanlineLengthMismatch)
    } else if exists|k: int|
        0 <= k < params.width * params.height && #[trigger] pixel_number(params, palette, rows, k)
            is None {
        Err(DecodeError::MissingPalette)
    } else {
        Ok(
            Seq::new(
                (params.width * params.height) as nat,
                |k: int| pixel_number(params, palette, rows, k).unwrap(),
            ),
        )
    }
}

/// The pixels of a decoded image, row by row from the top left.
#[derive(Debug)]
pub struct PixelBuffer {
    pub width: u32,
    pub height: u32,
    pub data: Vec<Pixel>,
}

impl View for PixelBuffer {
    type V = Seq<Pixel>;

    open spec fn view(&self) -> Seq<Pixel> {
        self.data@
    }
}

impl PixelBuffer {
    /// What every buffer that `assemble` returns satisfies.
    pub open spec fn wf(self) -> bool {
        self.data@.len() == self.width * self.height
    }

    /// The pixels as display words `0xAARRGGBB`, in the same order.
    pub fn to_argb(&self) -> (words: Vec<u32>)
        ensures
            words@.len() == self@.len(),
            forall|k: int|
                0 <= k < self@.len() ==> #[trigger] words@[k] == crate::utils::argb_word(
                    self@[k].r,
                    self@[k].g,
                    self@[k].b,
                    self@[k].a,
                ),
    {
        let mut words: Vec<u32> = Vec::with_capacity(self.data.len());
        let mut k: usize = 0;
        while k < self.data.len()
            invariant
                k <= self.data@.len(),
                words@.len() == k,
                forall|j: int|
                    0 <= j < k ==> #[trigger] words@[j] == crate::utils::argb_word(
                        self@[j].r,
                        self@[j].g,
                        self@[j].b,
                        self@[j].a,
                    ),
            decreases self.data@.len() - k,
        {
            let p = self.data[k];
            let rgba: [u8; 4] = [p.r, p.g, p.b, p.a];
            words.push(rgba_to_u32(rgba.as_slice()));
            k += 1;
        }
        words
    }
}

/// The number of whole samples of `depth` bits in `len` bytes.
pub open spec fn samples_in(len: int, depth: u8) -> int {
    if depth == 16 {
        len / 2
    } else if depth == 8 {
        len
    } else if depth == 4 {
        len * 2
    } else if depth == 2 {
        len * 4
    } else {
        len * 8
    }
}

/// Reads sample number `k` of a row and brings it to eight bits.
fn channel_of(row: &[u8], depth: u8, k: usize) -> (value: u8)
    requires
        depth == 1 || depth == 2 || depth == 4 || depth == 8 || depth == 16,
        k < samples_in(row@.len() as int, depth),
    ensures
        value == channel(row@, depth, k as int),
{
    if depth == 16 {
        assert(2 * k + 1 < row@.len() <= usize::MAX) by {
            vstd::slice::axiom_spec_len(row);
        }
        row[2 * k]
    } else if depth == 8 {
        row[k]
    } else {
        proof {
            lemma2_to64();
        }
        let v = sample_of(row, depth, k);
        if depth == 4 {
            v * 17
        } else if depth == 2 {
            v * 85
        } else {
            v * 255
        }
    }
}

/// Reads sample number `k` of a row whose samples are narrower than a byte.
fn sample_of(row: &[u8], depth: u8, k: usize) -> (value: u8)
    requires
        depth == 1 || depth == 2 || depth == 4,
        k < samples_in(row@.len() as int, depth),
    ensures
        value == sample(row@, depth, k as int),
        value < pow2(depth as nat),
{
    let per_byte: usize = if depth == 4 {
        2
    } else if depth == 2 {
        4
    } else {
        8
    };
    let modulus: u8 = if depth == 4 {
        16
    } else if depth == 2 {
        4
    } else {
        2
    };
    let byte: u8 = row[k / per_byte];
    let slot: u8 = (per_byte - 1 - k % per_byte) as u8;
    assert(depth * slot <= 7) by {
        if depth == 4 {
            assert(slot <= 1);
        } else if depth == 2 {
            assert(slot <= 3);
        } else {
            assert(slot <= 7);
        }
    }
    let shift: u8 = depth * slot;
    proof {
        lemma2_to64();
        lemma_u8_shr_is_div(byte, shift);
    }
    (byte >> shift) % modulus
}

/// The bytes of a palette that may be absent.
pub open spec fn palette_view(palette: Option<&[u8]>) -> Option<Seq<u8>> {
    match palette {
        Some(entries) => Some(entries@),
        None => None,
    }
}

/// A row of one stride holds all the samples of its pixels.
pub proof fn lemma_row_holds_pixels(params: PngParam)
    requires
        params.wf(),
    ensures
        params.width * params.color_type.spec_channels() <= samples_in(
            params.spec_stride() as int,
            params.depth,
        ),
{
    let w = params.width as int;
    let c = params.color_type.spec_channels() as int;
    let d = params.depth as int;
    assert(w * (c * d) == (w * c) * d) by (nonlinear_arith);
}

/// Reads pixel number `x` of a reconstructed row.
pub fn pixel_of(params: &PngParam, palette: Option<&[u8]>, row: &[u8], x: usize) -> (pixel: Option<
    Pixel,
>)
    requires
        params.wf(),
        row@.len() == params.spec_stride(),
        x < params.width,
    ensures
        pixel == pixel_at(*params, palette_view(palette), row@, x as int),
{
    let d = params.depth;
    proof {
        vstd::slice::axiom_spec_len(row);
        lemma_row_holds_pixels(*params);
    }
    match params.color_type {
        ColorType::Grayscale => {
            let grey = channel_of(row, d, x);
            Some(Pixel { r: grey, g: grey, b: grey, a: 255 })
        },
        ColorType::GrayscaleAlpha => {
            let grey = channel_of(row, d, 2 * x);
            let alpha = channel_of(row, d, 2 * x + 1);
            Some(Pixel { r: grey, g: grey, b: grey, a: alpha })
        },
        ColorType::TrueColor => {
            let r = channel_of(row, d, 3 * x);
            let g = channel_of(row, d, 3 * x + 1);
            let b = channel_of(row, d, 3 * x + 2);
            Some(Pixel { r, g, b, a: 255 })
        },
        ColorType::TrueColorAlpha => {
            let r = channel_of(row, d, 4 * x);
            let g = channel_of(row, d, 4 * x + 1);
            let b = channel_of(row, d, 4 * x + 2);
            let a = channel_of(row, d, 4 * x + 3);
            Some(Pixel { r, g, b, a })
        },
        ColorType::Indexed => {
            match palette {
                None => None,
                Some(entries) => {
                    let index: usize = if d == 8 {
                        row[x] as usize
                    } else {
                        sample_of(row, d, x) as usize
                    };
                    if 3 * index + 2 < entries.len() {
                        Some(
                            Pixel {
                                r: entries[3 * index],
                                g: entries[3 * index + 1],
                                b: entries[3 * index + 2],
                                a: 255,
                            },
                        )
                    } else {
                        None
                    }
                },
            }
        },
    }
}

proof fn lemma_pixel_position(y: int, x: int, width: int, height: int)
    requires
        0 <= y < height,
        0 <= x < width,
    ensures
        (y * width + x) / width == y,
        (y * width + x) % width == x,
        0 <= y * width + x < width * height,
        (y + 1) * width == y * width + width,
{
    vstd::arithmetic::div_mod::lemma_fundamental_div_mod_converse(y * width + x, width, y, x);
    assert(0 <= y * width && (y + 1) * width == y * width + width && (y + 1) * width <= width
        * height) by (nonlinear_arith)
        requires
            0 <= y < height,
            0 <= width,
    ;
}

/// Turns the reconstructed rows of an image into its pixels.
pub fn assemble(rows: &Vec<Vec<u8>>, params: &PngParam, palette: Option<&[u8]>) -> (pixels: Result<
    PixelBuffer,
    DecodeError,
>)
    requires
        params.wf(),
    ensures
        match pixels {
            Ok(buffer) => assemble_spec(*params, palette_view(palette), rows_view(rows@)) == Ok::<
                Seq<Pixel>,
                DecodeError,
            >(buffer@) && buffer.width == params.width && buffer.height == params.height
                && buffer.wf(),
            Err(e) => assemble_spec(*params, palette_view(palette), rows_view(rows@)) == Err::<
                Seq<Pixel>,
                DecodeError,
            >(e),
        },
{
    let ghost pal = palette_view(palette);
    let ghost rv = rows_view(rows@);
    if params.interlace {
        return Err(DecodeError::UnsupportedInterlacing);
    }
    if params.color_type == ColorType::Indexed && palette.is_none() {
        return Err(DecodeError::MissingPalette);
    }
    if rows.len() as u64 != params.height as u64 {
        return Err(DecodeError::ScanlineLengthMismatch);
    }
    let stride: u64 = params.stride();
    let width: usize = params.width as usize;
    let height: usize = params.height as usize;
    let mut y: usize = 0;
    while y < height
        invariant
            y <= height,
            height == rows@.len(),
            height == params.height,
            rv == rows_view(rows@),
            pal == palette_view(palette),
            stride == params.spec_stride(),
            !params.interlace,
            !(params.color_type == ColorType::Indexed && pal is None),
            forall|j: int| 0 <= j < y ==> (#[trigger] rv[j]).len() == stride,
        decreases height - y,
    {
        if rows[y].len() as u64 != stride {
            assert(rv[y as int].len() != params.spec_stride());
            return Err(DecodeError::ScanlineLengthMismatch);
        }
        y += 1;
    }
    let mut data: Vec<Pixel> = Vec::new();
    y = 0;
    while y < height
        invariant
            params.wf(),
            y <= height,
            height == rows@.len(),
            height == params.height,
            width == params.width,
            rv == rows_view(rows@),
            pal == palette_view(palette),
            !params.interlace,
            !(params.color_type == ColorType::Indexed && pal is None),
            forall|j: int| 0 <= j < height ==> (#[trigger] rv[j]).len() == params.spec_stride(),
            data@.len() == y * width,
            forall|k: int|
                0 <= k < data@.len() ==> #[trigger] pixel_number(*params, pal, rv, k) == Some(
                    data@[k],
                ),
        decreases height - y,
    {
        let row = rows[y].as_slice();
        assert(row@ == rv[y as int]);
        let mut x: usize = 0;
        while x < width
            invariant
                params.wf(),
                y < height,
                x <= width,
                height == params.height,
                width == params.width,
                height == rv.len(),
                rv == rows_view(rows@),
                row@ == rv[y as int],
                row@.len() == params.spec_stride(),
                !params.interlace,
                !(params.color_type == ColorType::Indexed && pal is None),
                forall|j: int|
                    0 <= j < height ==> (#[trigger] rv[j]).len() == params.spec_stride(),
                data@.len() == y * width + x,
                forall|k: int|
                    0 <= k < data@.len() ==> #[trigger] pixel_number(*params, pal, rv, k) == Some(
                        data@[k],
                    ),
                pal == palette_view(palette),
            decreases width - x,
        {
            proof {
                lemma_pixel_position(y as int, x as int, width as int, height as int);
            }
            match pixel_of(params, palette, row, x) {
                None => {
                    assert(pixel_number(*params, pal, rv, y * width + x) is None);
                    return Err(DecodeError::MissingPalette);
                },
                Some(pixel) => {
                    data.push(pixel);
                },
            }
            x += 1;
        }
        proof {
            lemma_pixel_position(y as int, 0, width as int, height as int);
        }
        y += 1;
    }
    assert(data@ =~= Seq::new(
        (params.width * params.height) as nat,
        |k: int| pixel_number(*params, pal, rv, k).unwrap(),
    )) by {
        assert(y * width == params.width * params.height) by (nonlinear_arith)
            requires
                y == params.height,
                width == params.width,
        ;
    }
    Ok(PixelBuffer { width: params.width, height: params.height, data })
}

} // verus!
