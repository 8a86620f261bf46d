//! The image document: what a decode hands to its caller, and how it is
//! built up chunk by chunk.

use vstd::prelude::*;
use vstd::slice::slice_to_vec;
use crate::assemble::{assemble, assemble_spec, palette_view, PixelBuffer};
use crate::chunk::ChunkKind;
use crate::error::DecodeError;
use crate::header::{ColorType, PhysParam, PngParam};
use crate::inflate::{inflate, zlib_inflate};
use crate::pixel::Pixel;
use crate::scanline::{reconstruct_image, reconstruct_spec};

verus! {

/// The bytes of a byte vector that may be absent.
pub open spec fn bytes_view(bytes: Option<Vec<u8>>) -> Option<Seq<u8>> {
    match bytes {
        Some(v) => Some(v@),
        None => None,
    }
}

/// A decoded image, as a mathematical value.
pub struct DocumentView {
    pub header: PngParam,
    pub phys: Option<PhysParam>,
    pub profile: Option<Seq<u8>>,
    pub pixels: Seq<Pixel>,
}

/// A decoded image: its header, the physical pixel dimensions and the raw
/// body of the colour-profile chunk where the stream had them, and its
/// pixels.
#[derive(Debug)]
pub struct ImageDocument {
    pub header: PngParam,
    pub phys: Option<PhysParam>,
    pub profile: Option<Vec<u8>>,
    pub pixels: PixelBuffer,
}

impl View for ImageDocument {
    type V = DocumentView;

    open spec fn view(&self) -> DocumentView {
        DocumentView {
            header: self.header,
            phys: self.phys,
            profile: bytes_view(self.profile),
            pixels: self.pixels@,
        }
    }
}

impl ImageDocument {
    /// What every document that a decode returns satisfies.
    pub open spec fn wf(self) -> bool {
        &&& self.header.wf()
        &&& self.pixels.width == self.header.width
        &&& self.pixels.height == self.header.height
        &&& self.pixels.wf()
    }
}

/// The outcome of a decode, as a mathematical value.
pub open spec fn result_view(result: Result<ImageDocument, DecodeError>) -> Result<
    DocumentView,
    DecodeError,
> {
    match result {
        Ok(document) => Ok(document@),
        Err(e) => Err(e),
    }
}

/// The pixels of an image with header `params` and palette `palette`, given
/// what decompressing its image data yielded. The checks are made in the
/// order in which they stand here.
pub open spec fn decode_image_spec(
    params: PngParam,
    palette: Option<Seq<u8>>,
    inflated: Option<Seq<u8>>,
) -> Result<Seq<Pixel>, DecodeError> {
    if params.interlace {
        Err(DecodeError::UnsupportedInterlacing)
    } else if params.color_type == ColorType::Indexed && palette is None {
        Err(DecodeError::MissingPalette)
    } else {
        match inflated {
            None => Err(DecodeError::CompressedStreamCorrupt),
            Some(raw) => match reconstruct_spec(params, raw) {
                Err(e) => Err(e),
                Ok(rows) => assemble_spec(params, palette, rows),
            },
        }
    }
}

/// Turns what the decompressor returned for the image data into pixels:
/// reconstructs the scanlines and assembles them.
pub fn decode_image_data(
    params: &PngParam,
    palette: Option<&[u8]>,
    inflated: Option<Vec<u8>>,
) -> (pixels: Result<PixelBuffer, DecodeError>)
    requires
        params.wf(),
    ensures
        match pixels {
            Ok(buffer) => decode_image_spec(*params, palette_view(palette), bytes_view(inflated))
                == Ok::<Seq<Pixel>, DecodeError>(buffer@) && buffer.width == params.width
                && buffer.height == params.height && buffer.wf(),
            Err(e) => decode_image_spec(*params, palette_view(palette), bytes_view(inflated))
                == Err::<Seq<Pixel>, DecodeError>(e),
        },
{
    if params.interlace {
        return Err(DecodeError::UnsupportedInterlacing);
    }
    if params.color_type == ColorType::Indexed && palette.is_none() {
        return Err(DecodeError::MissingPalette);
    }
    match inflated {
        None => Err(DecodeError::CompressedStreamCorrupt),
        Some(raw) => match reconstruct_image(raw.as_slice(), params) {
            Err(e) => Err(e),
            Ok(rows) => assemble(&rows, params, palette),
        },
    }
}

/// What has been gathered from the chunks read so far.
pub struct StateView {
    /// The header, once it was read.
    pub params: Option<PngParam>,
    pub phys: Option<PhysParam>,
    /// The body of the colour-profile chunk.
    pub profile: Option<Seq<u8>>,
    /// The body of the palette chunk.
    pub palette: Option<Seq<u8>>,
    /// The bodies of the image data chunks, one after the other.
    pub idat: Seq<u8>,
    /// Whether an image data chunk was read.
    pub seen_idat: bool,
}

/// The state before any chunk was read.
pub open spec fn empty_state() -> StateView {
    StateView {
        params: None,
        phys: None,
        profile: None,
        palette: None,
        idat: Seq::empty(),
        seen_idat: false,
    }
}

/// The state after one more chunk, or the reason why the chunk cannot be
/// taken. The header comes first and only once; a palette comes before the
/// image data; an indexed-colour image has its palette before its image
/// data; image data chunks are strung together; the physical dimensions
/// and the colour profile are kept as they are; a chunk of unknown type is
/// skipped if it is ancillary and refused if it is critical.
pub open spec fn step(s: StateView, kind: ChunkKind, body: Seq<u8>) -> Result<
    StateView,
    DecodeError,
> {
    match kind {
        ChunkKind::Header => if s.params is Some {
            Err(DecodeError::HeaderOutOfOrder)
        } else {
            match PngParam::parse_spec(body) {
                Ok(p) => Ok(StateView { params: Some(p), ..s }),
                Err(e) => Err(e),
            }
        },
        _ => if s.params is None {
            Err(DecodeError::HeaderOutOfOrder)
        } else {
            match kind {
                ChunkKind::Palette => if s.seen_idat {
                    Err(DecodeError::PaletteOutOfOrder)
                } else {
                    Ok(StateView { palette: Some(body), ..s })
                },
                ChunkKind::Data => if s.params->Some_0.color_type == ColorType::Indexed
                    && s.palette is None {
                    Err(DecodeError::MissingPalette)
                } else {
                    Ok(StateView { idat: s.idat + body, seen_idat: true, ..s })
                },
                ChunkKind::Phys => match PhysParam::parse_spec(body) {
                    Ok(phys) => Ok(StateView { phys: Some(phys), ..s }),
                    Err(e) => Err(e),
                },
                ChunkKind::Profile => Ok(StateView { profile: Some(body), ..s }),
                ChunkKind::Critical => Err(DecodeError::UnsupportedCriticalChunk),
                _ => Ok(s),
            }
        },
    }
}

/// Where image data chunks are cut makes no difference: two of them, one
/// after the other, leave the state that one chunk with both bodies leaves,
/// and fail where it fails.
pub proof fn lemma_data_chunks_concatenate(s: StateView, first: Seq<u8>, second: Seq<u8>)
    ensures
        match step(s, ChunkKind::Data, first) {
            Ok(between) => step(between, ChunkKind::Data, second) == step(
                s,
                ChunkKind::Data,
                first + second,
            ),
            Err(e) => step(s, ChunkKind::Data, first + second) == Err::<StateView, DecodeError>(e),
        },
{
    assert((s.idat + first) + second =~= s.idat + (first + second));
}

/// A chunk of unknown type that is ancillary leaves the state as it is.
pub proof fn lemma_ancillary_chunk_is_skipped(s: StateView, body: Seq<u8>)
    requires
        s.params is Some,
    ensures
        step(s, ChunkKind::Ancillary, body) == Ok::<StateView, DecodeError>(s),
{
}

/// The document that the state amounts to when the stream ends: the image
/// data gathered so far is decompressed and turned into pixels.
pub open spec fn finish(s: StateView) -> Result<DocumentView, DecodeError> {
    match s.params {
        None => Err(DecodeError::HeaderOutOfOrder),
        Some(params) => match decode_image_spec(params, s.palette, zlib_inflate(s.idat)) {
            Ok(pixels) => Ok(
                DocumentView { header: params, phys: s.phys, profile: s.profile, pixels },
            ),
            Err(e) => Err(e),
        },
    }
}

/// A document in the making.
#[derive(Debug)]
pub struct DocumentBuilder {
    params: Option<PngParam>,
    phys: Option<PhysParam>,
    profile: Option<Vec<u8>>,
    palette: Option<Vec<u8>>,
    idat: Vec<u8>,
    seen_idat: bool,
}

impl View for DocumentBuilder {
    type V = StateView;

    closed spec fn view(&self) -> StateView {
        StateView {
            params: self.params,
            phys: self.phys,
            profile: bytes_view(self.profile),
            palette: bytes_view(self.palette),
            idat: self.idat@,
            seen_idat: self.seen_idat,
        }
    }
}

impl DocumentBuilder {
    /// Whether the header, if there is one, is a valid one.
    pub open spec fn wf(self) -> bool {
        self@.params matches Some(p) ==> p.wf()
    }

    /// A builder that has seen no chunk.
    pub fn new() -> (builder: DocumentBuilder)
        ensures
            builder@ == empty_state(),
            builder.wf(),
    {
        DocumentBuilder {
            params: None,
            phys: None,
            profile: None,
            palette: None,
            idat: Vec::new(),
            seen_idat: false,
        }
    }

    /// Takes the body of a header chunk.
    fn parse_ihdr_block(&mut self, body: &[u8]) -> (taken: Result<(), DecodeError>)
        requires
            old(self).wf(),
        ensures
            final(self).wf(),
            match taken {
                Ok(_) => step(old(self)@, ChunkKind::Header, body@) == Ok::<
                    StateView,
                    DecodeError,
                >(final(self)@),
                Err(e) => step(old(self)@, ChunkKind::Header, body@) == Err::<
                    StateView,
                    DecodeError,
                >(e) && final(self)@ == old(self)@,
            },
    {
        if self.params.is_some() {
            return Err(DecodeError::HeaderOutOfOrder);
        }
        match PngParam::new(body) {
            Ok(params) => {
                self.params = Some(params);
                Ok(())
            },
            Err(e) => Err(e),
        }
    }

    /// Takes the body of a physical-dimensions chunk.
    fn parse_phys_block(&mut self, body: &[u8]) -> (taken: Result<(), DecodeError>)
        requires
            old(self).wf(),
            old(self)@.params is Some,
        ensures
            final(self).wf(),
            match taken {
                Ok(_) => step(old(self)@, ChunkKind::Phys, body@) == Ok::<StateView, DecodeError>(
                    final(self)@,
                ),
                Err(e) => step(old(self)@, ChunkKind::Phys, body@) == Err::<
                    StateView,
                    DecodeError,
                >(e) && final(self)@ == old(self)@,
            },
    {
        match PhysParam::new(body) {
            Ok(phys) => {
                self.phys = Some(phys);
                Ok(())
            },
            Err(e) => Err(e),
        }
    }

    /// Takes the body of an image data chunk: it is added to the compressed
    /// data gathered so far.
    fn parse_idat_block(&mut self, body: &[u8]) -> (taken: Result<(), DecodeError>)
        requires
            old(self).wf(),
            old(self)@.params is Some,
        ensures
            final(self).wf(),
            match taken {
                Ok(_) => step(old(self)@, ChunkKind::Data, body@) == Ok::<StateView, DecodeError>(
                    final(self)@,
                ),
                Err(e) => step(old(self)@, ChunkKind::Data, body@) == Err::<
                    StateView,
                    DecodeError,
                >(e) && final(self)@ == old(self)@,
            },
    {
        let indexed = match self.params {
            Some(params) => params.color_type == ColorType::Indexed,
            None => false,
        };
        if indexed && self.palette.is_none() {
            return Err(DecodeError::MissingPalette);
        }
        let ghost before = self.idat@;
        self.idat.extend_from_slice(body);
        assert(self.idat@ =~= before + body@);
        self.seen_idat = true;
        Ok(())
    }

    /// Takes a chunk that does not end the stream.
    pub fn apply(&mut self, kind: ChunkKind, body: &[u8]) -> (taken: Result<(), DecodeError>)
        requires
            old(self).wf(),
        ensures
            final(self).wf(),
            match taken {
                Ok(_) => step(old(self)@, kind, body@) == Ok::<StateView, DecodeError>(
                    final(self)@,
                ),
                Err(e) => step(old(self)@, kind, body@) == Err::<StateView, DecodeError>(e)
                    && final(self)@ == old(self)@,
            },
    {
        match kind {
            ChunkKind::Header => self.parse_ihdr_block(body),
            _ => {
                if self.params.is_none() {
                    return Err(DecodeError::HeaderOutOfOrder);
                }
                match kind {
                    ChunkKind::Palette => {
                        if self.seen_idat {
                            return Err(DecodeError::PaletteOutOfOrder);
                        }
                        self.palette = Some(slice_to_vec(body));
                        Ok(())
                    },
                    ChunkKind::Data => self.parse_idat_block(body),
                    ChunkKind::Phys => self.parse_phys_block(body),
                    ChunkKind::Profile => {
                        self.profile = Some(slice_to_vec(body));
                        Ok(())
                    },
                    ChunkKind::Critical => Err(DecodeError::UnsupportedCriticalChunk),
                    _ => Ok(()),
                }
            },
        }
    }

    /// Ends the stream: decompresses the image data gathered so far and
    /// turns it into the document.
    pub fn parse_iend_block(&self) -> (document: Result<ImageDocument, DecodeError>)
        requires
            self.wf(),
        ensures
            result_view(document) == finish(self@),
            document matches Ok(d) ==> d.wf(),
    {
        let params = match self.params {
            Some(params) => params,
            None => {
                return Err(DecodeError::HeaderOutOfOrder);
            },
        };
        let palette: Option<&[u8]> = match &self.palette {
            Some(entries) => Some(entries.as_slice()),
            None => None,
        };
        let inflated = inflate(self.idat.as_slice());
        match decode_image_data(&params, palette, inflated) {
            Err(e) => Err(e),
            Ok(pixels) => {
                let profile = match &self.profile {
                    Some(bytes) => Some(slice_to_vec(bytes.as_slice())),
                    None => None,
                };
                Ok(ImageDocument { header: params, phys: self.phys, profile, pixels })
            },
        }
    }
}

} // verus!
