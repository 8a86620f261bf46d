//! The chunk reader: a stream is, after its signature, a sequence of
//! chunks, each made of a length, a type, a body and a checksum.

use vstd::prelude::*;
use vstd::slice::slice_subrange;
use crate::crc::{checksum, crc32, flip_bit, lemma_crc32_detects_byte, lemma_flip_bit_changes};
use crate::error::{DecodeError, ErrorKind};
use crate::utils::{be_bytes_to_u32, be_u32_at};

verus! {

/// What a chunk is to the decoder.
#[derive(Debug, Clone, Copy, PartialEq, Eq, Structural)]
pub enum ChunkKind {
    /// `IHDR`: the image header.
    Header,
    /// `PLTE`: the palette.
    Palette,
    /// `IDAT`: a piece of the compressed image data.
    Data,
    /// `IEND`: the end of the stream.
    End,
    /// `pHYs`: the physical pixel dimensions.
    Phys,
    /// `iCCP`: the embedded colour profile.
    Profile,
    /// A type that the decoder does not know and may skip.
    Ancillary,
    /// A type that the decoder does not know and must not skip.
    Critical,
}

/// Whether `type_code` is the four bytes `c0 c1 c2 c3`.
pub open spec fn is_code(type_code: Seq<u8>, c0: u8, c1: u8, c2: u8, c3: u8) -> bool {
    type_code.len() == 4 && type_code[0] == c0 && type_code[1] == c1 && type_code[2] == c2
        && type_code[3] == c3
}

/// The kind of a chunk with the given type. Of a type that the decoder
/// does not know, bit 5 of the first byte says whether it may be skipped.
pub open spec fn classify(type_code: Seq<u8>) -> ChunkKind {
    if is_code(type_code, 73, 72, 68, 82) {
        ChunkKind::Header
    } else if is_code(type_code, 80, 76, 84, 69) {
        ChunkKind::Palette
    } else if is_code(type_code, 73, 68, 65, 84) {
        ChunkKind::Data
    } else if is_code(type_code, 73, 69, 78, 68) {
        ChunkKind::End
    } else if is_code(type_code, 112, 72, 89, 115) {
        ChunkKind::Phys
    } else if is_code(type_code, 105, 67, 67, 80) {
        ChunkKind::Profile
    } else if (type_code[0] as int / 32) % 2 == 1 {
        ChunkKind::Ancillary
    } else {
        ChunkKind::Critical
    }
}

/// The length and the type of a chunk.
#[derive(Debug, Clone, Copy)]
pub struct ChunkHeader {
    /// The number of bytes in the body.
    pub length: u32,
    pub type_code: [u8; 4],
}

impl ChunkHeader {
    pub fn kind(&self) -> (kind: ChunkKind)
        ensures
            kind == classify(self.type_code@),
    {
        let t = &self.type_code;
        if t[0] == 73 && t[1] == 72 && t[2] == 68 && t[3] == 82 {
            ChunkKind::Header
        } else if t[0] == 80 && t[1] == 76 && t[2] == 84 && t[3] == 69 {
            ChunkKind::Palette
        } else if t[0] == 73 && t[1] == 68 && t[2] == 65 && t[3] == 84 {
            ChunkKind::Data
        } else if t[0] == 73 && t[1] == 69 && t[2] == 78 && t[3] == 68 {
            ChunkKind::End
        } else if t[0] == 112 && t[1] == 72 && t[2] == 89 && t[3] == 115 {
            ChunkKind::Phys
        } else if t[0] == 105 && t[1] == 67 && t[2] == 67 && t[3] == 80 {
            ChunkKind::Profile
        } else if (t[0] / 32) % 2 == 1 {
            ChunkKind::Ancillary
        } else {
            ChunkKind::Critical
        }
    }
}

/// A chunk: its type and its body.
pub struct ChunkView {
    pub type_code: Seq<u8>,
    pub body: Seq<u8>,
}

/// A chunk whose checksum was found right; the body is borrowed from the
/// stream.
#[derive(Debug, Clone, Copy)]
pub struct Chunk<'a> {
    pub header: ChunkHeader,
    pub body: &'a [u8],
    /// The checksum that follows the body.
    pub crc: u32,
}

impl<'a> View for Chunk<'a> {
    type V = ChunkView;

    open spec fn view(&self) -> ChunkView {
        ChunkView { type_code: self.header.type_code@, body: self.body@ }
    }
}

/// The bytes that the checksum of the chunk at `pos` covers: its type and
/// its body.
pub open spec fn checked_bytes(data: Seq<u8>, pos: int) -> Seq<u8> {
    data.subrange(pos + 4, pos + 8 + be_u32_at(data, pos))
}

/// The position just after the chunk at `pos`.
pub open spec fn chunk_end(data: Seq<u8>, pos: int) -> int {
    pos + 12 + be_u32_at(data, pos)
}

/// The chunk that begins at `pos`, or the reason why there is none: the
/// stream ends before the chunk does, or the checksum stored after the body
/// is not that of the type and the body.
pub open spec fn chunk_at(data: Seq<u8>, pos: int) -> Result<ChunkView, DecodeError> {
    if pos + 8 > data.len() || chunk_end(data, pos) > data.len() {
        Err(DecodeError::TruncatedStream)
    } else {
        let length = be_u32_at(data, pos);
        let expected = be_u32_at(data, pos + 8 + length) as u32;
        let computed = crc32(checked_bytes(data, pos));
        if expected != computed {
            Err(DecodeError::CrcMismatch { expected, computed })
        } else {
            Ok(
                ChunkView {
                    type_code: data.subrange(pos + 4, pos + 8),
                    body: data.subrange(pos + 8, pos + 8 + length),
                },
            )
        }
    }
}

/// Reads the chunk that begins at `pos` and checks its checksum.
pub fn read_chunk<'a>(data: &'a [u8], pos: usize) -> (chunk: Result<Chunk<'a>, DecodeError>)
    ensures
        match chunk {
            Ok(c) => chunk_at(data@, pos as int) == Ok::<ChunkView, DecodeError>(c@)
                && c.header.length == c.body@.len() && chunk_end(data@, pos as int) == pos + 12
                + c.body@.len() && chunk_end(data@, pos as int) <= data@.len() && c.crc == crc32(
                checked_bytes(data@, pos as int),
            ),
            Err(e) => chunk_at(data@, pos as int) == Err::<ChunkView, DecodeError>(e),
        },
{
    let size = data.len();
    if size < pos || size - pos < 8 {
        return Err(DecodeError::TruncatedStream);
    }
    let length = be_bytes_to_u32(data[pos], data[pos + 1], data[pos + 2], data[pos + 3]);
    if ((size - pos - 8) as u64) < length as u64 + 4 {
        return Err(DecodeError::TruncatedStream);
    }
    let body_start: usize = pos + 8;
    let body_end: usize = body_start + length as usize;
    let expected = be_bytes_to_u32(
        data[body_end],
        data[body_end + 1],
        data[body_end + 2],
        data[body_end + 3],
    );
    let computed = checksum(slice_subrange(data, pos + 4, body_end));
    if expected != computed {
        return Err(DecodeError::CrcMismatch { expected, computed });
    }
    let type_code: [u8; 4] = [data[pos + 4], data[pos + 5], data[pos + 6], data[pos + 7]];
    assert(type_code@ =~= data@.subrange(pos + 4, pos + 8));
    Ok(
        Chunk {
            header: ChunkHeader { length, type_code },
            body: slice_subrange(data, body_start, body_end),
            crc: expected,
        },
    )
}

/// A reader of chunks, as a mathematical value: the stream, the position of
/// the next chunk, and whether the sequence of chunks is over.
pub struct ReaderView {
    pub data: Seq<u8>,
    pub pos: int,
    pub ended: bool,
}

/// What the reader yields next: nothing, once the sequence is over or the
/// stream is exhausted; else the chunk at its position, or the reason why
/// there is none.
pub open spec fn next_item(r: ReaderView) -> Option<Result<ChunkView, DecodeError>> {
    if r.ended || r.pos < 0 || r.pos >= r.data.len() {
        None
    } else {
        Some(chunk_at(r.data, r.pos))
    }
}

/// The reader after it has yielded its next item: it stands after the
/// chunk that it yielded, and the sequence is over once it has yielded the
/// end chunk or a failure.
pub open spec fn advance(r: ReaderView) -> ReaderView {
    match next_item(r) {
        None => r,
        Some(Err(_)) => ReaderView { ended: true, ..r },
        Some(Ok(chunk)) => ReaderView {
            pos: chunk_end(r.data, r.pos),
            ended: classify(chunk.type_code) == ChunkKind::End,
            ..r
        },
    }
}

/// How many bytes the reader may still read.
pub open spec fn reach(r: ReaderView) -> int {
    if r.ended || r.pos < 0 || r.pos >= r.data.len() {
        0
    } else {
        r.data.len() - r.pos
    }
}

/// All that the reader yields, in order.
pub open spec fn items(r: ReaderView) -> Seq<Result<ChunkView, DecodeError>>
    decreases reach(r),
{
    match next_item(r) {
        None => Seq::empty(),
        Some(item) => seq![item] + items(advance(r)),
    }
}

/// The sequence of chunks ends with the first end chunk and with the first
/// failure: whatever the reader yields before its last item is a chunk
/// that is no end chunk.
pub proof fn lemma_items_end_once(r: ReaderView, i: int)
    requires
        0 <= i < items(r).len() - 1,
    ensures
        items(r)[i] is Ok,
        classify(items(r)[i]->Ok_0.type_code) != ChunkKind::End,
    decreases reach(r),
{
    let rest = items(advance(r));
    assert(items(r) =~= seq![next_item(r)->Some_0] + rest);
    if i == 0 {
        if advance(r).ended {
            assert(rest =~= Seq::empty());
        }
    } else {
        lemma_items_end_once(advance(r), i - 1);
    }
}

/// A forward-only cursor over the chunks of a stream.
#[derive(Debug)]
pub struct ChunkReader<'a> {
    data: &'a [u8],
    pos: usize,
    ended: bool,
}

impl<'a> View for ChunkReader<'a> {
    type V = ReaderView;

    closed spec fn view(&self) -> ReaderView {
        ReaderView { data: self.data@, pos: self.pos as int, ended: self.ended }
    }
}

/// What a reader yielded, as a mathematical value.
pub open spec fn item_view(item: Option<Result<Chunk<'_>, DecodeError>>) -> Option<
    Result<ChunkView, DecodeError>,
> {
    match item {
        None => None,
        Some(Err(e)) => Some(Err(e)),
        Some(Ok(chunk)) => Some(Ok(chunk@)),
    }
}

impl<'a> ChunkReader<'a> {
    /// A reader at the first chunk of `data`, which is a stream without its
    /// signature.
    pub fn new(data: &'a [u8]) -> (reader: ChunkReader<'a>)
        ensures
            reader@ == (ReaderView { data: data@, pos: 0, ended: false }),
    {
        ChunkReader { data, pos: 0, ended: false }
    }

    /// A reader at the chunk that begins at `pos`.
    pub fn resume(data: &'a [u8], pos: usize) -> (reader: ChunkReader<'a>)
        ensures
            reader@ == (ReaderView { data: data@, pos: pos as int, ended: false }),
    {
        ChunkReader { data, pos, ended: false }
    }

    /// Where the next chunk begins.
    pub fn position(&self) -> (pos: usize)
        ensures
            pos == self@.pos,
    {
        self.pos
    }

    /// Yields the next chunk and moves on.
    pub fn next_chunk(&mut self) -> (item: Option<Result<Chunk<'a>, DecodeError>>)
        ensures
            item_view(item) == next_item(old(self)@),
            final(self)@ == advance(old(self)@),
            item matches Some(Ok(chunk)) ==> chunk.header.length == chunk.body@.len()
                && final(self)@.pos == old(self)@.pos + 12 + chunk.body@.len() && final(self)@.pos
                <= old(self)@.data.len(),
    {
        if self.ended || self.pos >= self.data.len() {
            return None;
        }
        match read_chunk(self.data, self.pos) {
            Err(e) => {
                self.ended = true;
                Some(Err(e))
            },
            Ok(chunk) => {
                self.pos = self.pos + 12 + chunk.body.len();
                self.ended = match chunk.header.kind() {
                    ChunkKind::End => true,
                    _ => false,
                };
                Some(Ok(chunk))
            },
        }
    }
}

/// A flipped bit in the type or the body of a chunk is found out: where a
/// chunk is read without error, the same stream with one bit flipped in any
/// byte of that chunk's type or body gives a checksum error at that chunk.
pub proof fn lemma_flipped_bit_is_detected(data: Seq<u8>, pos: int, at: int, bit: int)
    requires
        0 <= pos,
        chunk_at(data, pos) is Ok,
        pos + 4 <= at < pos + 8 + be_u32_at(data, pos),
        0 <= bit < 8,
    ensures
        chunk_at(data.update(at, flip_bit(data[at], bit)), pos) is Err,
        chunk_at(data.update(at, flip_bit(data[at], bit)), pos)->Err_0 is CrcMismatch,
        chunk_at(data.update(at, flip_bit(data[at], bit)), pos)->Err_0.spec_kind()
            == ErrorKind::Integrity,
{
    lemma_flip_bit_changes(data[at], bit);
    lemma_byte_change_is_detected(data, pos, at, flip_bit(data[at], bit));
}

/// A changed byte in the type or the body of a chunk is found out, whatever
/// it is changed to.
pub proof fn lemma_byte_change_is_detected(data: Seq<u8>, pos: int, at: int, value: u8)
    requires
        0 <= pos,
        chunk_at(data, pos) is Ok,
        pos + 4 <= at < pos + 8 + be_u32_at(data, pos),
        value != data[at],
    ensures
        chunk_at(data.update(at, value), pos) is Err,
        chunk_at(data.update(at, value), pos)->Err_0 is CrcMismatch,
{
    let damaged = data.update(at, value);
    let length = be_u32_at(data, pos);
    assert(be_u32_at(damaged, pos) == length);
    assert(be_u32_at(damaged, pos + 8 + length) == be_u32_at(data, pos + 8 + length));
    lemma_crc32_detects_byte(checked_bytes(data, pos), checked_bytes(damaged, pos), at - (pos + 4));
}

} // verus!
