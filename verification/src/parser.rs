//! The parser: from a byte stream to an image document.

use vstd::prelude::*;
use crate::chunk::{
    chunk_at, chunk_end, classify, lemma_flipped_bit_is_detected, ChunkKind, ChunkReader,
};
use crate::crc::flip_bit;
use crate::document::{
    empty_state, finish, result_view, step, DocumentBuilder, DocumentView, ImageDocument,
    StateView,
};
use crate::error::{DecodeError, ErrorKind};
use crate::header::ColorType;
use crate::utils::be_u32_at;

verus! {

/// Whether `stream` begins with the eight signature bytes.
pub open spec fn has_signature(stream: Seq<u8>) -> bool {
    &&& stream.len() >= 8
    &&& stream[0] == 137
    &&& stream[1] == 80
    &&& stream[2] == 78
    &&& stream[3] == 71
    &&& stream[4] == 13
    &&& stream[5] == 10
    &&& stream[6] == 26
    &&& stream[7] == 10
}

/// A parser, as a mathematical value: what it has gathered, the chunks of
/// the stream, and the position of the next chunk.
pub struct ParserView {
    pub state: StateView,
    pub raw_data: Seq<u8>,
    pub index: int,
}

/// What a run of the parser comes to: the parser it leaves behind, and the
/// document or the error.
pub struct Outcome {
    pub end: ParserView,
    pub result: Result<DocumentView, DecodeError>,
}

/// The parser before its first chunk, on the chunks `chunks`.
pub open spec fn fresh(chunks: Seq<u8>) -> ParserView {
    ParserView { state: empty_state(), raw_data: chunks, index: 0 }
}

/// Runs the parser from where it stands. Chunks are read one after the
/// other and taken into the state, until one of three things happens: a
/// chunk cannot be read or cannot be taken, and the run fails with the
/// parser left before that chunk; the stream is exhausted, and the run
/// fails as truncated; the end chunk is read, and the run yields the
/// document, with the parser left after the end chunk.
pub open spec fn run(p: ParserView) -> Outcome
    decreases p.raw_data.len() - p.index,
{
    if p.index < 0 || p.index >= p.raw_data.len() {
        Outcome { end: p, result: Err(DecodeError::TruncatedStream) }
    } else {
        match chunk_at(p.raw_data, p.index) {
            Err(e) => Outcome { end: p, result: Err(e) },
            Ok(chunk) => match step(p.state, classify(chunk.type_code), chunk.body) {
                Err(e) => Outcome { end: p, result: Err(e) },
                Ok(state) => {
                    let next = ParserView {
                        state,
                        raw_data: p.raw_data,
                        index: chunk_end(p.raw_data, p.index),
                    };
                    if classify(chunk.type_code) == ChunkKind::End {
                        match finish(state) {
                            Ok(document) => Outcome { end: next, result: Ok(document) },
                            Err(e) => Outcome { end: p, result: Err(e) },
                        }
                    } else {
                        run(next)
                    }
                },
            },
        }
    }
}

/// The parser only moves forward, over a stream that stays as it is; and a
/// run that failed fails in the same way when it is made again.
pub proof fn lemma_run_moves_forward(p: ParserView)
    ensures
        run(p).end.raw_data == p.raw_data,
        run(p).end.index >= p.index,
        run(p).result is Err ==> run(run(p).end) == run(p),
    decreases p.raw_data.len() - p.index,
{
    if 0 <= p.index < p.raw_data.len() {
        match chunk_at(p.raw_data, p.index) {
            Err(_) => {},
            Ok(chunk) => match step(p.state, classify(chunk.type_code), chunk.body) {
                Err(_) => {},
                Ok(state) => {
                    if classify(chunk.type_code) != ChunkKind::End {
                        lemma_run_moves_forward(
                            ParserView {
                                state,
                                raw_data: p.raw_data,
                                index: chunk_end(p.raw_data, p.index),
                            },
                        );
                    }
                },
            },
        }
    }
}

/// What decoding the stream `stream` comes to.
pub open spec fn decode_spec(stream: Seq<u8>) -> Result<DocumentView, DecodeError> {
    if has_signature(stream) {
        run(fresh(stream.skip(8))).result
    } else {
        Err(DecodeError::InvalidSignature)
    }
}

/// A forward-only reader of one byte stream.
#[derive(Debug)]
pub struct PngParser {
    builder: DocumentBuilder,
    raw_data: Vec<u8>,
    index: usize,
}

impl View for PngParser {
    type V = ParserView;

    closed spec fn view(&self) -> ParserView {
        ParserView { state: self.builder@, raw_data: self.raw_data@, index: self.index as int }
    }
}

impl PngParser {
    /// What every parser satisfies that `new` returned, also after `parse`.
    pub closed spec fn wf(self) -> bool {
        self.builder.wf() && self.index <= self.raw_data@.len()
    }

    /// Checks the signature and sets a parser on the chunks that follow it.
    pub fn new(png_data: Vec<u8>) -> (parser: Result<PngParser, DecodeError>)
        ensures
            match parser {
                Ok(p) => has_signature(png_data@) && p.wf() && p@ == fresh(png_data@.skip(8)),
                Err(e) => !has_signature(png_data@) && e == DecodeError::InvalidSignature,
            },
    {
        let mut png_data = png_data;
        if png_data.len() < 8 || png_data[0] != 137 || png_data[1] != 80 || png_data[2] != 78
            || png_data[3] != 71 || png_data[4] != 13 || png_data[5] != 10 || png_data[6] != 26
            || png_data[7] != 10 {
            return Err(DecodeError::InvalidSignature);
        }
        let raw_data = png_data.split_off(8);
        Ok(PngParser { builder: DocumentBuilder::new(), raw_data, index: 0 })
    }

    /// Reads chunks from where the parser stands up to the end chunk, and
    /// returns the document.
    pub fn parse(&mut self) -> (document: Result<ImageDocument, DecodeError>)
        requires
            old(self).wf(),
        ensures
            final(self).wf(),
            final(self)@ == run(old(self)@).end,
            result_view(document) == run(old(self)@).result,
            document matches Ok(d) ==> d.wf(),
    {
        let mut reader = ChunkReader::resume(self.raw_data.as_slice(), self.index);
        loop
            invariant
                self.wf(),
                reader@.data == self.raw_data@,
                reader@.pos == self.index,
                !reader@.ended,
                run(self@) == run(old(self)@),
            decreases self.raw_data@.len() - self.index,
        {
            let chunk = match reader.next_chunk() {
                None => {
                    return Err(DecodeError::TruncatedStream);
                },
                Some(Err(e)) => {
                    return Err(e);
                },
                Some(Ok(chunk)) => chunk,
            };
            let kind = chunk.header.kind();
            match kind {
                ChunkKind::End => {
                    match self.builder.parse_iend_block() {
                        Ok(document) => {
                            self.index = reader.position();
                            return Ok(document);
                        },
                        Err(e) => {
                            return Err(e);
                        },
                    }
                },
                _ => {
                    match self.builder.apply(kind, chunk.body) {
                        Ok(_) => {},
                        Err(e) => {
                            return Err(e);
                        },
                    }
                    self.index = reader.position();
                },
            }
        }
    }

    /// The number of samples in a pixel of the colour type with header byte
    /// `color_type`.
    pub fn map_color_type_to_channel(color_type: u8) -> (channels: Result<usize, DecodeError>)
        ensures
            match channels {
                Ok(n) => ColorType::spec_from_code(color_type) matches Some(t) && n
                    == t.spec_channels(),
                Err(e) => ColorType::spec_from_code(color_type) is None && e
                    == DecodeError::InvalidColorDepth,
            },
    {
        match ColorType::from_code(color_type) {
            Some(t) => Ok(t.channels()),
            None => Err(DecodeError::InvalidColorDepth),
        }
    }
}

/// Decodes a whole stream: the signature, then the chunks up to the end
/// chunk.
pub fn decode(png_data: Vec<u8>) -> (document: Result<ImageDocument, DecodeError>)
    ensures
        result_view(document) == decode_spec(png_data@),
        document matches Ok(d) ==> d.wf(),
{
    match PngParser::new(png_data) {
        Err(e) => Err(e),
        Ok(parser) => {
            let mut parser = parser;
            parser.parse()
        },
    }
}

/// Decoding is deterministic: two decodes of one stream do not differ, in
/// the pixels or in anything else, whether they yield a document or fail.
pub proof fn lemma_decode_is_deterministic(
    stream: Seq<u8>,
    first: Result<ImageDocument, DecodeError>,
    second: Result<ImageDocument, DecodeError>,
)
    requires
        result_view(first) == decode_spec(stream),
        result_view(second) == decode_spec(stream),
    ensures
        result_view(first) == result_view(second),
        first matches Ok(one) ==> second matches Ok(other) && one.pixels@ == other.pixels@,
        first matches Err(e) ==> second == Err::<ImageDocument, DecodeError>(e),
{
}

/// Whether a run of the parser from where it stands reads a chunk at
/// `pos`: it gets there without a failure and without meeting the end
/// chunk.
pub open spec fn reads_chunk_at(p: ParserView, pos: int) -> bool
    decreases p.raw_data.len() - p.index,
{
    if p.index < 0 || p.index >= p.raw_data.len() {
        false
    } else if p.index == pos {
        true
    } else {
        match chunk_at(p.raw_data, p.index) {
            Err(_) => false,
            Ok(chunk) => match step(p.state, classify(chunk.type_code), chunk.body) {
                Err(_) => false,
                Ok(state) => classify(chunk.type_code) != ChunkKind::End && reads_chunk_at(
                    ParserView {
                        state,
                        raw_data: p.raw_data,
                        index: chunk_end(p.raw_data, p.index),
                    },
                    pos,
                ),
            },
        }
    }
}

/// The parser `p` on a stream in which bit `bit` of the byte at `at` is
/// flipped.
pub open spec fn damaged(p: ParserView, at: int, bit: int) -> ParserView {
    ParserView { raw_data: p.raw_data.update(at, flip_bit(p.raw_data[at], bit)), ..p }
}

proof fn lemma_reads_ahead(p: ParserView, pos: int)
    requires
        reads_chunk_at(p, pos),
    ensures
        0 <= p.index <= pos < p.raw_data.len(),
    decreases p.raw_data.len() - p.index,
{
    if p.index != pos {
        let chunk = chunk_at(p.raw_data, p.index)->Ok_0;
        let state = step(p.state, classify(chunk.type_code), chunk.body)->Ok_0;
        lemma_reads_ahead(
            ParserView { state, raw_data: p.raw_data, index: chunk_end(p.raw_data, p.index) },
            pos,
        );
    }
}

/// A flipped bit fails the run: where a run of the parser reads a chunk
/// whose checksum is right, the same run on a stream with one bit flipped
/// in the type or the body of that chunk fails with a checksum error.
pub proof fn lemma_flipped_bit_fails_run(p: ParserView, pos: int, at: int, bit: int)
    requires
        reads_chunk_at(p, pos),
        chunk_at(p.raw_data, pos) is Ok,
        pos + 4 <= at < pos + 8 + be_u32_at(p.raw_data, pos),
        0 <= bit < 8,
    ensures
        run(damaged(p, at, bit)).result is Err,
        run(damaged(p, at, bit)).result->Err_0 is CrcMismatch,
        run(damaged(p, at, bit)).result->Err_0.spec_kind() == ErrorKind::Integrity,
    decreases p.raw_data.len() - p.index,
{
    let data = p.raw_data;
    let bad = damaged(p, at, bit).raw_data;
    lemma_reads_ahead(p, pos);
    if p.index == pos {
        lemma_flipped_bit_is_detected(data, pos, at, bit);
    } else {
        // The chunk at hand ends before `pos`, so the damage leaves it as it
        // was: it is read and taken as before, and the run goes on.
        let chunk = chunk_at(data, p.index)->Ok_0;
        let state = step(p.state, classify(chunk.type_code), chunk.body)->Ok_0;
        let end = chunk_end(data, p.index);
        let next = ParserView { state, raw_data: data, index: end };
        lemma_reads_ahead(next, pos);
        assert(be_u32_at(bad, p.index) == be_u32_at(data, p.index));
        let length = be_u32_at(data, p.index);
        assert(be_u32_at(bad, p.index + 8 + length) == be_u32_at(data, p.index + 8 + length));
        assert(bad.subrange(p.index + 4, p.index + 8 + length) =~= data.subrange(
            p.index + 4,
            p.index + 8 + length,
        ));
        assert(bad.subrange(p.index + 4, p.index + 8) =~= data.subrange(
            p.index + 4,
            p.index + 8,
        ));
        assert(bad.subrange(p.index + 8, p.index + 8 + length) =~= data.subrange(
            p.index + 8,
            p.index + 8 + length,
        ));
        assert(chunk_at(bad, p.index) == chunk_at(data, p.index));
        lemma_flipped_bit_fails_run(next, pos, at, bit);
        assert(damaged(next, at, bit) == ParserView {
            state,
            raw_data: bad,
            index: chunk_end(bad, p.index),
        });
    }
}

/// A flipped bit fails the decode: where decoding a stream reads a chunk
/// whose checksum is right, at `pos` bytes after the signature, decoding
/// the stream with one bit flipped in the type or the body of that chunk
/// fails with a checksum error.
pub proof fn lemma_flipped_bit_fails_decode(stream: Seq<u8>, pos: int, at: int, bit: int)
    requires
        has_signature(stream),
        reads_chunk_at(fresh(stream.skip(8)), pos),
        chunk_at(stream.skip(8), pos) is Ok,
        pos + 4 <= at < pos + 8 + be_u32_at(stream.skip(8), pos),
        0 <= bit < 8,
    ensures
        decode_spec(stream.update(8 + at, flip_bit(stream[8 + at], bit))) is Err,
        decode_spec(stream.update(8 + at, flip_bit(stream[8 + at], bit)))->Err_0 is CrcMismatch,
        decode_spec(stream.update(8 + at, flip_bit(stream[8 + at], bit)))->Err_0.spec_kind()
            == ErrorKind::Integrity,
{
    let p = fresh(stream.skip(8));
    let bad = stream.update(8 + at, flip_bit(stream[8 + at], bit));
    lemma_reads_ahead(p, pos);
    lemma_flipped_bit_fails_run(p, pos, at, bit);
    assert(bad.skip(8) =~= damaged(p, at, bit).raw_data);
    assert(damaged(p, at, bit) == fresh(bad.skip(8)));
    assert(has_signature(bad));
}

} // verus!
