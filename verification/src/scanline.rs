//! Scanline reconstruction: undoing the five PNG filters, byte by byte.
//!
//! A filter stores each byte of a row as its difference, modulo 256, from a
//! prediction made from bytes that the decoder already knows: the byte one
//! pixel to the left (`a`), the byte above (`b`), and the byte above and one
//! pixel to the left (`c`). Where a row has no such neighbour, the neighbour
//! counts as zero. Reconstruction adds the prediction back.

use vstd::prelude::*;
use vstd::slice::slice_to_vec;
use crate::error::DecodeError;
use crate::header::PngParam;
use crate::pixel::Pixel;

verus! {

/// The absolute value of an integer.
pub open spec fn abs(x: int) -> int {
    if x < 0 {
        -x
    } else {
        x
    }
}

/// The Paeth predictor: of `a`, `b` and `c`, the one nearest to
/// `a + b - c`; on a tie `a` goes before `b`, and `b` before `c`.
pub open spec fn paeth(a: int, b: int, c: int) -> int {
    let p = a + b - c;
    let pa = abs(p - a);
    let pb = abs(p - b);
    let pc = abs(p - c);
    if pa <= pb && pa <= pc {
        a
    } else if pb <= pc {
        b
    } else {
        c
    }
}

/// What filter `filter` predicts for a byte with the neighbours `a` (left),
/// `b` (above) and `c` (above left).
pub open spec fn predictor(filter: u8, a: u8, b: u8, c: u8) -> int {
    if filter == 1 {
        a as int
    } else if filter == 2 {
        b as int
    } else if filter == 3 {
        (a + b) / 2
    } else if filter == 4 {
        paeth(a as int, b as int, c as int)
    } else {
        0
    }
}

/// The byte that filter `filter` stored as `x`.
pub open spec fn recon_byte(filter: u8, x: u8, a: u8, b: u8, c: u8) -> u8 {
    ((x + predictor(filter, a, b, c)) % 256) as u8
}

/// What filter `filter` stores for the byte `x`.
pub open spec fn filter_byte(filter: u8, x: u8, a: u8, b: u8, c: u8) -> u8 {
    ((x - predictor(filter, a, b, c)) % 256) as u8
}

/// The byte of `row` one pixel to the left of position `i`, or zero.
pub open spec fn left(row: Seq<u8>, bpp: nat, i: int) -> u8 {
    if bpp <= i < row.len() + bpp {
        row[i - bpp]
    } else {
        0
    }
}

/// The byte of the row above at position `i`, or zero. A first row has the
/// empty sequence above it.
pub open spec fn above(prev: Seq<u8>, i: int) -> u8 {
    if 0 <= i < prev.len() {
        prev[i]
    } else {
        0
    }
}

/// The reconstruction of a filtered row `raw`, given the reconstructed row
/// `prev` above it: byte `i` is `raw[i]` plus the prediction from the
/// reconstructed bytes to its left and above.
pub open spec fn recon_row(filter: u8, bpp: nat, prev: Seq<u8>, raw: Seq<u8>) -> Seq<u8>
    decreases raw.len(),
{
    if raw.len() == 0 {
        Seq::empty()
    } else {
        let i = raw.len() - 1;
        let head = recon_row(filter, bpp, prev, raw.drop_last());
        head.push(
            recon_byte(filter, raw[i], left(head, bpp, i), above(prev, i), above(prev, i - bpp)),
        )
    }
}

/// The filtered form of a row `row`, given the row `prev` above it: what an
/// encoder that applies filter `filter` writes.
pub open spec fn filter_row(filter: u8, bpp: nat, prev: Seq<u8>, row: Seq<u8>) -> Seq<u8> {
    Seq::new(
        row.len(),
        |i: int| filter_byte(filter, row[i], left(row, bpp, i), above(prev, i), above(prev, i - bpp)),
    )
}

/// A reconstructed row is as long as the filtered row.
pub proof fn lemma_recon_row_len(filter: u8, bpp: nat, prev: Seq<u8>, raw: Seq<u8>)
    ensures
        recon_row(filter, bpp, prev, raw).len() == raw.len(),
    decreases raw.len(),
{
    if raw.len() > 0 {
        lemma_recon_row_len(filter, bpp, prev, raw.drop_last());
    }
}

/// The reconstruction of the first `n` bytes of a row is the first `n`
/// bytes of its reconstruction.
pub proof fn lemma_recon_row_prefix(filter: u8, bpp: nat, prev: Seq<u8>, raw: Seq<u8>, n: int)
    requires
        0 <= n <= raw.len(),
    ensures
        recon_row(filter, bpp, prev, raw.take(n)) == recon_row(filter, bpp, prev, raw).take(n),
    decreases raw.len(),
{
    lemma_recon_row_len(filter, bpp, prev, raw);
    if n == raw.len() {
        assert(raw.take(n) =~= raw);
        assert(recon_row(filter, bpp, prev, raw).take(n) =~= recon_row(filter, bpp, prev, raw));
    } else {
        lemma_recon_row_prefix(filter, bpp, prev, raw.drop_last(), n);
        lemma_recon_row_len(filter, bpp, prev, raw.drop_last());
        assert(raw.drop_last().take(n) =~= raw.take(n));
        assert(recon_row(filter, bpp, prev, raw).take(n) =~= recon_row(
            filter,
            bpp,
            prev,
            raw.drop_last(),
        ).take(n));
    }
}

/// Whether byte `i` of `row` is the stored byte `raw[i]` plus the
/// prediction from `row` itself and the row `prev` above.
pub open spec fn is_recon_at(
    filter: u8,
    bpp: nat,
    prev: Seq<u8>,
    raw: Seq<u8>,
    row: Seq<u8>,
    i: int,
) -> bool {
    row[i] == recon_byte(
        filter,
        raw[i],
        left(row, bpp, i),
        above(prev, i),
        above(prev, i - bpp),
    )
}

/// Every byte of a reconstructed row is the stored byte plus the prediction
/// from the reconstructed row itself and the row above.
pub proof fn lemma_recon_row_index(filter: u8, bpp: nat, prev: Seq<u8>, raw: Seq<u8>, i: int)
    requires
        bpp >= 1,
        0 <= i < raw.len(),
    ensures
        recon_row(filter, bpp, prev, raw).len() == raw.len(),
        is_recon_at(filter, bpp, prev, raw, recon_row(filter, bpp, prev, raw), i),
{
    let whole = recon_row(filter, bpp, prev, raw);
    let upto = raw.take(i + 1);
    lemma_recon_row_len(filter, bpp, prev, raw);
    lemma_recon_row_prefix(filter, bpp, prev, raw, i + 1);
    lemma_recon_row_prefix(filter, bpp, prev, raw, i);
    assert(upto.drop_last() =~= raw.take(i));
    let head = recon_row(filter, bpp, prev, upto.drop_last());
    assert(head == whole.take(i));
    assert(recon_row(filter, bpp, prev, upto)[i] == whole.take(i + 1)[i]);
    assert(left(head, bpp, i) == left(whole, bpp, i));
}

/// The reconstructed row is the only row of which every byte is the stored
/// byte plus the prediction from the row itself and the row above.
pub proof fn lemma_recon_row_unique(
    filter: u8,
    bpp: nat,
    prev: Seq<u8>,
    raw: Seq<u8>,
    row: Seq<u8>,
)
    requires
        bpp >= 1,
        row.len() == raw.len(),
        forall|i: int|
            0 <= i < raw.len() ==> #[trigger] is_recon_at(filter, bpp, prev, raw, row, i),
    ensures
        row == recon_row(filter, bpp, prev, raw),
    decreases raw.len(),
{
    if raw.len() > 0 {
        let i = raw.len() - 1;
        let row_head = row.drop_last();
        let raw_head = raw.drop_last();
        assert forall|j: int| 0 <= j < i implies #[trigger] is_recon_at(
            filter,
            bpp,
            prev,
            raw_head,
            row_head,
            j,
        ) by {
            assert(is_recon_at(filter, bpp, prev, raw, row, j));
            assert(left(row_head, bpp, j) == left(row, bpp, j));
        }
        lemma_recon_row_unique(filter, bpp, prev, raw_head, row_head);
        assert(is_recon_at(filter, bpp, prev, raw, row, i));
        assert(left(row_head, bpp, i) == left(row, bpp, i));
        assert(row =~= row_head.push(row[i]));
    } else {
        assert(row =~= Seq::empty());
    }
}

/// Reconstruction undoes filtering: for each of the five filters, a row
/// that was filtered against the row above it and is then reconstructed
/// against that same row comes back unchanged.
pub proof fn lemma_filter_round_trip(filter: u8, bpp: nat, prev: Seq<u8>, row: Seq<u8>)
    requires
        filter <= 4,
        bpp >= 1,
    ensures
        recon_row(filter, bpp, prev, filter_row(filter, bpp, prev, row)) == row,
    decreases row.len(),
{
    let raw = filter_row(filter, bpp, prev, row);
    if row.len() > 0 {
        let i = row.len() - 1;
        assert(raw.drop_last() =~= filter_row(filter, bpp, prev, row.drop_last()));
        lemma_filter_round_trip(filter, bpp, prev, row.drop_last());
        let head = recon_row(filter, bpp, prev, raw.drop_last());
        assert(head == row.drop_last());
        let a = left(row, bpp, i);
        assert(left(head, bpp, i) == a);
        let p = predictor(filter, a, above(prev, i), above(prev, i - bpp));
        assert(0 <= p <= 255);
        assert(recon_row(filter, bpp, prev, raw) =~= row);
    } else {
        assert(recon_row(filter, bpp, prev, raw) =~= row);
    }
}

/// A row that has no row above it reconstructs under the Up filter as under
/// the None filter: to the stored bytes themselves.
pub proof fn lemma_up_on_first_row_is_none(bpp: nat, raw: Seq<u8>)
    ensures
        recon_row(2, bpp, Seq::empty(), raw) == recon_row(0, bpp, Seq::empty(), raw),
        recon_row(0, bpp, Seq::empty(), raw) == raw,
    decreases raw.len(),
{
    if raw.len() > 0 {
        lemma_up_on_first_row_is_none(bpp, raw.drop_last());
        assert(recon_row(0, bpp, Seq::empty(), raw) =~= raw);
        assert(recon_row(2, bpp, Seq::empty(), raw) =~= raw);
    } else {
        assert(recon_row(0, bpp, Seq::empty(), raw) =~= raw);
    }
}

/// The None and Sub filters do not look at the row above.
pub proof fn lemma_recon_row_ignores_above(
    filter: u8,
    bpp: nat,
    prev1: Seq<u8>,
    prev2: Seq<u8>,
    raw: Seq<u8>,
)
    requires
        filter == 0 || filter == 1,
    ensures
        recon_row(filter, bpp, prev1, raw) == recon_row(filter, bpp, prev2, raw),
    decreases raw.len(),
{
    if raw.len() > 0 {
        lemma_recon_row_ignores_above(filter, bpp, prev1, prev2, raw.drop_last());
    }
}

/// One scanline as it comes out of the decompressor: the filter that was
/// applied to it, the lookback distance of that filter, and the filtered
/// bytes.
#[derive(Debug)]
pub struct Scanline {
    pub filter: u8,
    pub bpp: usize,
    pub data: Vec<u8>,
}

impl Scanline {
    /// What every scanline that `new` or `encode` returns satisfies.
    pub open spec fn wf(self) -> bool {
        self.filter <= 4 && self.bpp >= 1
    }

    /// Why `line` is no scanline of an image with header `params`, if it is
    /// none: it must be one filter byte, at most 4, and one stride of bytes.
    pub open spec fn defect(line: Seq<u8>, params: PngParam) -> Option<DecodeError> {
        if line.len() != params.spec_stride() + 1 {
            Some(DecodeError::ScanlineLengthMismatch)
        } else if line[0] > 4 {
            Some(DecodeError::InvalidFilterType)
        } else {
            None
        }
    }

    /// Takes one line of decompressed data apart.
    pub fn new(bytes: &[u8], params: &PngParam) -> (line: Result<Scanline, DecodeError>)
        requires
            params.wf(),
        ensures
            match line {
                Ok(s) => Scanline::defect(bytes@, *params) is None && s.wf() && s.filter
                    == bytes@[0] && s.bpp == params.spec_bpp() && s.data@ == bytes@.skip(1),
                Err(e) => Scanline::defect(bytes@, *params) == Some(e),
            },
    {
        let stride = params.stride();
        if bytes.len() as u64 != stride + 1 {
            return Err(DecodeError::ScanlineLengthMismatch);
        }
        if bytes[0] > 4 {
            return Err(DecodeError::InvalidFilterType);
        }
        let data = slice_to_vec(vstd::slice::slice_subrange(bytes, 1, bytes.len()));
        Ok(Scanline { filter: bytes[0], bpp: params.bpp(), data })
    }

    /// The Paeth predictor, on bytes.
    pub fn paeth_predictor(a: u8, b: u8, c: u8) -> (nearest: u8)
        ensures
            nearest == paeth(a as int, b as int, c as int),
    {
        let ia: i16 = a as i16;
        let ib: i16 = b as i16;
        let ic: i16 = c as i16;
        let p: i16 = ia + ib - ic;
        let pa: i16 = if p >= ia { p - ia } else { ia - p };
        let pb: i16 = if p >= ib { p - ib } else { ib - p };
        let pc: i16 = if p >= ic { p - ic } else { ic - p };
        if pa <= pb && pa <= pc {
            a
        } else if pb <= pc {
            b
        } else {
            c
        }
    }

    /// Reconstructs one byte.
    pub fn recon(filter: u8, x: u8, a: u8, b: u8, c: u8) -> (byte: u8)
        requires
            filter <= 4,
        ensures
            byte == recon_byte(filter, x, a, b, c),
    {
        if filter == 0 {
            x
        } else if filter == 1 {
            Pixel::add_filter(x, a)
        } else if filter == 2 {
            Pixel::add_filter(x, b)
        } else if filter == 3 {
            let mean: u16 = (a as u16 + b as u16) / 2;
            Pixel::add_filter(x, mean as u8)
        } else {
            Pixel::add_filter(x, Scanline::paeth_predictor(a, b, c))
        }
    }

    /// Reconstructs `data` under `filter`, with `previous` as the row above.
    fn unfilter(filter: u8, bpp: usize, previous: &[u8], data: &[u8]) -> (row: Vec<u8>)
        requires
            filter <= 4,
            bpp >= 1,
        ensures
            row@ == recon_row(filter, bpp as nat, previous@, data@),
    {
        let mut row: Vec<u8> = Vec::with_capacity(data.len());
        let mut i: usize = 0;
        while i < data.len()
            invariant
                filter <= 4,
                bpp >= 1,
                i <= data.len(),
                row@ == recon_row(filter, bpp as nat, previous@, data@.take(i as int)),
                row@.len() == i,
            decreases data.len() - i,
        {
            let a: u8 = if i >= bpp { row[i - bpp] } else { 0 };
            let b: u8 = if i < previous.len() { previous[i] } else { 0 };
            let c: u8 = if i >= bpp && i - bpp < previous.len() { previous[i - bpp] } else { 0 };
            let byte = Scanline::recon(filter, data[i], a, b, c);
            assert(data@.take(i + 1).drop_last() =~= data@.take(i as int));
            row.push(byte);
            i += 1;
        }
        assert(data@.take(i as int) =~= data@);
        row
    }

    /// Undoes the None filter: the row is the stored bytes.
    pub fn decode_none(&self) -> (row: Vec<u8>)
        requires
            self.wf(),
        ensures
            row@ == recon_row(0, self.bpp as nat, Seq::empty(), self.data@),
            row@ == self.data@,
    {
        let none: Vec<u8> = Vec::new();
        proof {
            lemma_up_on_first_row_is_none(self.bpp as nat, self.data@);
        }
        Scanline::unfilter(0, self.bpp, none.as_slice(), self.data.as_slice())
    }

    /// Undoes the Sub filter: each byte is added to the byte one pixel to
    /// its left. The row above plays no part.
    pub fn decode_sub(&self) -> (row: Vec<u8>)
        requires
            self.wf(),
        ensures
            row@ == recon_row(1, self.bpp as nat, Seq::empty(), self.data@),
    {
        let none: Vec<u8> = Vec::new();
        Scanline::unfilter(1, self.bpp, none.as_slice(), self.data.as_slice())
    }

    /// Undoes the Up filter: each byte is added to the byte above it.
    pub fn decode_up(&self, previous: &Vec<u8>) -> (row: Vec<u8>)
        requires
            self.wf(),
        ensures
            row@ == recon_row(2, self.bpp as nat, previous@, self.data@),
    {
        Scanline::unfilter(2, self.bpp, previous.as_slice(), self.data.as_slice())
    }

    /// Undoes the Average filter: each byte is added to the mean, rounded
    /// down, of the byte to its left and the byte above it.
    pub fn decode_average(&self, previous: &Vec<u8>) -> (row: Vec<u8>)
        requires
            self.wf(),
        ensures
            row@ == recon_row(3, self.bpp as nat, previous@, self.data@),
    {
        Scanline::unfilter(3, self.bpp, previous.as_slice(), self.data.as_slice())
    }

    /// Undoes the Paeth filter: each byte is added to the Paeth prediction
    /// from its three neighbours.
    pub fn decode_paeth(&self, previous: &Vec<u8>) -> (row: Vec<u8>)
        requires
            self.wf(),
        ensures
            row@ == recon_row(4, self.bpp as nat, previous@, self.data@),
    {
        Scanline::unfilter(4, self.bpp, previous.as_slice(), self.data.as_slice())
    }

    /// Undoes whichever filter the scanline names. `previous` is the
    /// reconstructed row above, or empty for the first row.
    pub fn reconstruct(&self, previous: &Vec<u8>) -> (row: Vec<u8>)
        requires
            self.wf(),
        ensures
            row@ == recon_row(self.filter, self.bpp as nat, previous@, self.data@),
    {
        proof {
            if self.filter <= 1 {
                lemma_recon_row_ignores_above(
                    self.filter,
                    self.bpp as nat,
                    previous@,
                    Seq::empty(),
                    self.data@,
                );
            }
        }
        match self.filter {
            0 => self.decode_none(),
            1 => self.decode_sub(),
            2 => self.decode_up(previous),
            3 => self.decode_average(previous),
            _ => self.decode_paeth(previous),
        }
    }

    /// Applies `filter` to `row`, with `previous` as the row above: the
    /// inverse of `reconstruct`.
    pub fn encode(filter: u8, bpp: usize, previous: &[u8], row: &[u8]) -> (line: Scanline)
        requires
            filter <= 4,
            bpp >= 1,
        ensures
            line.wf(),
            line.filter == filter,
            line.bpp == bpp,
            line.data@ == filter_row(filter, bpp as nat, previous@, row@),
    {
        let mut data: Vec<u8> = Vec::with_capacity(row.len());
        let mut i: usize = 0;
        while i < row.len()
            invariant
                filter <= 4,
                bpp >= 1,
                i <= row.len(),
                data@ == filter_row(filter, bpp as nat, previous@, row@).take(i as int),
            decreases row.len() - i,
        {
            let a: u8 = if i >= bpp { row[i - bpp] } else { 0 };
            let b: u8 = if i < previous.len() { previous[i] } else { 0 };
            let c: u8 = if i >= bpp && i - bpp < previous.len() { previous[i - bpp] } else { 0 };
            let x = row[i];
            let byte = if filter == 0 {
                x
            } else if filter == 1 {
                Pixel::sub_filter(x, a)
            } else if filter == 2 {
                Pixel::sub_filter(x, b)
            } else if filter == 3 {
                let mean: u16 = (a as u16 + b as u16) / 2;
                Pixel::sub_filter(x, mean as u8)
            } else {
                Pixel::sub_filter(x, Scanline::paeth_predictor(a, b, c))
            };
            data.push(byte);
            assert(data@ =~= filter_row(filter, bpp as nat, previous@, row@).take(i + 1));
            i += 1;
        }
        assert(data@ =~= filter_row(filter, bpp as nat, previous@, row@));
        Scanline { filter, bpp, data }
    }
}

/// The rows that a vector of byte vectors holds.
pub open spec fn rows_view(rows: Seq<Vec<u8>>) -> Seq<Seq<u8>> {
    Seq::new(rows.len(), |y: int| rows[y]@)
}

/// Line number `y` of decompressed image data whose lines are `line_len`
/// bytes long: a filter byte and the filtered bytes of row `y`.
pub open spec fn line_at(inflated: Seq<u8>, line_len: nat, y: int) -> Seq<u8> {
    inflated.subrange(y * line_len, (y + 1) * line_len)
}

/// The first `n` rows of an image, reconstructed from its decompressed
/// data: each line under the filter that its first byte names, against the
/// reconstructed row before it; the first row has no row before it.
pub open spec fn recon_rows(inflated: Seq<u8>, line_len: nat, bpp: nat, n: nat) -> Seq<Seq<u8>>
    decreases n,
{
    if n == 0 {
        Seq::empty()
    } else {
        let rows = recon_rows(inflated, line_len, bpp, (n - 1) as nat);
        let prev = if n == 1 {
            Seq::<u8>::empty()
        } else {
            rows[n - 2]
        };
        let line = line_at(inflated, line_len, n - 1);
        rows.push(recon_row(line[0], bpp, prev, line.skip(1)))
    }
}

/// The reconstructed rows of an image with header `params` whose
/// decompressed data is `inflated`. The data must hold exactly one line for
/// each row, and every line must name one of the five filters.
pub open spec fn reconstruct_spec(params: PngParam, inflated: Seq<u8>) -> Result<
    Seq<Seq<u8>>,
    DecodeError,
> {
    let line_len = params.spec_stride() + 1;
    if inflated.len() != params.height * line_len {
        Err(DecodeError::ScanlineLengthMismatch)
    } else if exists|y: int|
        0 <= y < params.height && (#[trigger] line_at(inflated, line_len, y))[0] > 4 {
        Err(DecodeError::InvalidFilterType)
    } else {
        Ok(recon_rows(inflated, line_len, params.spec_bpp(), params.height as nat))
    }
}

proof fn lemma_line_bounds(y: int, height: int, line_len: int)
    by (nonlinear_arith)
    requires
        0 <= y < height,
        0 <= line_len,
    ensures
        0 <= y * line_len,
        (y + 1) * line_len == y * line_len + line_len,
        (y + 1) * line_len <= height * line_len,
{
}

/// Reconstructs all rows of an image from its decompressed data.
pub fn reconstruct_image(inflated: &[u8], params: &PngParam) -> (rows: Result<
    Vec<Vec<u8>>,
    DecodeError,
>)
    requires
        params.wf(),
    ensures
        match rows {
            Ok(v) => reconstruct_spec(*params, inflated@) == Ok::<Seq<Seq<u8>>, DecodeError>(
                rows_view(v@),
            ),
            Err(e) => reconstruct_spec(*params, inflated@) == Err::<Seq<Seq<u8>>, DecodeError>(e),
        },
{
    let stride: u64 = params.stride();
    assert(params.height * (stride + 1) <= 0xFFFF_FFFF * 0x8_0000_0001) by (nonlinear_arith)
        requires
            params.height <= 0xFFFF_FFFF,
            stride + 1 <= 0x8_0000_0001,
    ;
    let total: u128 = (params.height as u128) * ((stride + 1) as u128);
    if inflated.len() as u128 != total {
        return Err(DecodeError::ScanlineLengthMismatch);
    }
    proof {
        lemma_line_bounds(0, params.height as int, stride + 1);
    }
    let line_len: usize = (stride + 1) as usize;
    let height: usize = params.height as usize;
    let ghost bpp = params.spec_bpp();
    let none: Vec<u8> = Vec::new();
    let mut rows: Vec<Vec<u8>> = Vec::new();
    let mut y: usize = 0;
    let mut offset: usize = 0;
    while y < height
        invariant
            params.wf(),
            y <= height,
            height == params.height,
            line_len == params.spec_stride() + 1,
            bpp == params.spec_bpp(),
            inflated@.len() == height * line_len,
            inflated@.len() <= usize::MAX,
            offset == y * line_len,
            none@.len() == 0,
            rows@.len() == y,
            rows_view(rows@) == recon_rows(inflated@, line_len as nat, bpp, y as nat),
            forall|k: int| 0 <= k < y ==> (#[trigger] line_at(inflated@, line_len as nat, k))[0] <= 4,
        decreases height - y,
    {
        proof {
            lemma_line_bounds(y as int, height as int, line_len as int);
        }
        let line = vstd::slice::slice_subrange(inflated, offset, offset + line_len);
        assert(line@ == line_at(inflated@, line_len as nat, y as int));
        match Scanline::new(line, params) {
            Err(e) => {
                return Err(e);
            },
            Ok(scanline) => {
                let row = if y == 0 {
                    scanline.reconstruct(&none)
                } else {
                    scanline.reconstruct(&rows[y - 1])
                };
                assert(none@ =~= Seq::<u8>::empty());
                rows.push(row);
            },
        }
        y += 1;
        offset += line_len;
    }
    Ok(rows)
}

} // verus!
