//! The flat byte encoding of a table: its rows laid end to end, with no framing.

use crate::rows::{has_shape, lemma_deep_view_rows};
use vstd::arithmetic::div_mod::{lemma_div_by_multiple, lemma_fundamental_div_mod};
use vstd::prelude::*;

verus! {

/// `bytes` cut into consecutive rows of `width` bytes.  A rest shorter than `width` is left out.
pub open spec fn chunks(bytes: Seq<u8>, width: nat) -> Seq<Seq<u8>> {
    Seq::new(
        bytes.len() / width,
        |i: int| bytes.subrange(i * (width as int), (i + 1) * (width as int)),
    )
}

/// Cell `(i, j)` of a table of `count` rows of `width` bytes has a place among `count * width`
/// bytes, and row `i` ends where row `i + 1` begins.
pub proof fn lemma_cell_in_range(i: int, j: int, count: nat, width: nat)
    requires
        0 <= i < count,
        0 <= j < width,
    ensures
        0 <= i * width,
        i * width + j < count * width,
        (i + 1) * width == i * width + width,
        (i + 1) * width <= count * width,
{
    assert(0 <= i * width && i * width + j < count * width && (i + 1) * width == i * width + width
        && (i + 1) * width <= count * width) by (nonlinear_arith)
        requires
            0 <= i < count,
            0 <= j < width,
    ;
}

/// The rows of a table of `count` rows of `width` bytes lie in its encoding one after the other:
/// byte `j` of row `i` is byte `i * width + j`.
pub proof fn lemma_flatten_shape(rows: Seq<Seq<u8>>, count: nat, width: nat)
    requires
        has_shape(rows, count, width),
    ensures
        rows.flatten().len() == count * width,
        forall|i: int, j: int|
            0 <= i < count && 0 <= j < width ==> rows.flatten()[i * width + j]
                == #[trigger] rows[i][j],
    decreases count,
{
    if count > 0 {
        let front = rows.drop_last();
        assert(rows =~= front.push(rows.last()));
        front.lemma_flatten_push(rows.last());
        lemma_flatten_shape(front, (count - 1) as nat, width);
        assert(count * width == (count - 1) * width + width) by (nonlinear_arith);
        assert forall|i: int, j: int| 0 <= i < count && 0 <= j < width implies rows.flatten()[i
            * width + j] == #[trigger] rows[i][j] by {
            if i < count - 1 {
                lemma_cell_in_range(i, j, (count - 1) as nat, width);
            }
        }
    }
}

/// Cutting the encoding of a table of equally wide rows gives the table back.
pub proof fn lemma_chunks_of_flatten(rows: Seq<Seq<u8>>, count: nat, width: nat)
    requires
        has_shape(rows, count, width),
        width > 0,
    ensures
        chunks(rows.flatten(), width) == rows,
{
    let bytes = rows.flatten();
    lemma_flatten_shape(rows, count, width);
    lemma_div_by_multiple(count as int, width as int);
    assert forall|i: int| 0 <= i < count implies #[trigger] chunks(bytes, width)[i] == rows[i] by {
        lemma_cell_in_range(i, 0, count, width);
        assert forall|j: int| 0 <= j < width implies chunks(bytes, width)[i][j] == rows[i][j] by {
            lemma_cell_in_range(i, j, count, width);
        }
    }
}

/// Laying the rows cut from `bytes` end to end gives `bytes` back, where its length is a multiple
/// of the row width.
pub proof fn lemma_flatten_of_chunks(bytes: Seq<u8>, count: nat, width: nat)
    requires
        width > 0,
        bytes.len() == count * width,
    ensures
        has_shape(chunks(bytes, width), count, width),
        chunks(bytes, width).flatten() == bytes,
{
    let rows = chunks(bytes, width);
    lemma_div_by_multiple(count as int, width as int);
    assert forall|i: int| 0 <= i < rows.len() implies (#[trigger] rows[i]).len() == width by {
        lemma_cell_in_range(i, 0, count, width);
    }
    lemma_flatten_shape(rows, count, width);
    assert forall|k: int| 0 <= k < bytes.len() implies rows.flatten()[k] == bytes[k] by {
        let i = k / (width as int);
        let j = k % (width as int);
        lemma_fundamental_div_mod(k, width as int);
        assert(0 <= i < count) by (nonlinear_arith)
            requires
                k == width * i + j,
                0 <= j < width,
                0 <= k < count * width,
        ;
        lemma_cell_in_range(i, j, count, width);
        assert(rows[i][j] == bytes[i * width + j]);
    }
}

/// Appends `source` to `out`.
pub fn append_bytes(out: &mut Vec<u8>, source: &[u8])
    ensures
        final(out)@ == old(out)@ + source@,
{
    let mut j: usize = 0;
    while j < source.len()
        invariant
            j <= source.len(),
            out@ == old(out)@ + source@.take(j as int),
        decreases source.len() - j,
    {
        out.push(source[j]);
        j += 1;
    }
}

/// Appends the rows of `rows`, one after the other, to `out`.
pub fn append_rows(out: &mut Vec<u8>, rows: &Vec<Vec<u8>>)
    ensures
        final(out)@ == old(out)@ + rows.deep_view().flatten(),
{
    let mut i: usize = 0;
    while i < rows.len()
        invariant
            i <= rows@.len(),
            rows.deep_view().len() == rows@.len(),
            forall|k: int| 0 <= k < rows@.len() ==> #[trigger] rows.deep_view()[k] == rows@[k]@,
            out@ == old(out)@ + rows.deep_view().take(i as int).flatten(),
        decreases rows@.len() - i,
    {
        append_bytes(out, rows[i].as_slice());
        proof {
            let done = rows.deep_view().take(i as int);
            let row = rows.deep_view()[i as int];
            assert(rows.deep_view().take(i + 1) =~= done.push(row));
            done.lemma_flatten_push(row);
        }
        i += 1;
    }
    assert(rows.deep_view().take(rows@.len() as int) =~= rows.deep_view());
}

/// Cuts `bytes` into rows of `width` bytes, leaving out a shorter rest.
pub fn split_rows(bytes: &[u8], width: usize) -> (out: Vec<Vec<u8>>)
    requires
        width > 0,
    ensures
        out.deep_view() == chunks(bytes@, width as nat),
{
    let count = bytes.len() / width;
    let mut out: Vec<Vec<u8>> = Vec::new();
    let mut i: usize = 0;
    while i < count
        invariant
            width > 0,
            count == bytes@.len() / (width as nat),
            i <= count,
            bytes@.len() <= usize::MAX,
            out@.len() == i,
            forall|k: int| 0 <= k < i ==> (#[trigger] out@[k])@ == chunks(bytes@, width as nat)[k],
        decreases count - i,
    {
        proof {
            let len = bytes@.len() as int;
            let rest = len % (width as int);
            lemma_fundamental_div_mod(len, width as int);
            lemma_cell_in_range(i as int, 0, count as nat, width as nat);
            assert(count * width <= len) by (nonlinear_arith)
                requires
                    len == width * count + rest,
                    0 <= rest,
            ;
        }
        let start = i * width;
        let mut row: Vec<u8> = Vec::with_capacity(width);
        let mut j: usize = 0;
        while j < width
            invariant
                j <= width,
                start == i * width,
                start + width <= bytes@.len(),
                bytes@.len() <= usize::MAX,
                row@ == bytes@.subrange(start as int, start + j),
            decreases width - j,
        {
            row.push(bytes[start + j]);
            j += 1;
        }
        out.push(row);
        i += 1;
    }
    proof {
        lemma_deep_view_rows(&out);
    }
    out
}

} // verus!
