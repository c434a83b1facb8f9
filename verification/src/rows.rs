//! Byte strings and tables of byte strings: copying, comparing and erasing.
//!
//! A table is a `Vec<Vec<u8>>`; contracts speak of it through `deep_view`, a `Seq<Seq<u8>>`.

use vstd::prelude::*;

verus! {

/// Row `i` of the deep view of a table is the view of its row `i`.
pub proof fn lemma_deep_view_rows(rows: &Vec<Vec<u8>>)
    ensures
        rows.deep_view().len() == rows@.len(),
        forall|i: int| 0 <= i < rows@.len() ==> #[trigger] rows.deep_view()[i] == rows@[i]@,
{
    assert forall|i: int| 0 <= i < rows@.len() implies #[trigger] rows.deep_view()[i]
        == rows@[i]@ by {
    }
}

/// Whether `rows` holds `count` rows of `width` bytes each.
pub open spec fn has_shape(rows: Seq<Seq<u8>>, count: nat, width: nat) -> bool {
    &&& rows.len() == count
    &&& forall|i: int| 0 <= i < rows.len() ==> (#[trigger] rows[i]).len() == width
}

/// Whether two tables have the same number of rows and, row by row, the same number of bytes.
pub open spec fn same_shape(left: Seq<Seq<u8>>, right: Seq<Seq<u8>>) -> bool {
    &&& left.len() == right.len()
    &&& forall|i: int| 0 <= i < left.len() ==> (#[trigger] left[i]).len() == right[i].len()
}

/// Whether every byte of every row is zero.
pub open spec fn all_zero(rows: Seq<Seq<u8>>) -> bool {
    forall|i: int, j: int|
        0 <= i < rows.len() && 0 <= j < rows[i].len() ==> #[trigger] rows[i][j] == 0
}

/// The table with the shape of `rows` and every byte zero.
pub open spec fn zeroed(rows: Seq<Seq<u8>>) -> Seq<Seq<u8>> {
    Seq::new(rows.len(), |i: int| Seq::new(rows[i].len(), |j: int| 0u8))
}

/// The table of `count` rows of `width` zero bytes.
pub open spec fn blank(count: nat, width: nat) -> Seq<Seq<u8>> {
    Seq::new(count, |i: int| Seq::new(width, |j: int| 0u8))
}

/// Makes a table of `count` rows of `width` zero bytes.
pub fn blank_rows(count: usize, width: usize) -> (out: Vec<Vec<u8>>)
    ensures
        out.deep_view() == blank(count as nat, width as nat),
{
    let mut out: Vec<Vec<u8>> = Vec::new();
    let mut i: usize = 0;
    while i < count
        invariant
            i <= count,
            out@.len() == i,
            forall|k: int|
                0 <= k < i ==> (#[trigger] out@[k])@ == Seq::new(width as nat, |j: int| 0u8),
        decreases count - i,
    {
        let mut row: Vec<u8> = Vec::new();
        let mut j: usize = 0;
        while j < width
            invariant
                j <= width,
                row@ == Seq::new(j as nat, |k: int| 0u8),
            decreases width - j,
        {
            row.push(0);
            j += 1;
        }
        out.push(row);
        i += 1;
    }
    proof {
        lemma_deep_view_rows(&out);
    }
    out
}

/// Tests whether `rows` holds `count` rows of `width` bytes each.
pub fn is_shaped(rows: &Vec<Vec<u8>>, count: usize, width: usize) -> (ok: bool)
    ensures
        ok == has_shape(rows.deep_view(), count as nat, width as nat),
{
    if rows.len() != count {
        return false;
    }
    let mut i: usize = 0;
    while i < rows.len()
        invariant
            i <= rows@.len(),
            rows@.len() == count,
            forall|k: int| 0 <= k < rows@.len() ==> #[trigger] rows.deep_view()[k] == rows@[k]@,
            forall|k: int| 0 <= k < i ==> (#[trigger] rows.deep_view()[k]).len() == width,
        decreases rows@.len() - i,
    {
        if rows[i].len() != width {
            assert(rows.deep_view()[i as int].len() != width);
            return false;
        }
        i += 1;
    }
    true
}

/// Compares two byte strings.  The running time depends on where they first differ.
pub fn bytes_equal(left: &[u8], right: &[u8]) -> (same: bool)
    ensures
        same == (left@ == right@),
{
    if left.len() != right.len() {
        return false;
    }
    let mut i: usize = 0;
    while i < left.len()
        invariant
            i <= left.len(),
            left.len() == right.len(),
            forall|k: int| 0 <= k < i ==> left@[k] == right@[k],
        decreases left.len() - i,
    {
        if left[i] != right[i] {
            return false;
        }
        i += 1;
    }
    assert(left@ =~= right@);
    true
}

/// Compares two tables row by row.  The running time depends on where they first differ.
pub fn rows_equal(left: &Vec<Vec<u8>>, right: &Vec<Vec<u8>>) -> (same: bool)
    ensures
        same == (left.deep_view() == right.deep_view()),
{
    proof {
        lemma_deep_view_rows(left);
        lemma_deep_view_rows(right);
    }
    if left.len() != right.len() {
        return false;
    }
    let mut i: usize = 0;
    while i < left.len()
        invariant
            i <= left.len(),
            left.len() == right.len(),
            forall|k: int| 0 <= k < i ==> left@[k]@ == right@[k]@,
            forall|k: int| 0 <= k < left@.len() ==> #[trigger] left.deep_view()[k] == left@[k]@,
            forall|k: int| 0 <= k < right@.len() ==> #[trigger] right.deep_view()[k] == right@[k]@,
        decreases left.len() - i,
    {
        if !bytes_equal(left[i].as_slice(), right[i].as_slice()) {
            assert(left.deep_view()[i as int] != right.deep_view()[i as int]);
            return false;
        }
        i += 1;
    }
    assert(left.deep_view() =~= right.deep_view());
    true
}

/// Copies a byte string.
pub fn copy_bytes(source: &[u8]) -> (out: Vec<u8>)
    ensures
        out@ == source@,
{
    let mut out: Vec<u8> = Vec::with_capacity(source.len());
    let mut i: usize = 0;
    while i < source.len()
        invariant
            i <= source.len(),
            out@ == source@.take(i as int),
        decreases source.len() - i,
    {
        out.push(source[i]);
        i += 1;
    }
    out
}

/// Copies a table.
pub fn copy_rows(source: &Vec<Vec<u8>>) -> (out: Vec<Vec<u8>>)
    ensures
        out.deep_view() == source.deep_view(),
{
    let mut out: Vec<Vec<u8>> = Vec::with_capacity(source.len());
    let mut i: usize = 0;
    while i < source.len()
        invariant
            i <= source.len(),
            out@.len() == i,
            forall|k: int| 0 <= k < i ==> (#[trigger] out@[k])@ == source@[k]@,
        decreases source.len() - i,
    {
        let row = copy_bytes(source[i].as_slice());
        out.push(row);
        i += 1;
    }
    out
}

/// Overwrites every byte of `bytes` with zero.
pub fn wipe_bytes(bytes: &mut Vec<u8>)
    ensures
        final(bytes)@.len() == old(bytes)@.len(),
        forall|j: int| 0 <= j < final(bytes)@.len() ==> final(bytes)@[j] == 0,
    no_unwind
{
    let mut j: usize = 0;
    while j < bytes.len()
        invariant
            j <= bytes.len(),
            bytes@.len() == old(bytes)@.len(),
            forall|k: int| 0 <= k < j ==> bytes@[k] == 0,
        decreases bytes.len() - j,
    {
        bytes[j] = 0;
        j += 1;
    }
}

/// Overwrites every byte of every row of `rows` with zero; the shape stays.
pub fn wipe_rows(rows: &mut Vec<Vec<u8>>)
    ensures
        final(rows).deep_view() == zeroed(old(rows).deep_view()),
    no_unwind
{
    let mut i: usize = 0;
    while i < rows.len()
        invariant
            i <= rows.len(),
            rows@.len() == old(rows)@.len(),
            forall|k: int|
                0 <= k < rows@.len() ==> (#[trigger] rows@[k])@.len() == old(rows)@[k]@.len(),
            forall|k: int, j: int|
                0 <= k < i && 0 <= j < rows@[k]@.len() ==> #[trigger] rows@[k]@[j] == 0,
        decreases rows.len() - i,
    {
        wipe_bytes(&mut rows[i]);
        i += 1;
    }
    proof {
        lemma_deep_view_rows(rows);
        lemma_deep_view_rows(old(rows));
        assert forall|k: int| 0 <= k < rows@.len() implies #[trigger] rows.deep_view()[k]
            == zeroed(old(rows).deep_view())[k] by {
            assert(rows@[k]@ =~= Seq::new(old(rows)@[k]@.len(), |j: int| 0u8));
        }
    }
}

} // verus!
