//! The offset-table model shared by every jagged layout: row `i` occupies the
//! half-open range `[offsets[i - 1], offsets[i])` of the flat buffer, where the
//! start of row 0 is 0.
use vstd::prelude::*;

verus! {

/// Where row `i` starts in the flat buffer: the end of the previous row, or 0.
pub open spec fn row_start(offsets: Seq<usize>, i: int) -> int {
    if i <= 0 {
        0
    } else {
        offsets[i - 1] as int
    }
}

/// Where row `i` ends (exclusive) in the flat buffer.
pub open spec fn row_end(offsets: Seq<usize>, i: int) -> int {
    offsets[i] as int
}

/// An offset table that describes a flat buffer of `n_elems` elements:
/// non-decreasing, and ending exactly at the end of the buffer.
pub open spec fn offsets_valid(offsets: Seq<usize>, n_elems: int) -> bool {
    &&& forall|i: int, j: int| 0 <= i <= j < offsets.len() ==> offsets[i] <= offsets[j]
    &&& if offsets.len() == 0 {
        n_elems == 0
    } else {
        offsets.last() == n_elems
    }
}

/// The contents of row `i`.
pub open spec fn row_of<T>(elems: Seq<T>, offsets: Seq<usize>, i: int) -> Seq<T> {
    elems.subrange(row_start(offsets, i), row_end(offsets, i))
}

/// Every row, in order.
pub open spec fn rows_of<T>(elems: Seq<T>, offsets: Seq<usize>) -> Seq<Seq<T>> {
    Seq::new(offsets.len(), |i: int| row_of(elems, offsets, i))
}

/// The rows laid end to end.
pub open spec fn concat_rows<T>(rows: Seq<Seq<T>>) -> Seq<T>
    decreases rows.len(),
{
    if rows.len() == 0 {
        seq![]
    } else {
        concat_rows(rows.drop_last()) + rows.last()
    }
}

/// The number of elements over all rows.
pub open spec fn total_len<T>(rows: Seq<Seq<T>>) -> nat
    decreases rows.len(),
{
    if rows.len() == 0 {
        0
    } else {
        total_len(rows.drop_last()) + rows.last().len()
    }
}

/// Every row of a valid table lies inside the buffer, and its length is the
/// difference of its bounds.
pub proof fn lemma_row_bounds<T>(elems: Seq<T>, offsets: Seq<usize>, i: int)
    requires
        offsets_valid(offsets, elems.len() as int),
        0 <= i < offsets.len(),
    ensures
        0 <= row_start(offsets, i) <= row_end(offsets, i) <= elems.len(),
        row_of(elems, offsets, i).len() == row_end(offsets, i) - row_start(offsets, i),
{
    assert(offsets[i] <= offsets[offsets.len() - 1]);
    if i > 0 {
        assert(offsets[i - 1] <= offsets[i]);
    }
}

/// Laying out the first `k` rows of a valid table gives the buffer up to the
/// start of row `k`.
proof fn lemma_concat_prefix<T>(elems: Seq<T>, offsets: Seq<usize>, k: int)
    requires
        offsets_valid(offsets, elems.len() as int),
        0 <= k <= offsets.len(),
    ensures
        0 <= row_start(offsets, k) <= elems.len(),
        concat_rows(rows_of(elems, offsets).take(k)) == elems.subrange(0, row_start(offsets, k)),
    decreases k,
{
    let rows = rows_of(elems, offsets);
    if k == 0 {
        assert(rows.take(0) =~= seq![]);
        assert(elems.subrange(0, 0) =~= seq![]);
    } else {
        lemma_concat_prefix(elems, offsets, k - 1);
        lemma_row_bounds(elems, offsets, k - 1);
        assert(rows.take(k).drop_last() =~= rows.take(k - 1));
        assert(rows.take(k).last() == row_of(elems, offsets, k - 1));
        assert(elems.subrange(0, row_start(offsets, k - 1)) + row_of(elems, offsets, k - 1)
            =~= elems.subrange(0, row_start(offsets, k)));
    }
}

/// The rows of a valid table, laid end to end, are exactly the buffer.
pub proof fn lemma_concat_rows<T>(elems: Seq<T>, offsets: Seq<usize>)
    requires
        offsets_valid(offsets, elems.len() as int),
    ensures
        concat_rows(rows_of(elems, offsets)) == elems,
{
    let n = offsets.len() as int;
    lemma_concat_prefix(elems, offsets, n);
    assert(rows_of(elems, offsets).take(n) =~= rows_of(elems, offsets));
    assert(elems.subrange(0, row_start(offsets, n)) =~= elems);
}

/// The element count of some rows is the length of their concatenation.
pub proof fn lemma_total_len<T>(rows: Seq<Seq<T>>)
    ensures
        total_len(rows) == concat_rows(rows).len(),
    decreases rows.len(),
{
    if rows.len() > 0 {
        lemma_total_len(rows.drop_last());
    }
}

/// Appending a row to the buffer and its new end to the table keeps the table
/// valid, keeps every earlier row, and adds the appended row last.
pub proof fn lemma_append_row<T>(elems: Seq<T>, offsets: Seq<usize>, row: Seq<T>, end: usize)
    requires
        offsets_valid(offsets, elems.len() as int),
        end == elems.len() + row.len(),
    ensures
        offsets_valid(offsets.push(end), (elems + row).len() as int),
        rows_of(elems + row, offsets.push(end)) == rows_of(elems, offsets).push(row),
{
    let e2 = elems + row;
    let o2 = offsets.push(end);
    let n = offsets.len() as int;
    assert forall|i: int, j: int| 0 <= i <= j < o2.len() implies o2[i] <= o2[j] by {
        if j < n {
            assert(o2[i] == offsets[i] && o2[j] == offsets[j]);
        } else if i < n {
            assert(offsets[i] <= offsets[n - 1]);
        }
    }
    assert forall|i: int| 0 <= i < o2.len() implies row_of(e2, o2, i) == rows_of(elems, offsets).push(
        row,
    )[i] by {
        if i < n {
            lemma_row_bounds(elems, offsets, i);
            assert(row_start(o2, i) == row_start(offsets, i));
            assert(row_end(o2, i) == row_end(offsets, i));
            assert(e2.subrange(row_start(o2, i), row_end(o2, i)) =~= elems.subrange(
                row_start(offsets, i),
                row_end(offsets, i),
            ));
        } else {
            assert(row_start(o2, i) == elems.len());
            assert(e2.subrange(elems.len() as int, e2.len() as int) =~= row);
        }
    }
    assert(rows_of(e2, o2) =~= rows_of(elems, offsets).push(row));
}

} // verus!
