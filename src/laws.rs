//! What holds of every jagged array built by the builders, stated over the
//! models that the operations' contracts use.
use vstd::prelude::*;
use crate::array::JaggedArray;
use crate::bare::{BareJaggedArrayBuilder, BareJaggedArrayIndex};
use crate::builder::JaggedArrayBuilder;
use crate::spans::{
    concat_rows, lemma_concat_rows, lemma_row_bounds, lemma_total_len, row_end, row_start,
    total_len,
};

verus! {

/// After rows `r0 .. r(n-1)` have been pushed, the builder counts `n` rows
/// and as many elements as the rows hold together, and its flat buffer is
/// the rows laid end to end.
pub proof fn lemma_builder_counts<T>(b: &JaggedArrayBuilder<T>, pushed: Seq<Seq<T>>)
    requires
        b.wf(),
        b.rows() == pushed,
    ensures
        b.offset_table().len() == pushed.len(),
        b.flat().len() == total_len(pushed),
        b.flat() == concat_rows(pushed),
{
    lemma_concat_rows(b.flat(), b.offset_table());
    lemma_total_len(pushed);
}

/// An array made from a builder's flat buffer and offset table holds the same
/// rows, element for element and in the same order.
pub proof fn lemma_frozen_rows<T, const N: usize, const M: usize>(
    b: &JaggedArrayBuilder<T>,
    a: &JaggedArray<T, N, M>,
)
    requires
        b.wf(),
        a.elems@ == b.flat(),
        a.offsets@ == b.offset_table(),
    ensures
        a.wf(),
        a.rows().len() == N,
        a.rows() == b.rows(),
        forall|i: int| 0 <= i < N ==> #[trigger] a.rows()[i] == b.rows()[i],
{
}

/// The offsets of a built table never decrease, the last one is the element
/// count, and each row spans exactly as many positions as it holds elements.
pub proof fn lemma_offsets_monotone<T>(b: &JaggedArrayBuilder<T>)
    requires
        b.wf(),
    ensures
        forall|i: int|
            0 < i < b.offset_table().len() ==> b.offset_table()[i - 1]
                <= #[trigger] b.offset_table()[i],
        b.offset_table().len() > 0 ==> b.offset_table().last() == b.flat().len(),
        forall|i: int|
            0 <= i < b.offset_table().len() ==> 0 <= row_start(b.offset_table(), i) <= row_end(
                b.offset_table(),
                i,
            ) <= b.flat().len() && #[trigger] b.rows()[i].len() == row_end(b.offset_table(), i)
                - row_start(b.offset_table(), i),
{
    assert forall|i: int| 0 <= i < b.offset_table().len() implies 0 <= row_start(
        b.offset_table(),
        i,
    ) <= row_end(b.offset_table(), i) <= b.flat().len() && #[trigger] b.rows()[i].len() == row_end(
        b.offset_table(),
        i,
    ) - row_start(b.offset_table(), i) by {
        lemma_row_bounds(b.flat(), b.offset_table(), i);
    }
}

/// Pushing an empty row adds a row of length zero that starts and ends where
/// the previous row ended, keeps every earlier row, and leaves the flat buffer
/// as it was, so rows pushed later get the spans they would have had without
/// it.
pub proof fn lemma_empty_row<T>(before: &JaggedArrayBuilder<T>, after: &JaggedArrayBuilder<T>)
    requires
        before.wf(),
        after.wf(),
        after.rows() == before.rows().push(Seq::<T>::empty()),
        after.flat() == before.flat() + Seq::<T>::empty(),
        after.offset_table() == before.offset_table().push(before.flat().len() as usize),
    ensures
        after.flat() == before.flat(),
        after.rows().len() == before.rows().len() + 1,
        after.rows().last().len() == 0,
        after.rows().drop_last() == before.rows(),
        row_start(after.offset_table(), before.rows().len() as int) == before.flat().len(),
        row_end(after.offset_table(), before.rows().len() as int) == before.flat().len(),
{
    let n = before.offset_table().len() as int;
    assert(after.flat() =~= before.flat());
    assert(after.rows().drop_last() =~= before.rows());
    if n > 0 {
        assert(after.offset_table()[n - 1] == before.offset_table()[n - 1]);
    }
}

/// The descriptor that a bare builder gives for row `i` picks out of the flat
/// buffer exactly the row that the checked accessor of the equivalent full
/// array returns, over the same span.
pub proof fn lemma_descriptor_matches_array<T, const N: usize, const M: usize>(
    b: &BareJaggedArrayBuilder<T>,
    a: &JaggedArray<T, N, M>,
    d: &BareJaggedArrayIndex<T>,
    i: int,
)
    requires
        b.wf(),
        a.elems@ == b.flat(),
        a.offsets@ == b.offset_table(),
        0 <= i < b.rows().len(),
        d.offset_view() == row_start(b.offset_table(), i),
        d.len_view() == row_end(b.offset_table(), i) - row_start(b.offset_table(), i),
    ensures
        a.wf(),
        i < N,
        d.offset_view() == row_start(a.offsets@, i),
        d.offset_view() + d.len_view() == row_end(a.offsets@, i),
        d.offset_view() + d.len_view() <= M,
        a.elems@.subrange(d.offset_view() as int, d.offset_view() + d.len_view()) == a.rows()[i],
        a.rows()[i] == b.rows()[i],
{
    lemma_row_bounds(b.flat(), b.offset_table(), i);
}

} // verus!
