//! The incremental builder of a full jagged array: a flat buffer and its
//! offset table, grown one row at a time.
use vstd::prelude::*;
use crate::spans::{lemma_append_row, lemma_row_bounds, offsets_valid, rows_of};

verus! {

/// Accumulates rows into a flat buffer and a table of cumulative row ends.
pub struct JaggedArrayBuilder<T> {
    elems: Vec<T>,
    offsets: Vec<usize>,
}

impl<T> JaggedArrayBuilder<T> {
    /// The flat buffer: every row's elements in push order.
    pub closed spec fn flat(&self) -> Seq<T> {
        self.elems@
    }

    /// The offset table: the exclusive end of each row in the flat buffer.
    pub closed spec fn offset_table(&self) -> Seq<usize> {
        self.offsets@
    }

    /// The offset table is non-decreasing and ends at the end of the buffer.
    pub open spec fn wf(&self) -> bool {
        offsets_valid(self.offset_table(), self.flat().len() as int)
    }

    /// The rows pushed so far, in push order.
    pub open spec fn rows(&self) -> Seq<Seq<T>> {
        rows_of(self.flat(), self.offset_table())
    }

    /// An empty builder.
    pub fn new() -> (r: JaggedArrayBuilder<T>)
        ensures
            r.wf(),
            r.rows() == Seq::<Seq<T>>::empty(),
            r.flat() == Seq::<T>::empty(),
    {
        JaggedArrayBuilder { elems: Vec::new(), offsets: Vec::new() }
    }

    /// Appends `elems_push` as the next row (it may be empty).
    pub fn push(&mut self, elems_push: Vec<T>)
        requires
            old(self).wf(),
        ensures
            final(self).wf(),
            final(self).rows() == old(self).rows().push(elems_push@),
            final(self).flat() == old(self).flat() + elems_push@,
            final(self).offset_table() == old(self).offset_table().push(
                (old(self).flat().len() + elems_push@.len()) as usize,
            ),
    {
        let mut row = elems_push;
        let ghost before = self.elems@;
        self.elems.append(&mut row);
        let end = self.elems.len();
        proof {
            lemma_append_row(before, self.offsets@, elems_push@, end);
        }
        self.offsets.push(end);
    }

    /// The number of rows pushed so far.
    pub fn len(&self) -> (r: usize)
        ensures
            r == self.rows().len(),
            r == self.offset_table().len(),
    {
        self.offsets.len()
    }

    /// The number of elements over all rows.
    pub fn elems_len(&self) -> (r: usize)
        ensures
            r == self.flat().len(),
    {
        self.elems.len()
    }

    /// Row `index`, by offset differencing.
    pub fn index(&self, index: usize) -> (r: &[T])
        requires
            self.wf(),
            index < self.rows().len(),
        ensures
            r@ == self.rows()[index as int],
    {
        proof {
            lemma_row_bounds(self.elems@, self.offsets@, index as int);
        }
        let end = self.offsets[index];
        let start = if index > 0 {
            self.offsets[index - 1]
        } else {
            0
        };
        vstd::slice::slice_subrange(self.elems.as_slice(), start, end)
    }

    /// The flat buffer, for whatever turns the builder into static data.
    pub fn elems(&self) -> (r: &[T])
        ensures
            r@ == self.flat(),
    {
        self.elems.as_slice()
    }

    /// The offset table, for whatever turns the builder into static data.
    pub fn offsets(&self) -> (r: &[usize])
        ensures
            r@ == self.offset_table(),
    {
        self.offsets.as_slice()
    }
}

} // verus!
