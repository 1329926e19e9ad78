//! Row handles, and the builder of a bare jagged array, which resolves each
//! row to a standalone `(offset, len)` descriptor at build time.
use vstd::prelude::*;
use core::marker::PhantomData;
use crate::spans::{lemma_append_row, lemma_row_bounds, offsets_valid, row_end, row_start, rows_of};

verus! {

/// A handle on row `index` of the full jagged array named `id`.
pub struct JaggedArrayIndex<T> {
    id: String,
    index: usize,
    phantom: PhantomData<T>,
}

impl<T> JaggedArrayIndex<T> {
    /// The name of the array the handle refers to.
    pub closed spec fn id_view(&self) -> Seq<char> {
        self.id@
    }

    /// The row the handle refers to.
    pub closed spec fn index_view(&self) -> usize {
        self.index
    }

    /// A handle on row `index` of the array named `id`.
    pub fn new(id: &str, index: usize) -> (r: JaggedArrayIndex<T>)
        ensures
            r.id_view() == id@,
            r.index_view() == index,
    {
        JaggedArrayIndex { id: id.to_owned(), index, phantom: PhantomData }
    }

    /// The name of the array the handle refers to.
    pub fn id(&self) -> (r: &str)
        ensures
            r@ == self.id_view(),
    {
        self.id.as_str()
    }

    /// The row the handle refers to.
    pub fn index(&self) -> (r: usize)
        ensures
            r == self.index_view(),
    {
        self.index
    }
}

/// The standalone bounds of one row of the bare jagged array named `id`:
/// `len` elements from `offset` on.
pub struct BareJaggedArrayIndex<T> {
    id: String,
    offset: usize,
    len: usize,
    phantom: PhantomData<T>,
}

impl<T> BareJaggedArrayIndex<T> {
    /// The name of the array the descriptor belongs to.
    pub closed spec fn id_view(&self) -> Seq<char> {
        self.id@
    }

    /// Where the row starts in the flat buffer.
    pub closed spec fn offset_view(&self) -> usize {
        self.offset
    }

    /// How many elements the row holds.
    pub closed spec fn len_view(&self) -> usize {
        self.len
    }

    /// The name of the array the descriptor belongs to.
    pub fn id(&self) -> (r: &str)
        ensures
            r@ == self.id_view(),
    {
        self.id.as_str()
    }

    /// Where the row starts in the flat buffer.
    pub fn offset(&self) -> (r: usize)
        ensures
            r == self.offset_view(),
    {
        self.offset
    }

    /// How many elements the row holds.
    pub fn len(&self) -> (r: usize)
        ensures
            r == self.len_view(),
    {
        self.len
    }
}

/// Accumulates rows into a flat buffer; the offset table stays here and is
/// used only to resolve row descriptors.
pub struct BareJaggedArrayBuilder<T> {
    elems: Vec<T>,
    offsets: Vec<usize>,
}

impl<T> BareJaggedArrayBuilder<T> {
    /// The flat buffer: every row's elements in push order.
    pub closed spec fn flat(&self) -> Seq<T> {
        self.elems@
    }

    /// The offset table: the exclusive end of each row in the flat buffer.
    pub closed spec fn offset_table(&self) -> Seq<usize> {
        self.offsets@
    }

    /// The offset table is non-decreasing and ends at the end of the buffer.
    pub open spec fn wf(&self) -> bool {
        offsets_valid(self.offset_table(), self.flat().len() as int)
    }

    /// The rows pushed so far, in push order.
    pub open spec fn rows(&self) -> Seq<Seq<T>> {
        rows_of(self.flat(), self.offset_table())
    }

    /// An empty builder.
    pub fn new() -> (r: BareJaggedArrayBuilder<T>)
        ensures
            r.wf(),
            r.rows() == Seq::<Seq<T>>::empty(),
            r.flat() == Seq::<T>::empty(),
    {
        BareJaggedArrayBuilder { elems: Vec::new(), offsets: Vec::new() }
    }

    /// Appends `elems_push` as the next row (it may be empty).
    pub fn push(&mut self, elems_push: Vec<T>)
        requires
            old(self).wf(),
        ensures
            final(self).wf(),
            final(self).rows() == old(self).rows().push(elems_push@),
            final(self).flat() == old(self).flat() + elems_push@,
            final(self).offset_table() == old(self).offset_table().push(
                (old(self).flat().len() + elems_push@.len()) as usize,
            ),
    {
        let mut row = elems_push;
        let ghost before = self.elems@;
        self.elems.append(&mut row);
        let end = self.elems.len();
        proof {
            lemma_append_row(before, self.offsets@, elems_push@, end);
        }
        self.offsets.push(end);
    }

    /// The number of rows pushed so far.
    pub fn len(&self) -> (r: usize)
        ensures
            r == self.rows().len(),
            r == self.offset_table().len(),
    {
        self.offsets.len()
    }

    /// The number of elements over all rows.
    pub fn elems_len(&self) -> (r: usize)
        ensures
            r == self.flat().len(),
    {
        self.elems.len()
    }

    /// The descriptor of row `index`, tagged with the array name `id`: its
    /// offset is the end of the previous row (0 for the first), its length
    /// the difference to its own end.
    pub fn get_precalc(&self, id: &str, index: usize) -> (r: BareJaggedArrayIndex<T>)
        requires
            self.wf(),
            index < self.rows().len(),
        ensures
            r.id_view() == id@,
            r.offset_view() == row_start(self.offset_table(), index as int),
            r.len_view() == row_end(self.offset_table(), index as int) - row_start(
                self.offset_table(),
                index as int,
            ),
    {
        proof {
            lemma_row_bounds(self.elems@, self.offsets@, index as int);
        }
        let offset = if index > 0 {
            self.offsets[index - 1]
        } else {
            0
        };
        let len = self.offsets[index] - offset;
        BareJaggedArrayIndex { id: id.to_owned(), offset, len, phantom: PhantomData }
    }

    /// Row `index`, by offset differencing.
    pub fn index(&self, index: usize) -> (r: &[T])
        requires
            self.wf(),
            index < self.rows().len(),
        ensures
            r@ == self.rows()[index as int],
    {
        proof {
            lemma_row_bounds(self.elems@, self.offsets@, index as int);
        }
        let end = self.offsets[index];
        let start = if index > 0 {
            self.offsets[index - 1]
        } else {
            0
        };
        vstd::slice::slice_subrange(self.elems.as_slice(), start, end)
    }

    /// The flat buffer, for whatever turns the builder into static data.
    pub fn elems(&self) -> (r: &[T])
        ensures
            r@ == self.flat(),
    {
        self.elems.as_slice()
    }
}

} // verus!
