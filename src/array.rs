//! The frozen forms: fixed-size storage that a finished builder is turned into.
use vstd::prelude::*;
use crate::spans::{lemma_row_bounds, offsets_valid, rows_of};

verus! {

/// Why a checked row access failed.
#[derive(Debug, Clone, Copy, PartialEq, Eq, Structural)]
pub enum JaggedError {
    /// The row index is not below the number of rows.
    IndexOutOfRange,
}

/// A jagged array of `N` rows over `M` elements, stored as the flat buffer and
/// the offset table of the builder it was made from.
pub struct JaggedArray<T, const N: usize, const M: usize> {
    pub elems: [T; M],
    pub offsets: [usize; N],
}

impl<T, const N: usize, const M: usize> JaggedArray<T, N, M> {
    /// The offset table is non-decreasing and ends at the end of the buffer,
    /// as it is when it was filled by a builder.
    pub open spec fn wf(&self) -> bool {
        offsets_valid(self.offsets@, M as int)
    }

    /// The rows, in order.
    pub open spec fn rows(&self) -> Seq<Seq<T>> {
        rows_of(self.elems@, self.offsets@)
    }

    /// The number of rows.
    pub fn len(&self) -> (r: usize)
        ensures
            r == N,
            r == self.rows().len(),
    {
        N
    }

    /// Row `index` without a bounds check of its own: the caller owes
    /// `index < N`, and the array's table must come from a builder.
    pub fn get_const(&self, index: usize) -> (r: &[T])
        requires
            self.wf(),
            index < N,
        ensures
            r@ == self.rows()[index as int],
    {
        proof {
            lemma_row_bounds(self.elems@, self.offsets@, index as int);
        }
        let end = self.offsets[index];
        if index > 0 {
            let start = self.offsets[index - 1];
            vstd::slice::slice_subrange(self.elems.as_slice(), start, end)
        } else {
            vstd::slice::slice_subrange(self.elems.as_slice(), 0, end)
        }
    }

    /// Row `index`; out of range is a caller error.
    pub fn index(&self, index: usize) -> (r: &[T])
        requires
            self.wf(),
            index < N,
        ensures
            r@ == self.rows()[index as int],
    {
        proof {
            lemma_row_bounds(self.elems@, self.offsets@, index as int);
        }
        if index > 0 {
            vstd::slice::slice_subrange(
                self.elems.as_slice(),
                self.offsets[index - 1],
                self.offsets[index],
            )
        } else {
            vstd::slice::slice_subrange(self.elems.as_slice(), 0, self.offsets[index])
        }
    }

    /// Row `index`, or `IndexOutOfRange` when `index >= N`.
    pub fn get(&self, index: usize) -> (r: Result<&[T], JaggedError>)
        requires
            self.wf(),
        ensures
            index < N ==> r is Ok && r->Ok_0@ == self.rows()[index as int],
            index >= N ==> r == Err::<&[T], JaggedError>(JaggedError::IndexOutOfRange),
    {
        if index < N {
            Ok(self.get_const(index))
        } else {
            Err(JaggedError::IndexOutOfRange)
        }
    }
}

/// A jagged array that keeps only its flat buffer of `M` elements; each row
/// is reached through a descriptor worked out when the array was built.
pub struct BareJaggedArray<T, const M: usize> {
    pub elems: [T; M],
}

/// The `len` elements of `elems` from `offset` on: how a row descriptor of a
/// bare array is resolved.
pub fn __retrieve_raw_internal<T>(elems: &[T], offset: usize, len: usize) -> (r: &[T])
    requires
        offset + len <= elems@.len(),
    ensures
        r@ == elems@.subrange(offset as int, offset + len),
{
    let total = elems.len();
    vstd::slice::slice_subrange(elems, offset, offset + len)
}

} // verus!
