use rustifact_extra::array::{__retrieve_raw_internal, BareJaggedArray, JaggedArray, JaggedError};
use rustifact_extra::bare::{BareJaggedArrayBuilder, JaggedArrayIndex};
use rustifact_extra::builder::JaggedArrayBuilder;

fn sample_builder() -> JaggedArrayBuilder<i32> {
    let mut b = JaggedArrayBuilder::new();
    b.push(vec![1, 2, 3]);
    b.push(vec![4]);
    b.push(vec![5, 6]);
    b
}

fn sample_bare_builder() -> BareJaggedArrayBuilder<i32> {
    let mut b = BareJaggedArrayBuilder::new();
    b.push(vec![1, 2, 3]);
    b.push(vec![4]);
    b.push(vec![5, 6]);
    b
}

fn freeze(b: &JaggedArrayBuilder<i32>) -> JaggedArray<i32, 3, 6> {
    JaggedArray {
        elems: b.elems().try_into().unwrap(),
        offsets: b.offsets().try_into().unwrap(),
    }
}

#[test]
fn end_to_end_example() {
    let b = sample_builder();
    assert_eq!(b.len(), 3);
    assert_eq!(b.elems_len(), 6);
    assert_eq!(b.index(0), [1, 2, 3]);
    assert_eq!(b.index(1), [4]);
    assert_eq!(b.index(2), [5, 6]);
    let a = freeze(&b);
    assert_eq!(a.len(), 3);
    assert_eq!(a.index(0), [1, 2, 3]);
    assert_eq!(a.index(1), [4]);
    assert_eq!(a.index(2), [5, 6]);
}

#[test]
fn new_builder_is_empty() {
    let b: JaggedArrayBuilder<u8> = JaggedArrayBuilder::new();
    assert_eq!(b.len(), 0);
    assert_eq!(b.elems_len(), 0);
    assert!(b.elems().is_empty());
    assert!(b.offsets().is_empty());
}

#[test]
fn counts_follow_pushed_rows() {
    let rows: Vec<Vec<u16>> = vec![vec![7, 8], vec![], vec![9], vec![10, 11, 12, 13]];
    let mut b = JaggedArrayBuilder::new();
    for r in rows.iter() {
        b.push(r.clone());
    }
    assert_eq!(b.len(), 4);
    assert_eq!(b.elems_len(), 7);
    for (i, r) in rows.iter().enumerate() {
        assert_eq!(b.index(i), r.as_slice());
    }
    assert_eq!(b.elems(), [7, 8, 9, 10, 11, 12, 13]);
}

#[test]
fn offsets_are_cumulative_and_monotone() {
    let b = sample_builder();
    assert_eq!(b.offsets(), [3, 4, 6]);
    let offs = b.offsets();
    for i in 1..offs.len() {
        assert!(offs[i] >= offs[i - 1]);
    }
    assert_eq!(offs[offs.len() - 1], b.elems_len());
}

#[test]
fn empty_rows_do_not_shift_later_rows() {
    let mut b = JaggedArrayBuilder::new();
    b.push(vec![1, 2]);
    b.push(vec![]);
    b.push(vec![3]);
    b.push(vec![]);
    assert_eq!(b.len(), 4);
    assert_eq!(b.elems_len(), 3);
    assert_eq!(b.offsets(), [2, 2, 3, 3]);
    assert_eq!(b.index(0), [1, 2]);
    assert!(b.index(1).is_empty());
    assert_eq!(b.index(2), [3]);
    assert!(b.index(3).is_empty());
}

#[test]
fn empty_first_row() {
    let mut b = JaggedArrayBuilder::new();
    b.push(Vec::<i32>::new());
    b.push(vec![5]);
    assert_eq!(b.offsets(), [0, 1]);
    assert!(b.index(0).is_empty());
    assert_eq!(b.index(1), [5]);
}

#[test]
fn checked_access_in_range() {
    let a = freeze(&sample_builder());
    assert_eq!(a.get(0), Ok(&[1, 2, 3][..]));
    assert_eq!(a.get(1), Ok(&[4][..]));
    assert_eq!(a.get(2), Ok(&[5, 6][..]));
}

#[test]
fn checked_access_out_of_range() {
    let a = freeze(&sample_builder());
    assert_eq!(a.get(3), Err(JaggedError::IndexOutOfRange));
    assert_eq!(a.get(usize::MAX), Err(JaggedError::IndexOutOfRange));
}

#[test]
fn unchecked_access_matches_checked() {
    let a = freeze(&sample_builder());
    for i in 0..a.len() {
        assert_eq!(Ok(a.get_const(i)), a.get(i));
        assert_eq!(a.get_const(i), a.index(i));
    }
}

#[test]
fn empty_array_rejects_every_index() {
    let a: JaggedArray<i32, 0, 0> = JaggedArray { elems: [], offsets: [] };
    assert_eq!(a.len(), 0);
    assert_eq!(a.get(0), Err(JaggedError::IndexOutOfRange));
}

#[test]
fn descriptors_are_offset_and_length() {
    let b = sample_bare_builder();
    let d0 = b.get_precalc("NUM_ARRAY", 0);
    let d1 = b.get_precalc("NUM_ARRAY", 1);
    let d2 = b.get_precalc("NUM_ARRAY", 2);
    assert_eq!((d0.offset(), d0.len()), (0, 3));
    assert_eq!((d1.offset(), d1.len()), (3, 1));
    assert_eq!((d2.offset(), d2.len()), (4, 2));
    assert_eq!(d1.id(), "NUM_ARRAY");
}

#[test]
fn descriptors_match_full_array_rows() {
    let bare = sample_bare_builder();
    let full = freeze(&sample_builder());
    let frozen: BareJaggedArray<i32, 6> = BareJaggedArray { elems: bare.elems().try_into().unwrap() };
    for i in 0..bare.len() {
        let d = bare.get_precalc("ROWS", i);
        let row = __retrieve_raw_internal(&frozen.elems, d.offset(), d.len());
        assert_eq!(Ok(row), full.get(i));
        assert_eq!(row, bare.index(i));
    }
}

#[test]
fn bare_builder_counts() {
    let b = sample_bare_builder();
    assert_eq!(b.len(), 3);
    assert_eq!(b.elems_len(), 6);
    assert_eq!(b.elems(), [1, 2, 3, 4, 5, 6]);
    assert_eq!(b.index(0), [1, 2, 3]);
    assert_eq!(b.index(2), [5, 6]);
}

#[test]
fn descriptor_of_empty_row() {
    let mut b = BareJaggedArrayBuilder::new();
    b.push(vec!['a']);
    b.push(vec![]);
    b.push(vec!['b', 'c']);
    let d = b.get_precalc("CHARS", 1);
    assert_eq!((d.offset(), d.len()), (1, 0));
    let d = b.get_precalc("CHARS", 2);
    assert_eq!((d.offset(), d.len()), (1, 2));
}

#[test]
fn retrieve_raw_picks_span() {
    let elems = [10, 20, 30, 40];
    assert_eq!(__retrieve_raw_internal(&elems, 1, 2), [20, 30]);
    assert!(__retrieve_raw_internal(&elems, 4, 0).is_empty());
}

#[test]
fn row_handle_keeps_name_and_index() {
    let h: JaggedArrayIndex<i32> = JaggedArrayIndex::new("NUM_ARRAY", 2);
    assert_eq!(h.id(), "NUM_ARRAY");
    assert_eq!(h.index(), 2);
}
