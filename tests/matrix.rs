use metamix::matrix::{position_lookup, subset_columns};
use metamix::reduce::{present_columns, retained_columns};

// 3 rows x 4 columns:
// row 0: cols 0, 2
// row 1: (empty)
// row 2: cols 1, 2, 3
const OFFSETS: [usize; 4] = [0, 2, 2, 5];
const COLS: [usize; 5] = [0, 2, 1, 2, 3];

#[test]
fn subset_keeps_listed_columns_renumbered() {
    let r = subset_columns(3, 4, &OFFSETS, &COLS, &[2, 3]);
    assert_eq!(r.row_offsets, vec![0, 1, 1, 3]);
    assert_eq!(r.col_indices, vec![0, 0, 1]);
    assert_eq!(r.source, vec![1, 3, 4]);
}

#[test]
fn subset_renumbers_in_the_order_given() {
    let r = subset_columns(3, 4, &OFFSETS, &COLS, &[3, 0]);
    assert_eq!(r.row_offsets, vec![0, 1, 1, 2]);
    assert_eq!(r.col_indices, vec![1, 0]);
    assert_eq!(r.source, vec![0, 4]);
}

#[test]
fn keeping_all_columns_is_the_identity() {
    let r = subset_columns(3, 4, &OFFSETS, &COLS, &[0, 1, 2, 3]);
    assert_eq!(r.row_offsets, OFFSETS.to_vec());
    assert_eq!(r.col_indices, COLS.to_vec());
    assert_eq!(r.source, vec![0, 1, 2, 3, 4]);
}

#[test]
fn keeping_no_column_empties_every_row() {
    let r = subset_columns(3, 4, &OFFSETS, &COLS, &[]);
    assert_eq!(r.row_offsets, vec![0, 0, 0, 0]);
    assert!(r.col_indices.is_empty());
}

#[test]
fn lookup_gives_positions() {
    assert_eq!(position_lookup(&[3, 1], 4), vec![None, Some(1), None, Some(0)]);
}

#[test]
fn present_columns_are_sorted_and_distinct() {
    assert_eq!(present_columns(&[4, 1, 4, 0, 1], 6), vec![0, 1, 4]);
    assert_eq!(present_columns(&[], 3), Vec::<usize>::new());
}

#[test]
fn retention_uses_the_effective_count() {
    // two reads, abundances 0.5 each: round(0.5 * 2) = 1 meets cutoff 1
    assert_eq!(retained_columns(&[1, 1], 1), vec![0, 1]);
    assert_eq!(retained_columns(&[0, 3, 1, 2], 2), vec![1, 3]);
    assert_eq!(retained_columns(&[0, 0, 5], 0), vec![0, 1, 2]);
}
