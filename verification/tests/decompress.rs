use grid_weights::csr::{cast, check_offsets, uncompress_sparse_indices};
use grid_weights::error::RegridError;

#[test]
fn cast_keeps_each_value_in_place() {
    assert_eq!(cast(vec![0, 7, 3, 42]), Ok(vec![0usize, 7, 3, 42]));
}

#[test]
fn cast_of_nothing_is_nothing() {
    assert_eq!(cast(Vec::new()), Ok(Vec::new()));
}

#[test]
fn cast_refuses_a_negative_entry() {
    assert_eq!(cast(vec![0, -1, 2]), Err(RegridError::IndexBounds));
    assert_eq!(cast(vec![i64::MIN]), Err(RegridError::IndexBounds));
}

#[test]
fn cast_takes_the_largest_signed_value() {
    assert_eq!(cast(vec![i64::MAX]), Ok(vec![i64::MAX as usize]));
}

#[test]
fn offsets_that_partition_pass() {
    assert_eq!(check_offsets(&vec![0, 2, 2, 4], 4), Ok(()));
    assert_eq!(check_offsets(&vec![0], 0), Ok(()));
}

#[test]
fn offsets_without_entries_have_the_wrong_shape() {
    assert_eq!(check_offsets(&Vec::new(), 0), Err(RegridError::InputShape));
}

#[test]
fn offsets_that_decrease_are_out_of_bounds() {
    assert_eq!(check_offsets(&vec![0, 3, 2, 4], 4), Err(RegridError::IndexBounds));
}

#[test]
fn rows_come_out_in_order_with_their_columns() {
    let rows = uncompress_sparse_indices(vec![5, 1, 1, 9], vec![0, 2, 2, 4]).unwrap();
    assert_eq!(rows, vec![(0usize, vec![5usize, 1]), (1, vec![]), (2, vec![1, 9])]);
}

#[test]
fn a_structure_without_rows_gives_no_rows() {
    assert_eq!(uncompress_sparse_indices(Vec::new(), vec![0]), Ok(Vec::new()));
}

#[test]
fn rows_without_candidates_are_kept_empty() {
    let rows = uncompress_sparse_indices(Vec::new(), vec![0, 0, 0]).unwrap();
    assert_eq!(rows, vec![(0usize, Vec::new()), (1, Vec::new())]);
}

#[test]
fn decreasing_offsets_give_no_rows() {
    let res = uncompress_sparse_indices(vec![0, 1, 2, 3], vec![0, 3, 2, 4]);
    assert_eq!(res, Err(RegridError::IndexBounds));
}

#[test]
fn a_decrease_in_the_last_step_is_found() {
    let res = uncompress_sparse_indices(vec![0, 1], vec![0, 1, 3, 2]);
    assert_eq!(res, Err(RegridError::IndexBounds));
}

#[test]
fn offsets_past_the_end_are_out_of_bounds() {
    let res = uncompress_sparse_indices(vec![0, 1], vec![0, 1, 3]);
    assert_eq!(res, Err(RegridError::IndexBounds));
}

#[test]
fn offsets_that_stop_short_are_out_of_bounds() {
    let res = uncompress_sparse_indices(vec![0, 1, 2], vec![0, 1, 2]);
    assert_eq!(res, Err(RegridError::IndexBounds));
}

#[test]
fn offsets_that_start_late_are_out_of_bounds() {
    let res = uncompress_sparse_indices(vec![0, 1, 2], vec![1, 2, 3]);
    assert_eq!(res, Err(RegridError::IndexBounds));
}

#[test]
fn missing_offsets_have_the_wrong_shape() {
    let res = uncompress_sparse_indices(Vec::new(), Vec::new());
    assert_eq!(res, Err(RegridError::InputShape));
    let res = uncompress_sparse_indices(vec![1], Vec::new());
    assert_eq!(res, Err(RegridError::InputShape));
}
