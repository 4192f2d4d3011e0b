use vstd::prelude::*;
use crate::error::RegridError;
use crate::csr::{
    all_representable, as_indices, cast, is_row_list, offsets_error, offsets_well_formed,
    row_count, uncompress_sparse_indices,
};

verus! {

/// The candidate structure fits the two meshes: there are no more rows than
/// target cells, and every column names a source cell.
pub open spec fn cells_in_bounds(
    indices: Seq<usize>,
    index_ptr: Seq<usize>,
    n_source: int,
    n_target: int,
) -> bool {
    &&& row_count(index_ptr) <= n_target
    &&& forall|i: int| 0 <= i < indices.len() ==> #[trigger] indices[i] < n_source
}

/// The row names a target cell and its columns name source cells.
pub open spec fn row_in_bounds(
    row: usize,
    columns: Seq<usize>,
    n_source: int,
    n_target: int,
) -> bool {
    &&& row < n_target
    &&& forall|k: int| 0 <= k < columns.len() ==> #[trigger] columns[k] < n_source
}

/// Tells whether a row fits meshes of `n_source` and `n_target` cells.
pub fn row_fits(row: usize, columns: &Vec<usize>, n_source: usize, n_target: usize) -> (fits: bool)
    ensures
        fits == row_in_bounds(row, columns@, n_source as int, n_target as int),
{
    if row >= n_target {
        return false;
    }
    let mut k: usize = 0;
    while k < columns.len()
        invariant
            k <= columns@.len(),
            row < n_target,
            forall|j: int| 0 <= j < k ==> #[trigger] columns@[j] < n_source,
        decreases columns@.len() - k,
    {
        if columns[k] >= n_source {
            return false;
        }
        k += 1;
    }
    true
}

/// Every row of the list names a target cell, and every column in it a
/// source cell.
pub open spec fn rows_in_bounds(
    rows: Seq<(usize, Vec<usize>)>,
    n_source: int,
    n_target: int,
) -> bool {
    forall|r: int|
        0 <= r < rows.len() ==> row_in_bounds(
            (#[trigger] rows[r]).0,
            rows[r].1@,
            n_source,
            n_target,
        )
}

/// Checks a candidate structure against the sizes of the two meshes.
///
/// Succeeds exactly when `cells_in_bounds` holds; anything else is an index
/// out of bounds.
pub fn check_bounds(
    indices: &Vec<usize>,
    index_ptr: &Vec<usize>,
    n_source: usize,
    n_target: usize,
) -> (res: Result<(), RegridError>)
    ensures
        cells_in_bounds(indices@, index_ptr@, n_source as int, n_target as int) <==> res is Ok,
        res matches Err(e) ==> e == RegridError::IndexBounds,
{
    if index_ptr.len() >= 1 && index_ptr.len() - 1 > n_target {
        return Err(RegridError::IndexBounds);
    }
    let mut i: usize = 0;
    while i < indices.len()
        invariant
            i <= indices@.len(),
            forall|j: int| 0 <= j < i ==> #[trigger] indices@[j] < n_source,
        decreases indices@.len() - i,
    {
        if indices[i] >= n_source {
            return Err(RegridError::IndexBounds);
        }
        i += 1;
    }
    Ok(())
}

/// The error owed for a candidate structure given as signed arrays, over
/// meshes of `n_source` and `n_target` cells, or `None` where it is valid.
///
/// An empty `index_ptr` whose entries and whose `indices` are all
/// representable has the wrong shape. Every other defect is an index out of
/// bounds: an entry that is no index, offsets that do not partition
/// `indices`, more rows than target cells, a column that names no source cell.
pub open spec fn candidate_error(
    indices: Seq<i64>,
    index_ptr: Seq<i64>,
    n_source: int,
    n_target: int,
) -> Option<RegridError> {
    if !all_representable(indices) || !all_representable(index_ptr) {
        Some(RegridError::IndexBounds)
    } else if offsets_error(as_indices(index_ptr), indices.len() as int) is Some {
        offsets_error(as_indices(index_ptr), indices.len() as int)
    } else if !cells_in_bounds(as_indices(indices), as_indices(index_ptr), n_source, n_target) {
        Some(RegridError::IndexBounds)
    } else {
        None
    }
}

/// Turns the two arrays of a candidate structure into the work list of the
/// weight computation: one entry per target row, in row order, with the
/// row's candidate source cells in the order of `indices`.
///
/// Fails exactly where `candidate_error` names an error, with that error.
/// On success every index in the list is valid for its mesh.
pub fn candidate_rows(
    indices: Vec<i64>,
    index_ptr: Vec<i64>,
    n_source: usize,
    n_target: usize,
) -> (res: Result<Vec<(usize, Vec<usize>)>, RegridError>)
    ensures
        match candidate_error(indices@, index_ptr@, n_source as int, n_target as int) {
            Some(e) => res matches Err(got) && got == e,
            None => res matches Ok(rows) && is_row_list(
                rows@,
                as_indices(indices@),
                as_indices(index_ptr@),
            ) && rows_in_bounds(rows@, n_source as int, n_target as int),
        },
{
    let ghost flat = as_indices(indices@);
    let ghost offsets = as_indices(index_ptr@);
    let columns = match cast(indices) {
        Ok(v) => v,
        Err(e) => {
            return Err(e);
        },
    };
    let starts = match cast(index_ptr) {
        Ok(v) => v,
        Err(e) => {
            return Err(e);
        },
    };
    if starts.len() == 0 {
        return Err(RegridError::InputShape);
    }
    match check_bounds(&columns, &starts, n_source, n_target) {
        Ok(()) => {},
        Err(e) => {
            return Err(e);
        },
    }
    match uncompress_sparse_indices(columns, starts) {
        Err(e) => Err(e),
        Ok(rows) => {
            proof {
                lemma_rows_in_bounds(rows@, flat, offsets, n_source as int, n_target as int);
            }
            Ok(rows)
        },
    }
}

/// The rows of a structure that fits the meshes hold only valid indices.
pub proof fn lemma_rows_in_bounds(
    rows: Seq<(usize, Vec<usize>)>,
    indices: Seq<usize>,
    index_ptr: Seq<usize>,
    n_source: int,
    n_target: int,
)
    requires
        offsets_well_formed(index_ptr, indices.len() as int),
        is_row_list(rows, indices, index_ptr),
        cells_in_bounds(indices, index_ptr, n_source, n_target),
    ensures
        rows_in_bounds(rows, n_source, n_target),
{
    assert forall|r: int| 0 <= r < rows.len() implies row_in_bounds(
        (#[trigger] rows[r]).0,
        rows[r].1@,
        n_source,
        n_target,
    ) by {
        assert(index_ptr[r + 1] <= index_ptr[index_ptr.len() - 1]);
        assert forall|k: int| 0 <= k < rows[r].1@.len() implies #[trigger] rows[r].1@[k]
            < n_source by {
            assert(rows[r].1@[k] == indices[index_ptr[r] + k]);
        }
    }
}

} // verus!
