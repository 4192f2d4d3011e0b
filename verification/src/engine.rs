use vstd::prelude::*;
use crate::error::RegridError;
use crate::csr::{as_indices, cast, is_row_list};
use crate::plan::{candidate_error, candidate_rows, row_fits, row_in_bounds, rows_in_bounds};
use crate::assemble::{assemble_values, is_flat_layout};
use crate::laws::row_shaped_values_fit;

verus! {

/// `weigh` may be called on every row that fits the two meshes.
pub open spec fn weighs_rows_in_bounds<T, F: Fn(usize, &Vec<usize>) -> Result<Vec<T>, RegridError>>(
    weigh: F,
    n_source: int,
    n_target: int,
) -> bool {
    forall|row: usize, columns: &Vec<usize>|
        row_in_bounds(row, columns@, n_source, n_target) ==> #[trigger] call_requires(
            weigh,
            (row, columns),
        )
}

/// `out` holds the values of `row`: the row fits the meshes, `out` stands
/// under the row's index with one value per candidate, and where the row has
/// candidates, `weigh` returned those values for it. A row without
/// candidates has no values, and `weigh` is not asked.
pub open spec fn row_weighed<T, F: Fn(usize, &Vec<usize>) -> Result<Vec<T>, RegridError>>(
    weigh: F,
    row: (usize, Vec<usize>),
    n_source: int,
    n_target: int,
    out: (usize, Vec<T>),
) -> bool {
    &&& row_in_bounds(row.0, row.1@, n_source, n_target)
    &&& out.0 == row.0
    &&& out.1@.len() == row.1@.len()
    &&& row.1@.len() > 0 ==> call_ensures(weigh, (row.0, &row.1), Ok::<Vec<T>, RegridError>(out.1))
}

/// `row` is refused with `e`. A row that does not fit the meshes is out of
/// bounds, and `weigh` is not asked. For a row that fits and has candidates,
/// either `weigh` returned that error, or `weigh` returned some other number
/// of values than the row has candidates, which is the wrong shape.
pub open spec fn row_refused<T, F: Fn(usize, &Vec<usize>) -> Result<Vec<T>, RegridError>>(
    weigh: F,
    row: (usize, Vec<usize>),
    n_source: int,
    n_target: int,
    e: RegridError,
) -> bool {
    if !row_in_bounds(row.0, row.1@, n_source, n_target) {
        e == RegridError::IndexBounds
    } else {
        &&& row.1@.len() > 0
        &&& {
            ||| call_ensures(weigh, (row.0, &row.1), Err::<Vec<T>, RegridError>(e))
            ||| e == RegridError::InputShape && exists|v: Vec<T>|
                v@.len() != row.1@.len() && #[trigger] call_ensures(
                    weigh,
                    (row.0, &row.1),
                    Ok::<Vec<T>, RegridError>(v),
                )
        }
    }
}

/// `row` can have its values: it fits the meshes and has no candidates, or
/// `weigh` returned one value for each of them.
pub open spec fn row_accepted<T, F: Fn(usize, &Vec<usize>) -> Result<Vec<T>, RegridError>>(
    weigh: F,
    row: (usize, Vec<usize>),
    n_source: int,
    n_target: int,
) -> bool {
    exists|out: (usize, Vec<T>)| #[trigger] row_weighed(weigh, row, n_source, n_target, out)
}

/// The rows were taken in order and row `i` is the first that is refused,
/// with `e`: every row before it has its values.
pub open spec fn refused_at<T, F: Fn(usize, &Vec<usize>) -> Result<Vec<T>, RegridError>>(
    weigh: F,
    rows: Seq<(usize, Vec<usize>)>,
    n_source: int,
    n_target: int,
    i: int,
    e: RegridError,
) -> bool {
    &&& 0 <= i < rows.len()
    &&& row_refused(weigh, rows[i], n_source, n_target, e)
    &&& forall|q: int|
        0 <= q < i ==> row_accepted(weigh, #[trigger] rows[q], n_source, n_target)
}

/// Every row has its values, in the order of the rows.
pub open spec fn rows_weighed<T, F: Fn(usize, &Vec<usize>) -> Result<Vec<T>, RegridError>>(
    weigh: F,
    rows: Seq<(usize, Vec<usize>)>,
    n_source: int,
    n_target: int,
    row_values: Seq<(usize, Vec<T>)>,
) -> bool {
    &&& row_values.len() == rows.len()
    &&& forall|i: int|
        0 <= i < rows.len() ==> row_weighed(
            weigh,
            #[trigger] rows[i],
            n_source,
            n_target,
            row_values[i],
        )
}

/// Computes the values of every row with `weigh`, row by row.
///
/// Each row is first held against the meshes. `weigh` is then asked once for
/// each row that has candidates, in row order, and only with indices that
/// fit the meshes. The first row that is refused ends the work with its
/// error, and nothing is returned for the rows before it.
pub fn weigh_rows<T, F: Fn(usize, &Vec<usize>) -> Result<Vec<T>, RegridError>>(
    rows: &Vec<(usize, Vec<usize>)>,
    n_source: usize,
    n_target: usize,
    weigh: &F,
) -> (res: Result<Vec<(usize, Vec<T>)>, RegridError>)
    requires
        weighs_rows_in_bounds(*weigh, n_source as int, n_target as int),
    ensures
        match res {
            Ok(row_values) => rows_weighed(
                *weigh,
                rows@,
                n_source as int,
                n_target as int,
                row_values@,
            ),
            Err(e) => exists|i: int|
                refused_at(*weigh, rows@, n_source as int, n_target as int, i, e),
        },
{
    let mut row_values: Vec<(usize, Vec<T>)> = Vec::new();
    let mut i: usize = 0;
    while i < rows.len()
        invariant
            i <= rows@.len(),
            row_values@.len() == i,
            weighs_rows_in_bounds(*weigh, n_source as int, n_target as int),
            forall|q: int|
                0 <= q < i ==> row_weighed(
                    *weigh,
                    #[trigger] rows@[q],
                    n_source as int,
                    n_target as int,
                    row_values@[q],
                ),
        decreases rows@.len() - i,
    {
        let row: usize = rows[i].0;
        let columns: &Vec<usize> = &rows[i].1;
        proof {
            assert forall|q: int| 0 <= q < i implies row_accepted(
                *weigh,
                #[trigger] rows@[q],
                n_source as int,
                n_target as int,
            ) by {
                assert(row_weighed(
                    *weigh,
                    rows@[q],
                    n_source as int,
                    n_target as int,
                    row_values@[q],
                ));
            }
        }
        if !row_fits(row, columns, n_source, n_target) {
            assert(refused_at(
                *weigh,
                rows@,
                n_source as int,
                n_target as int,
                i as int,
                RegridError::IndexBounds,
            ));
            return Err(RegridError::IndexBounds);
        }
        if columns.len() == 0 {
            row_values.push((row, Vec::new()));
        } else {
            match weigh(row, columns) {
                Err(e) => {
                    assert(refused_at(*weigh, rows@, n_source as int, n_target as int, i as int, e));
                    return Err(e);
                },
                Ok(v) => {
                    if v.len() != columns.len() {
                        assert(refused_at(
                            *weigh,
                            rows@,
                            n_source as int,
                            n_target as int,
                            i as int,
                            RegridError::InputShape,
                        ));
                        return Err(RegridError::InputShape);
                    }
                    row_values.push((row, v));
                },
            }
        }
        i += 1;
    }
    Ok(row_values)
}

/// `values` is what weighing the candidate structure gives: the flat layout
/// of the values that `weigh` returned for the rows of the structure.
pub open spec fn is_weighed_layout<T, F: Fn(usize, &Vec<usize>) -> Result<Vec<T>, RegridError>>(
    weigh: F,
    indices: Seq<usize>,
    index_ptr: Seq<usize>,
    n_source: int,
    n_target: int,
    values: Seq<T>,
) -> bool {
    &&& values.len() == indices.len()
    &&& exists|rows: Vec<(usize, Vec<usize>)>, row_values: Vec<(usize, Vec<T>)>|
        {
            &&& is_row_list(rows@, indices, index_ptr)
            &&& #[trigger] rows_weighed(weigh, rows@, n_source, n_target, row_values@)
            &&& is_flat_layout(values, row_values@, index_ptr)
        }
}

/// Some row of the candidate structure is the first to be refused, with `e`.
pub open spec fn is_refused<T, F: Fn(usize, &Vec<usize>) -> Result<Vec<T>, RegridError>>(
    weigh: F,
    indices: Seq<usize>,
    index_ptr: Seq<usize>,
    n_source: int,
    n_target: int,
    e: RegridError,
) -> bool {
    exists|rows: Vec<(usize, Vec<usize>)>, i: int|
        {
            &&& is_row_list(rows@, indices, index_ptr)
            &&& rows_in_bounds(rows@, n_source, n_target)
            &&& #[trigger] refused_at(weigh, rows@, n_source, n_target, i, e)
        }
}

/// Weighs a candidate structure given as signed arrays over meshes of
/// `n_source` and `n_target` cells: checks it, splits it into rows, asks
/// `weigh` for the values of each row that has candidates, and lays the
/// values out in the order of `indices`.
///
/// A structure for which `candidate_error` names an error is refused with
/// that error before `weigh` is asked. Otherwise the result is the weighed
/// layout, with one value for each entry of `indices`, unless a row is
/// refused: then its error is returned and no values are.
pub fn regrid<T: Copy, F: Fn(usize, &Vec<usize>) -> Result<Vec<T>, RegridError>>(
    indices: Vec<i64>,
    index_ptr: Vec<i64>,
    n_source: usize,
    n_target: usize,
    weigh: F,
) -> (res: Result<Vec<T>, RegridError>)
    requires
        weighs_rows_in_bounds(weigh, n_source as int, n_target as int),
    ensures
        match candidate_error(indices@, index_ptr@, n_source as int, n_target as int) {
            Some(e) => res matches Err(got) && got == e,
            None => match res {
                Ok(values) => is_weighed_layout(
                    weigh,
                    as_indices(indices@),
                    as_indices(index_ptr@),
                    n_source as int,
                    n_target as int,
                    values@,
                ),
                Err(e) => is_refused(
                    weigh,
                    as_indices(indices@),
                    as_indices(index_ptr@),
                    n_source as int,
                    n_target as int,
                    e,
                ),
            },
        },
{
    let ghost flat = as_indices(indices@);
    let ghost offsets = as_indices(index_ptr@);
    let starts = match cast(index_ptr.clone()) {
        Ok(v) => v,
        Err(e) => {
            return Err(e);
        },
    };
    let rows = match candidate_rows(indices, index_ptr, n_source, n_target) {
        Ok(rows) => rows,
        Err(e) => {
            return Err(e);
        },
    };
    let row_values = match weigh_rows(&rows, n_source, n_target, &weigh) {
        Ok(row_values) => row_values,
        Err(e) => {
            return Err(e);
        },
    };
    proof {
        row_shaped_values_fit(flat, offsets, rows@, row_values@);
    }
    assemble_values(&row_values, &starts)
}

} // verus!
