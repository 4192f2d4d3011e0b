use vstd::prelude::*;
use crate::error::RegridError;
use crate::csr::{check_offsets, offsets_error, row_count, row_width};

verus! {

/// Row `r` has an entry in the list.
pub open spec fn row_listed<T>(row_values: Seq<(usize, Vec<T>)>, r: int) -> bool {
    exists|i: int| 0 <= i < row_values.len() && (#[trigger] row_values[i]).0 == r
}

/// The list of per-row values fits the rows that `index_ptr` describes:
/// its entries come in strictly increasing row order, each names a row and
/// holds as many values as the row is wide, and every row that has a
/// candidate is listed. A row without candidates may be listed, with no
/// values, or left out.
pub open spec fn rows_match_offsets<T>(
    row_values: Seq<(usize, Vec<T>)>,
    index_ptr: Seq<usize>,
) -> bool {
    &&& forall|i: int, j: int|
        0 <= i < j < row_values.len()
            ==> (#[trigger] row_values[i]).0 < (#[trigger] row_values[j]).0
    &&& forall|i: int|
        0 <= i < row_values.len() ==> {
            &&& (#[trigger] row_values[i]).0 < row_count(index_ptr)
            &&& row_values[i].1@.len() == row_width(index_ptr, row_values[i].0 as int)
        }
    &&& forall|r: int|
        0 <= r < row_count(index_ptr) && #[trigger] row_width(index_ptr, r) > 0
            ==> row_listed(row_values, r)
}

/// `values` is the flat layout of `row_values`: it has one value per
/// candidate, and the value at place `k` of a listed row `r` stands at
/// position `index_ptr[r] + k`, where `indices` holds that candidate's column.
pub open spec fn is_flat_layout<T>(
    values: Seq<T>,
    row_values: Seq<(usize, Vec<T>)>,
    index_ptr: Seq<usize>,
) -> bool {
    &&& values.len() == index_ptr.last()
    &&& forall|i: int, k: int|
        0 <= i < row_values.len() && 0 <= k < row_values[i].1@.len()
            ==> values[index_ptr[row_values[i].0 as int] + k] == #[trigger] row_values[i].1@[k]
}

/// The error owed for laying `row_values` out under `index_ptr`, or `None`.
///
/// Offsets that are no partition give the error of `offsets_error`; a list
/// of values that does not fit the rows has the wrong shape.
pub open spec fn layout_error<T>(
    row_values: Seq<(usize, Vec<T>)>,
    index_ptr: Seq<usize>,
) -> Option<RegridError> {
    if offsets_error(index_ptr, index_ptr.last() as int) is Some {
        offsets_error(index_ptr, index_ptr.last() as int)
    } else if !rows_match_offsets(row_values, index_ptr) {
        Some(RegridError::InputShape)
    } else {
        None
    }
}

/// Appends the values of one row.
fn append_row<T: Copy>(values: &mut Vec<T>, row: &Vec<T>)
    ensures
        final(values)@ == old(values)@ + row@,
{
    let ghost before = values@;
    let mut k: usize = 0;
    while k < row.len()
        invariant
            k <= row@.len(),
            values@ == before + row@.subrange(0, k as int),
        decreases row@.len() - k,
    {
        let v: T = row[k];
        values.push(v);
        k += 1;
        assert(values@ =~= before + row@.subrange(0, k as int));
    }
    assert(row@.subrange(0, k as int) =~= row@);
}

/// Lays per-row values out in the flat order of the candidate structure.
///
/// Each entry of `row_values` holds a row's index and one value per
/// candidate of that row. Fails exactly where `layout_error` names an error,
/// with that error. Otherwise the result is the flat layout of `row_values`,
/// so that it lines up, position by position, with the `indices` that
/// `index_ptr` partitions. Rows without candidates may be listed or left out:
/// the result is the same.
pub fn assemble_values<T: Copy>(
    row_values: &Vec<(usize, Vec<T>)>,
    index_ptr: &Vec<usize>,
) -> (res: Result<Vec<T>, RegridError>)
    ensures
        match layout_error(row_values@, index_ptr@) {
            Some(e) => res matches Err(got) && got == e,
            None => res matches Ok(values) && is_flat_layout(values@, row_values@, index_ptr@),
        },
{
    let n: usize = index_ptr.len();
    if n == 0 {
        return Err(RegridError::InputShape);
    }
    match check_offsets(index_ptr, index_ptr[n - 1]) {
        Err(e) => {
            return Err(e);
        },
        Ok(()) => {},
    }
    let mut values: Vec<T> = Vec::new();
    let mut j: usize = 0;
    let mut r: usize = 0;
    while r < n - 1
        invariant
            n == index_ptr@.len(),
            r <= n - 1,
            j <= row_values@.len(),
            offsets_error(index_ptr@, index_ptr@.last() as int) is None,
            values@.len() == index_ptr@[r as int],
            forall|i: int| 0 <= i < j ==> (#[trigger] row_values@[i]).0 < r,
            forall|a: int, b: int|
                0 <= a < b < j ==> (#[trigger] row_values@[a]).0 < (#[trigger] row_values@[b]).0,
            forall|i: int|
                0 <= i < j ==> (#[trigger] row_values@[i]).1@.len() == row_width(
                    index_ptr@,
                    row_values@[i].0 as int,
                ),
            forall|q: int|
                0 <= q < r && #[trigger] row_width(index_ptr@, q) > 0 ==> exists|i: int|
                    0 <= i < j && (#[trigger] row_values@[i]).0 == q,
            forall|i: int, k: int|
                0 <= i < j && 0 <= k < row_values@[i].1@.len()
                    ==> values@[index_ptr@[row_values@[i].0 as int] + k]
                    == #[trigger] row_values@[i].1@[k],
            j < row_values@.len() && row_values@[j as int].0 < r ==> !rows_match_offsets(
                row_values@,
                index_ptr@,
            ),
        decreases n - r,
    {
        let lower: usize = index_ptr[r];
        let upper: usize = index_ptr[r + 1];
        if j < row_values.len() && row_values[j].0 == r {
            let row: &Vec<T> = &row_values[j].1;
            if row.len() != upper - lower {
                return Err(RegridError::InputShape);
            }
            let ghost before = values@;
            append_row(&mut values, row);
            proof {
                assert forall|i: int, k: int|
                    0 <= i < j + 1 && 0 <= k < row_values@[i].1@.len()
                    implies values@[index_ptr@[row_values@[i].0 as int] + k]
                    == #[trigger] row_values@[i].1@[k] by {
                    if i < j {
                        assert(index_ptr@[row_values@[i].0 + 1] <= index_ptr@[r as int]);
                        assert(before[index_ptr@[row_values@[i].0 as int] + k]
                            == row_values@[i].1@[k]);
                    }
                }
            }
            j += 1;
        } else {
            if lower != upper {
                proof {
                    if rows_match_offsets(row_values@, index_ptr@) {
                        assert(row_width(index_ptr@, r as int) > 0);
                        assert(row_listed(row_values@, r as int));
                        let i = choose|i: int|
                            0 <= i < row_values@.len() && (#[trigger] row_values@[i]).0 == r;
                        assert(i > j);
                        assert(row_values@[j as int].0 < row_values@[i].0);
                    }
                }
                return Err(RegridError::InputShape);
            }
        }
        r += 1;
    }
    if j < row_values.len() {
        return Err(RegridError::InputShape);
    }
    Ok(values)
}

} // verus!
