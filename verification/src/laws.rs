use vstd::prelude::*;
use crate::error::RegridError;
use crate::csr::{
    all_representable, as_indices, is_row_list, offsets_error, offsets_well_formed, row_count,
    row_width,
};
use crate::plan::candidate_error;
use crate::engine::rows_weighed;
use crate::assemble::{is_flat_layout, layout_error, row_listed, rows_match_offsets};

verus! {

/// Position `i` lies in row `r`: between the row's two offsets.
pub open spec fn in_row(index_ptr: Seq<usize>, r: int, i: int) -> bool {
    &&& 0 <= r < row_count(index_ptr)
    &&& index_ptr[r] <= i < index_ptr[r + 1]
}

/// Walks the offsets from row `from` to the row that holds position `i`.
proof fn find_row(index_ptr: Seq<usize>, i: int, from: int) -> (r: int)
    requires
        0 <= from < index_ptr.len(),
        index_ptr[from] <= i < index_ptr.last(),
    ensures
        in_row(index_ptr, r, i),
    decreases index_ptr.len() - from,
{
    if i < index_ptr[from + 1] {
        from
    } else {
        find_row(index_ptr, i, from + 1)
    }
}

/// Every position of the flat sequence lies in some row.
pub proof fn position_has_row(index_ptr: Seq<usize>, total: int, i: int) -> (r: int)
    requires
        offsets_well_formed(index_ptr, total),
        0 <= i < total,
    ensures
        in_row(index_ptr, r, i),
{
    find_row(index_ptr, i, 0)
}

/// No position lies in two rows.
pub proof fn position_row_unique(index_ptr: Seq<usize>, total: int, i: int, r1: int, r2: int)
    requires
        offsets_well_formed(index_ptr, total),
        in_row(index_ptr, r1, i),
        in_row(index_ptr, r2, i),
    ensures
        r1 == r2,
{
    if r1 < r2 {
        assert(index_ptr[r1 + 1] <= index_ptr[r2]);
    } else if r2 < r1 {
        assert(index_ptr[r2 + 1] <= index_ptr[r1]);
    }
}

/// Offsets that decrease anywhere are refused as out of bounds.
pub proof fn decreasing_offsets_refused(index_ptr: Seq<usize>, total: int, r: int)
    requires
        0 <= r < index_ptr.len() - 1,
        index_ptr[r] > index_ptr[r + 1],
    ensures
        offsets_error(index_ptr, total) == Some(RegridError::IndexBounds),
{
    assert(!(index_ptr[r] <= index_ptr[r + 1]));
}

/// Signed offsets that decrease anywhere are refused as out of bounds,
/// whatever the rest of the candidate structure holds.
pub proof fn decreasing_candidates_refused(
    indices: Seq<i64>,
    index_ptr: Seq<i64>,
    n_source: int,
    n_target: int,
    r: int,
)
    requires
        0 <= r < index_ptr.len() - 1,
        index_ptr[r] > index_ptr[r + 1],
    ensures
        candidate_error(indices, index_ptr, n_source, n_target) == Some(RegridError::IndexBounds),
{
    if all_representable(indices) && all_representable(index_ptr) {
        let offsets = as_indices(index_ptr);
        assert(0 <= index_ptr[r] <= usize::MAX);
        assert(0 <= index_ptr[r + 1] <= usize::MAX);
        assert(offsets[r] > offsets[r + 1]);
        decreasing_offsets_refused(offsets, indices.len() as int, r);
    }
}

/// Positions are preserved. When the rows of a well-formed candidate
/// structure get one value per candidate and those values are laid out flat,
/// there are as many values as entries of `indices`, and every position `i`
/// holds the value of the one candidate whose column is `indices[i]`: the
/// result names the entry of `row_values` and the place in it.
pub proof fn position_preserved<T>(
    indices: Seq<usize>,
    index_ptr: Seq<usize>,
    rows: Seq<(usize, Vec<usize>)>,
    row_values: Seq<(usize, Vec<T>)>,
    values: Seq<T>,
    i: int,
) -> (at: (int, int))
    requires
        offsets_well_formed(index_ptr, indices.len() as int),
        is_row_list(rows, indices, index_ptr),
        rows_match_offsets(row_values, index_ptr),
        is_flat_layout(values, row_values, index_ptr),
        0 <= i < indices.len(),
    ensures
        values.len() == indices.len(),
        0 <= at.0 < row_values.len(),
        in_row(index_ptr, row_values[at.0].0 as int, i),
        at.1 == i - index_ptr[row_values[at.0].0 as int],
        0 <= at.1 < row_values[at.0].1@.len(),
        row_values[at.0].1@[at.1] == values[i],
        rows[row_values[at.0].0 as int].0 == row_values[at.0].0,
        rows[row_values[at.0].0 as int].1@.len() == row_values[at.0].1@.len(),
        rows[row_values[at.0].0 as int].1@[at.1] == indices[i],
{
    let r = position_has_row(index_ptr, indices.len() as int, i);
    assert(row_width(index_ptr, r) > 0);
    assert(row_listed(row_values, r));
    let a = choose|a: int| 0 <= a < row_values.len() && (#[trigger] row_values[a]).0 == r;
    let k = i - index_ptr[r];
    assert(index_ptr[r + 1] <= index_ptr[index_ptr.len() - 1]);
    assert(rows[r].0 == r);
    assert(rows[r].1@.len() == index_ptr[r + 1] - index_ptr[r]);
    assert(row_values[a].1@.len() == index_ptr[r + 1] - index_ptr[r]);
    assert(values[index_ptr[row_values[a].0 as int] + k] == row_values[a].1@[k]);
    (a, k)
}

/// Rows without candidates do not matter. Two lists of per-row values that
/// fit the same offsets and agree on every row that both list have the same
/// flat layout, whether or not they list the empty rows.
pub proof fn layout_ignores_empty_rows<T>(
    index_ptr: Seq<usize>,
    first_rows: Seq<(usize, Vec<T>)>,
    second_rows: Seq<(usize, Vec<T>)>,
    first: Seq<T>,
    second: Seq<T>,
)
    requires
        offsets_well_formed(index_ptr, index_ptr.last() as int),
        rows_match_offsets(first_rows, index_ptr),
        rows_match_offsets(second_rows, index_ptr),
        forall|a: int, b: int|
            0 <= a < first_rows.len() && 0 <= b < second_rows.len() && (
            #[trigger] first_rows[a]).0 == (#[trigger] second_rows[b]).0 ==> first_rows[a].1@
                == second_rows[b].1@,
        is_flat_layout(first, first_rows, index_ptr),
        is_flat_layout(second, second_rows, index_ptr),
    ensures
        first == second,
{
    assert forall|i: int| 0 <= i < first.len() implies first[i] == second[i] by {
        let r = position_has_row(index_ptr, index_ptr.last() as int, i);
        assert(row_width(index_ptr, r) > 0);
        assert(row_listed(first_rows, r));
        assert(row_listed(second_rows, r));
        let a = choose|a: int| 0 <= a < first_rows.len() && (#[trigger] first_rows[a]).0 == r;
        let b = choose|b: int| 0 <= b < second_rows.len() && (#[trigger] second_rows[b]).0 == r;
        let k = i - index_ptr[r];
        assert(first[index_ptr[first_rows[a].0 as int] + k] == first_rows[a].1@[k]);
        assert(second[index_ptr[second_rows[b].0 as int] + k] == second_rows[b].1@[k]);
    }
    assert(first =~= second);
}

/// A flat layout is determined by the rows: two layouts of the same
/// per-row values under the same offsets are equal.
pub proof fn flat_layout_unique<T>(
    index_ptr: Seq<usize>,
    row_values: Seq<(usize, Vec<T>)>,
    first: Seq<T>,
    second: Seq<T>,
)
    requires
        offsets_well_formed(index_ptr, index_ptr.last() as int),
        rows_match_offsets(row_values, index_ptr),
        is_flat_layout(first, row_values, index_ptr),
        is_flat_layout(second, row_values, index_ptr),
    ensures
        first == second,
{
    assert forall|a: int, b: int|
        0 <= a < row_values.len() && 0 <= b < row_values.len() && (#[trigger] row_values[a]).0 == (
        #[trigger] row_values[b]).0 implies row_values[a].1@ == row_values[b].1@ by {
        if a < b {
            assert(row_values[a].0 < row_values[b].0);
        } else if b < a {
            assert(row_values[b].0 < row_values[a].0);
        }
    }
    layout_ignores_empty_rows(index_ptr, row_values, row_values, first, second);
}

/// Values shaped like the row list can always be laid out. When every row
/// of the decompressed list of a well-formed candidate structure gets, under
/// its own index, as many values as it has columns, nothing is refused.
pub proof fn row_shaped_values_fit<T>(
    indices: Seq<usize>,
    index_ptr: Seq<usize>,
    rows: Seq<(usize, Vec<usize>)>,
    row_values: Seq<(usize, Vec<T>)>,
)
    requires
        offsets_well_formed(index_ptr, indices.len() as int),
        is_row_list(rows, indices, index_ptr),
        row_values.len() == rows.len(),
        forall|r: int|
            0 <= r < rows.len() ==> (#[trigger] row_values[r]).0 == rows[r].0
                && row_values[r].1@.len() == rows[r].1@.len(),
    ensures
        layout_error(row_values, index_ptr) is None,
{
    assert forall|i: int| 0 <= i < row_values.len() implies (#[trigger] row_values[i]).0
        < row_count(index_ptr) && row_values[i].1@.len() == row_width(
        index_ptr,
        row_values[i].0 as int,
    ) by {
        assert(rows[i].0 == i);
        assert(index_ptr[i] <= index_ptr[i + 1]);
        assert(index_ptr[i + 1] <= index_ptr[index_ptr.len() - 1]);
    }
    assert forall|i: int, j: int| 0 <= i < j < row_values.len() implies (
    #[trigger] row_values[i]).0 < (#[trigger] row_values[j]).0 by {
        assert(rows[i].0 == i);
        assert(rows[j].0 == j);
    }
    assert forall|r: int|
        0 <= r < row_count(index_ptr) && #[trigger] row_width(index_ptr, r) > 0
        implies row_listed(row_values, r) by {
        assert(rows[r].0 == r);
        assert(row_values[r].0 == r);
    }
}

/// Weighed values stand where their candidates stand. When the rows of a
/// well-formed candidate structure have been weighed and the values laid out
/// flat, every position `i` holds a value that `weigh` returned for the row
/// of `indices[i]`, at the place where that row lists `indices[i]`: the
/// result names the row and the place.
pub proof fn weighed_position<T, F: Fn(usize, &Vec<usize>) -> Result<Vec<T>, RegridError>>(
    weigh: F,
    indices: Seq<usize>,
    index_ptr: Seq<usize>,
    n_source: int,
    n_target: int,
    rows: Seq<(usize, Vec<usize>)>,
    row_values: Seq<(usize, Vec<T>)>,
    values: Seq<T>,
    i: int,
) -> (at: (int, int))
    requires
        offsets_well_formed(index_ptr, indices.len() as int),
        is_row_list(rows, indices, index_ptr),
        rows_weighed(weigh, rows, n_source, n_target, row_values),
        is_flat_layout(values, row_values, index_ptr),
        0 <= i < indices.len(),
    ensures
        values.len() == indices.len(),
        in_row(index_ptr, at.0, i),
        at.1 == i - index_ptr[at.0],
        rows[at.0].0 == at.0,
        rows[at.0].1@[at.1] == indices[i],
        indices[i] < n_source,
        row_values[at.0].1@[at.1] == values[i],
        call_ensures(
            weigh,
            (rows[at.0].0, &rows[at.0].1),
            Ok::<Vec<T>, RegridError>(row_values[at.0].1),
        ),
{
    row_shaped_values_fit(indices, index_ptr, rows, row_values);
    let at = position_preserved(indices, index_ptr, rows, row_values, values, i);
    let r = row_values[at.0].0 as int;
    assert(rows[at.0].0 == at.0);
    assert(row_values[at.0].0 == rows[at.0].0);
    assert(r == at.0);
    (r, at.1)
}

/// Rows are kept whole. The stretch of the flat values that belongs to row
/// `r` is exactly the list of values that the row was given, so whatever
/// holds of the values that `weigh` returns for a row, of each of them or of
/// their sum, holds of that stretch of the result.
pub proof fn weighed_row_is_kept<T, F: Fn(usize, &Vec<usize>) -> Result<Vec<T>, RegridError>>(
    weigh: F,
    indices: Seq<usize>,
    index_ptr: Seq<usize>,
    n_source: int,
    n_target: int,
    rows: Seq<(usize, Vec<usize>)>,
    row_values: Seq<(usize, Vec<T>)>,
    values: Seq<T>,
    r: int,
)
    requires
        offsets_well_formed(index_ptr, indices.len() as int),
        is_row_list(rows, indices, index_ptr),
        rows_weighed(weigh, rows, n_source, n_target, row_values),
        is_flat_layout(values, row_values, index_ptr),
        0 <= r < row_count(index_ptr),
    ensures
        index_ptr[r] <= index_ptr[r + 1] <= values.len(),
        values.subrange(index_ptr[r] as int, index_ptr[r + 1] as int) == row_values[r].1@,
        row_width(index_ptr, r) > 0 ==> call_ensures(
            weigh,
            (rows[r].0, &rows[r].1),
            Ok::<Vec<T>, RegridError>(row_values[r].1),
        ),
{
    assert(index_ptr[r] <= index_ptr[r + 1]);
    assert(index_ptr[r + 1] <= index_ptr[index_ptr.len() - 1]);
    assert(rows[r].0 == r);
    assert(row_values[r].0 == rows[r].0);
    assert(rows[r].1@.len() == row_width(index_ptr, r));
    let stretch = values.subrange(index_ptr[r] as int, index_ptr[r + 1] as int);
    assert forall|k: int| 0 <= k < stretch.len() implies stretch[k] == row_values[r].1@[k] by {
        assert(values[index_ptr[row_values[r].0 as int] + k] == row_values[r].1@[k]);
    }
    assert(stretch =~= row_values[r].1@);
}

} // verus!
