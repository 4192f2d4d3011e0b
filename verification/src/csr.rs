use vstd::prelude::*;
use crate::error::RegridError;

verus! {

/// The offsets never decrease.
pub open spec fn offsets_in_order(index_ptr: Seq<usize>) -> bool {
    forall|i: int, j: int| 0 <= i <= j < index_ptr.len() ==> index_ptr[i] <= index_ptr[j]
}

/// `index_ptr` partitions a flat sequence of `total` entries into rows:
/// it has one offset more than there are rows, starts at zero, never
/// decreases and ends at `total`.
pub open spec fn offsets_well_formed(index_ptr: Seq<usize>, total: int) -> bool {
    &&& index_ptr.len() >= 1
    &&& index_ptr[0] == 0
    &&& index_ptr.last() == total
    &&& offsets_in_order(index_ptr)
}

/// The error owed for `index_ptr` over a flat sequence of `total` entries,
/// or `None` where the offsets are well formed.
pub open spec fn offsets_error(index_ptr: Seq<usize>, total: int) -> Option<RegridError> {
    if index_ptr.len() == 0 {
        Some(RegridError::InputShape)
    } else if !offsets_well_formed(index_ptr, total) {
        Some(RegridError::IndexBounds)
    } else {
        None
    }
}

/// The number of rows that `index_ptr` describes.
pub open spec fn row_count(index_ptr: Seq<usize>) -> int {
    index_ptr.len() - 1
}

/// The number of candidates in row `r`.
pub open spec fn row_width(index_ptr: Seq<usize>, r: int) -> int {
    index_ptr[r + 1] - index_ptr[r]
}

/// The columns of row `r`: the entries of `indices` between the row's two offsets.
pub open spec fn row_columns(indices: Seq<usize>, index_ptr: Seq<usize>, r: int) -> Seq<usize> {
    indices.subrange(index_ptr[r] as int, index_ptr[r + 1] as int)
}

/// Every value is an index that the machine can hold: none is negative or
/// larger than `usize::MAX`.
pub open spec fn all_representable(values: Seq<i64>) -> bool {
    forall|i: int| 0 <= i < values.len() ==> 0 <= #[trigger] values[i] <= usize::MAX
}

/// The same values, read as indices. Meaningful where `all_representable` holds.
pub open spec fn as_indices(values: Seq<i64>) -> Seq<usize> {
    Seq::new(values.len(), |i: int| values[i] as usize)
}

/// Reads signed array entries as indices.
///
/// Succeeds exactly when every entry is representable, and then keeps each
/// value at its position. A negative or oversized entry is an index out of
/// bounds.
pub fn cast(vec: Vec<i64>) -> (res: Result<Vec<usize>, RegridError>)
    ensures
        all_representable(vec@) <==> res is Ok,
        res matches Ok(out) ==> out@ == as_indices(vec@),
        res matches Err(e) ==> e == RegridError::IndexBounds,
{
    let mut out: Vec<usize> = Vec::new();
    let mut i: usize = 0;
    while i < vec.len()
        invariant
            i <= vec.len(),
            out@.len() == i,
            forall|j: int| 0 <= j < i ==> 0 <= #[trigger] vec@[j] <= usize::MAX,
            forall|j: int| 0 <= j < i ==> #[trigger] out@[j] as int == vec@[j] as int,
        decreases vec.len() - i,
    {
        let c: i64 = vec[i];
        if c < 0 || c as u64 > usize::MAX as u64 {
            return Err(RegridError::IndexBounds);
        }
        out.push(c as usize);
        i += 1;
    }
    assert(out@ =~= as_indices(vec@));
    Ok(out)
}

/// Checks that `index_ptr` partitions a flat sequence of `total` entries.
///
/// An empty `index_ptr` has the wrong shape; offsets that do not start at
/// zero, that decrease, or that do not end at `total` are out of bounds.
pub fn check_offsets(index_ptr: &Vec<usize>, total: usize) -> (res: Result<(), RegridError>)
    ensures
        match offsets_error(index_ptr@, total as int) {
            Some(e) => res == Err::<(), RegridError>(e),
            None => res is Ok,
        },
{
    let n: usize = index_ptr.len();
    if n == 0 {
        return Err(RegridError::InputShape);
    }
    if index_ptr[0] != 0 || index_ptr[n - 1] != total {
        return Err(RegridError::IndexBounds);
    }
    let mut r: usize = 1;
    while r < n
        invariant
            1 <= r <= n,
            n == index_ptr@.len(),
            forall|i: int, j: int| 0 <= i <= j < r ==> index_ptr@[i] <= index_ptr@[j],
        decreases n - r,
    {
        if index_ptr[r - 1] > index_ptr[r] {
            return Err(RegridError::IndexBounds);
        }
        r += 1;
    }
    Ok(())
}

/// Copies the entries of `values` from position `lower` up to `upper`.
fn copy_range(values: &Vec<usize>, lower: usize, upper: usize) -> (out: Vec<usize>)
    requires
        lower <= upper <= values@.len(),
    ensures
        out@ == values@.subrange(lower as int, upper as int),
{
    let mut out: Vec<usize> = Vec::new();
    let mut k: usize = lower;
    while k < upper
        invariant
            lower <= k <= upper <= values@.len(),
            out@ == values@.subrange(lower as int, k as int),
        decreases upper - k,
    {
        out.push(values[k]);
        k += 1;
        assert(out@ =~= values@.subrange(lower as int, k as int));
    }
    out
}

/// The decompressed row list of a well-formed candidate structure: one entry
/// per row, in row order, each holding the row's index and its columns in the
/// order in which `indices` lists them. A row without candidates is kept,
/// with an empty column list.
pub open spec fn is_row_list(
    rows: Seq<(usize, Vec<usize>)>,
    indices: Seq<usize>,
    index_ptr: Seq<usize>,
) -> bool {
    &&& rows.len() == row_count(index_ptr)
    &&& forall|r: int|
        0 <= r < rows.len() ==> (#[trigger] rows[r]).0 == r && rows[r].1@ == row_columns(
            indices,
            index_ptr,
            r,
        )
}

/// Splits a compressed-sparse-row candidate structure into its rows.
///
/// Fails exactly when `index_ptr` is not a partition of `indices`, with the
/// error that `offsets_error` names; otherwise returns the row list.
pub fn uncompress_sparse_indices(indices: Vec<usize>, index_ptr: Vec<usize>) -> (res: Result<
    Vec<(usize, Vec<usize>)>,
    RegridError,
>)
    ensures
        match offsets_error(index_ptr@, indices@.len() as int) {
            Some(e) => res matches Err(got) && got == e,
            None => res matches Ok(rows) && is_row_list(rows@, indices@, index_ptr@),
        },
{
    match check_offsets(&index_ptr, indices.len()) {
        Err(e) => {
            return Err(e);
        },
        Ok(()) => {},
    }
    let n: usize = index_ptr.len();
    let mut rows: Vec<(usize, Vec<usize>)> = Vec::new();
    let mut r: usize = 0;
    while r + 1 < n
        invariant
            n == index_ptr@.len(),
            r + 1 <= n,
            offsets_well_formed(index_ptr@, indices@.len() as int),
            rows@.len() == r,
            forall|q: int|
                0 <= q < r ==> (#[trigger] rows@[q]).0 == q && rows@[q].1@ == row_columns(
                    indices@,
                    index_ptr@,
                    q,
                ),
        decreases n - r,
    {
        let lower: usize = index_ptr[r];
        let upper: usize = index_ptr[r + 1];
        let columns = copy_range(&indices, lower, upper);
        rows.push((r, columns));
        r += 1;
    }
    Ok(rows)
}

} // verus!
