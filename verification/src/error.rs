use vstd::prelude::*;

verus! {

/// Why a regridding call was refused. No partial result goes with an error.
#[derive(Clone, Copy, Debug, PartialEq, Eq, Structural)]
pub enum RegridError {
    /// An input array has the wrong type, dimensionality or length.
    InputShape,
    /// A columnar array could not be read as a sequence of polygons.
    Decode,
    /// A row offset or a cell index lies outside the sequence it points into.
    IndexBounds,
    /// A target polygon has zero area, so no ratio of areas exists.
    DegenerateGeometry,
}

} // verus!
