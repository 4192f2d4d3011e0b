//! Conservative regridding weights: the integer side.
//!
//! A candidate structure in compressed-sparse-row form says which source cells
//! may overlap each target cell. This library validates that structure, splits
//! it into one column list per target row, checks the rows against the two
//! meshes, asks a caller-supplied function for the values of each row, and
//! lays those values back out in the flat order of the candidate structure.
//! The areas themselves are the caller's: the library holds no geometry.

pub mod error;
pub mod csr;
pub mod plan;
pub mod assemble;
pub mod engine;
pub mod laws;
