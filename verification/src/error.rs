//! What can go wrong while one chunk is built.

use vstd::prelude::*;

verus! {

/// Why a chunk could not be built. Each failure concerns one chunk only.
#[derive(Copy, Clone, Debug, PartialEq, Eq, Structural)]
pub enum TerrainError {
    /// The samples handed over do not fill the grid they were announced for.
    SampleCount { expected_rows: usize, expected_cols: usize, found: usize },
    /// A sample was asked for outside the height field.
    OutsideField { row: usize, col: usize },
    /// The height field is not of the size of the window that a chunk's mesh
    /// reads; `rows` and `cols` are the size found.
    FieldSize { rows: usize, cols: usize },
}

} // verus!
