//! The grid of noise samples under one chunk, and where in noise space it is
//! taken from.
//!
//! A sample is a fixed-point number with nine decimals, as world lengths are.
//! The grid is stored row by row; the row is the step along z.

use vstd::prelude::*;
use crate::error::TerrainError;
use crate::tricoord::{altitudes_of, halfsides_of, TriCoord};

verus! {

/// Samples along each side of the window that a chunk's mesh reads: one per
/// half triangle side, and one more to close the last triangle. A chunk is
/// built over a height field of exactly this size.
pub const FIELD_SIDE: usize = 33;

/// Width and height of a chunk's sampling window in noise space.
pub const BOUND_FACTOR: i64 = 50_000_000;

/// Pixels across a sampling window; one pixel is `BOUND_FACTOR / 33`.
pub const WINDOW_PIXELS: i32 = 33;

/// Pixels that the window moves in x per half-side step of the chunk.
pub const WINDOW_STEP_X: i32 = 16;

/// Pixels that the window moves in y per altitude step of the chunk.
pub const WINDOW_STEP_Y: i32 = 32;

/// Lowest noise value of the range that is mapped to heights.
pub const NOISE_MIN: i64 = 0;

/// Highest noise value of the range that is mapped to heights.
pub const NOISE_MAX: i64 = 1_000_000_000;

/// World height of `NOISE_MIN`.
pub const HEIGHT_MIN: i64 = 0;

/// World height of `NOISE_MAX`.
pub const HEIGHT_MAX: i64 = 100_000_000_000;

/// The rectangle of noise space that a chunk samples, in pixels.
#[derive(Copy, Clone, Debug, PartialEq, Eq, Structural)]
pub struct NoiseWindow {
    pub lower_x: i32,
    pub upper_x: i32,
    pub lower_y: i32,
    pub upper_y: i32,
}

/// The sampling window of a chunk: `WINDOW_PIXELS` wide and high, its left
/// edge following the chunk's half-side steps and its upper edge the chunk's
/// altitude steps.
pub open spec fn window_of(t: TriCoord<i16>) -> NoiseWindow {
    NoiseWindow {
        lower_x: (halfsides_of(t) * WINDOW_STEP_X) as i32,
        upper_x: (halfsides_of(t) * WINDOW_STEP_X + WINDOW_PIXELS) as i32,
        lower_y: (altitudes_of(t) * WINDOW_STEP_Y - WINDOW_PIXELS) as i32,
        upper_y: (altitudes_of(t) * WINDOW_STEP_Y) as i32,
    }
}

/// Where in noise space the height field of a chunk is sampled.
pub fn noise_window(chunk_tricoord: &TriCoord<i16>) -> (w: NoiseWindow)
    ensures
        w == window_of(*chunk_tricoord),
        w.upper_x - w.lower_x == WINDOW_PIXELS,
        w.upper_y - w.lower_y == WINDOW_PIXELS,
        w.lower_x == halfsides_of(*chunk_tricoord) * WINDOW_STEP_X,
        w.upper_y == altitudes_of(*chunk_tricoord) * WINDOW_STEP_Y,
{
    let halfsides: i32 = chunk_tricoord.c as i32 - chunk_tricoord.a as i32;
    let lower_x: i32 = halfsides * WINDOW_STEP_X;
    let upper_x: i32 = lower_x + WINDOW_PIXELS;
    let upper_y: i32 = chunk_tricoord.b as i32 * WINDOW_STEP_Y;
    let lower_y: i32 = upper_y - WINDOW_PIXELS;
    NoiseWindow { lower_x, upper_x, lower_y, upper_y }
}

/// The world height that a noise value stands for: the line through
/// `(NOISE_MIN, HEIGHT_MIN)` and `(NOISE_MAX, HEIGHT_MAX)`.
pub open spec fn height_of(value: int) -> int {
    HEIGHT_MIN + (value - NOISE_MIN) * (HEIGHT_MAX - HEIGHT_MIN) / (NOISE_MAX - NOISE_MIN)
}

/// The world height of a noise sample.
pub fn map_noise_to_height(value: i32) -> (height: i64)
    ensures
        height == height_of(value as int),
        height == 100 * value,
{
    let span: i128 = (HEIGHT_MAX - HEIGHT_MIN) as i128;
    let scaled: i128 = (value as i128 - NOISE_MIN as i128) * span;
    let quotient: i128 = scaled / ((NOISE_MAX - NOISE_MIN) as i128);
    (HEIGHT_MIN as i128 + quotient) as i64
}

/// A grid of noise samples, `rows` by `cols`.
pub struct HeightField {
    rows: usize,
    cols: usize,
    samples: Vec<i32>,
}

impl HeightField {
    #[verifier::type_invariant]
    spec fn well_formed(self) -> bool {
        self.samples@.len() == self.rows * self.cols
    }

    /// Rows of the grid.
    pub closed spec fn rows(self) -> nat {
        self.rows as nat
    }

    /// Columns of the grid.
    pub closed spec fn cols(self) -> nat {
        self.cols as nat
    }

    /// The samples, row by row.
    pub closed spec fn view(self) -> Seq<i32> {
        self.samples@
    }

    /// The sample at a row and column.
    pub open spec fn at(self, row: int, col: int) -> i32 {
        self@[row * self.cols() + col]
    }

    /// The grid is exactly the window that a chunk's mesh reads: `FIELD_SIDE`
    /// rows of `FIELD_SIDE` samples.
    pub open spec fn is_chunk_window(self) -> bool {
        self.rows() == FIELD_SIDE && self.cols() == FIELD_SIDE
    }

    /// A height field of `rows` by `cols` samples, given row by row. Fails
    /// unless exactly `rows * cols` samples are given.
    pub fn new(rows: usize, cols: usize, samples: Vec<i32>) -> (r: Result<HeightField, TerrainError>)
        ensures
            match r {
                Ok(field) => {
                    &&& samples@.len() == rows * cols
                    &&& field.rows() == rows
                    &&& field.cols() == cols
                    &&& field@ == samples@
                },
                Err(e) => {
                    &&& samples@.len() != rows * cols
                    &&& e == (TerrainError::SampleCount {
                        expected_rows: rows,
                        expected_cols: cols,
                        found: samples.len(),
                    })
                },
            },
    {
        let found: usize = samples.len();
        let matches_size: bool = match rows.checked_mul(cols) {
            Some(expected) => expected == found,
            None => false,
        };
        if matches_size {
            Ok(HeightField { rows, cols, samples })
        } else {
            Err(TerrainError::SampleCount { expected_rows: rows, expected_cols: cols, found })
        }
    }

    /// Number of rows.
    pub fn row_count(&self) -> (n: usize)
        ensures
            n == self.rows(),
    {
        self.rows
    }

    /// Number of columns.
    pub fn col_count(&self) -> (n: usize)
        ensures
            n == self.cols(),
    {
        self.cols
    }

    /// The sample at `row` and `col`, or the failure that names the place
    /// where none is.
    pub fn sample(&self, row: usize, col: usize) -> (r: Result<i32, TerrainError>)
        ensures
            match r {
                Ok(value) => row < self.rows() && col < self.cols() && value == self.at(
                    row as int,
                    col as int,
                ),
                Err(e) => (row >= self.rows() || col >= self.cols()) && e == (
                TerrainError::OutsideField { row, col }),
            },
    {
        proof {
            use_type_invariant(self);
        }
        let count: usize = self.samples.len();
        if row < self.rows && col < self.cols {
            proof {
                let (r, c, rows, cols) = (row as int, col as int, self.rows as int, self.cols as int);
                assert(0 <= r * cols && r * cols + c < rows * cols) by (nonlinear_arith)
                    requires
                        0 <= r < rows,
                        0 <= c < cols,
                ;
                assert(self.samples@.len() == count);
            }
            Ok(self.samples[row * self.cols + col])
        } else {
            Err(TerrainError::OutsideField { row, col })
        }
    }
}

} // verus!
