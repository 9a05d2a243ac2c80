//! The pages that present the demos, and the state behind the matrix page.

use vstd::prelude::*;

verus! {

/// Number of rows, and of cells in each row, of the matrix page.
pub const MATRIX_SIZE: u32 = 40;

/// The landing page.
#[derive(Clone, Copy, Debug, PartialEq, Eq)]
pub struct IndexTemplate {}

/// The page that hosts the Pong court.
#[derive(Clone, Copy, Debug, PartialEq, Eq)]
pub struct PongTemplate {}

/// The page that hosts the handwriting pad.
#[derive(Clone, Copy, Debug, PartialEq, Eq)]
pub struct OcrTemplate {}

/// The page that hosts the grid of lights.
#[derive(Clone, Copy, Debug, PartialEq, Eq)]
pub struct LedMatrixTemplate {}

/// The page that shows a square matrix of cells.
#[derive(Clone, Debug, PartialEq, Eq)]
pub struct DynMatrixTemplate {
    pub size: u32,
    pub matrix: Vec<Vec<u8>>,
}

/// The fragment for the cell in row `i` and column `j` of the matrix.
#[derive(Clone, Copy, Debug, PartialEq, Eq)]
pub struct DynItemTemplate {
    pub i: u32,
    pub j: u32,
}

/// The fragment for the idle cell in row `i` and column `j` of the matrix.
#[derive(Clone, Copy, Debug, PartialEq, Eq)]
pub struct DynItemIdleTemplate {
    pub i: u32,
    pub j: u32,
}

/// The page that lists the experiments.
#[derive(Clone, Copy, Debug, PartialEq, Eq)]
pub struct ExperimentsTemplate {}

/// What the server keeps between requests: a square matrix of cells.
#[derive(Clone, Debug, PartialEq, Eq)]
pub struct AppState {
    pub matrix: Vec<Vec<u8>>,
    pub size: u32,
}

/// Whether `matrix` has `size` rows of `size` cells each, all of them zero.
pub open spec fn is_blank(matrix: Seq<Vec<u8>>, size: nat) -> bool {
    &&& matrix.len() == size
    &&& forall|r: int| 0 <= r < size ==> (#[trigger] matrix[r])@ == Seq::new(size, |c: int| 0u8)
}

/// A row of `size` cells, all of them zero.
fn blank_row(size: u32) -> (row: Vec<u8>)
    ensures
        row@ == Seq::new(size as nat, |c: int| 0u8),
{
    let mut row: Vec<u8> = Vec::new();
    let mut c: u32 = 0;
    while c < size
        invariant
            c <= size,
            row@ == Seq::new(c as nat, |c: int| 0u8),
        decreases size - c,
    {
        row.push(0);
        c += 1;
        assert(row@ =~= Seq::new(c as nat, |c: int| 0u8));
    }
    row
}

impl AppState {
    /// The state with which the server starts: a matrix of `MATRIX_SIZE` rows
    /// of `MATRIX_SIZE` cells, all of them zero.
    pub fn initial() -> (state: AppState)
        ensures
            state.size == MATRIX_SIZE,
            is_blank(state.matrix@, MATRIX_SIZE as nat),
    {
        let mut matrix: Vec<Vec<u8>> = Vec::new();
        let mut r: u32 = 0;
        while r < MATRIX_SIZE
            invariant
                r <= MATRIX_SIZE,
                matrix@.len() == r,
                forall|k: int|
                    0 <= k < r ==> (#[trigger] matrix@[k])@ == Seq::new(
                        MATRIX_SIZE as nat,
                        |c: int| 0u8,
                    ),
            decreases MATRIX_SIZE - r,
        {
            matrix.push(blank_row(MATRIX_SIZE));
            r += 1;
        }
        AppState { matrix, size: MATRIX_SIZE }
    }
}

impl DynMatrixTemplate {
    /// The matrix page for the given state.
    pub fn from_state(state: AppState) -> (page: DynMatrixTemplate)
        ensures
            page.size == state.size,
            page.matrix == state.matrix,
    {
        DynMatrixTemplate { size: state.size, matrix: state.matrix }
    }
}

} // verus!
