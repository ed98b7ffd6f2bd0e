use vstd::prelude::*;

verus! {

/// Why a puzzle could not be built or solved.
#[derive(Clone, Copy, Debug, PartialEq, Eq, Structural)]
pub enum SolveError {
    /// The grid has no cell, or its rows differ in length.
    InvalidDimensions,
    /// A clue is not empty and not one of 0, 1, 2 and 3.
    MalformedClue,
}

} // verus!
