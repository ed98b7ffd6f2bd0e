use vstd::prelude::*;

verus! {

/// A fact about the two edges (a, b) that meet at one corner.
#[derive(Clone, Copy, Debug, PartialEq, Eq, Structural)]
pub enum Constraint {
    /// Exactly one of a and b is a line.
    Line,
    /// a and b are not both lines.
    NoCorner,
    /// a and b are both lines or both crossed.
    NoLine,
}

} // verus!
