use vstd::prelude::*;

verus! {

/// The state of one edge of the lattice.
#[derive(Clone, Copy, Debug, PartialEq, Eq, Structural)]
pub enum Edge {
    /// Not decided yet.
    Unknown,
    /// Not part of the loop.
    X,
    /// Part of the loop.
    Line,
}

/// The edge that an ASCII drawing shows by a character: '-' and '|' draw a
/// line, anything else leaves the edge unknown.
pub open spec fn edge_of_ascii(character: char) -> Edge {
    if character == '-' || character == '|' {
        Edge::Line
    } else {
        Edge::Unknown
    }
}

impl Edge {
    /// Creates an `Edge` from the given `character` of an ASCII drawing.
    pub fn from_ascii(character: char) -> (r: Edge)
        ensures
            r == edge_of_ascii(character),
    {
        match character {
            '-' | '|' => Edge::Line,
            _ => Edge::Unknown,
        }
    }

    pub fn is_line(self) -> (r: bool)
        ensures
            r == (self == Edge::Line),
    {
        match self {
            Edge::Line => true,
            _ => false,
        }
    }

    pub fn is_unknown(self) -> (r: bool)
        ensures
            r == (self == Edge::Unknown),
    {
        match self {
            Edge::Unknown => true,
            _ => false,
        }
    }
}

} // verus!
