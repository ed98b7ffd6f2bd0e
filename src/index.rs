use crate::direction::{
    CornerDirection, Direction, HorizontalDirection, VerticalDirection, all_directions,
};
use vstd::prelude::*;

verus! {

/// The size of a puzzle, counted in cells.
#[derive(Clone, Copy, Debug, PartialEq, Eq, Structural)]
pub struct Size {
    pub width: usize,
    pub height: usize,
}

/// Whether an edge runs from west to east or from north to south.
#[derive(Clone, Copy, Debug, PartialEq, Eq, Structural)]
pub enum EdgeDirection {
    Horizontal,
    Vertical,
}

/// A cell, by its row and column.
#[derive(Clone, Copy, Debug, PartialEq, Eq, Structural)]
pub struct CellIndex {
    pub row: usize,
    pub column: usize,
}

/// A lattice point, by its row and column.
#[derive(Clone, Copy, Debug, PartialEq, Eq, Structural)]
pub struct IntersectionIndex {
    pub row: usize,
    pub column: usize,
}

/// An edge: a horizontal edge starts at the intersection (row, column) and
/// runs east, a vertical one starts there and runs south.
#[derive(Clone, Copy, Debug, PartialEq, Eq, Structural)]
pub struct EdgeIndex {
    pub direction: EdgeDirection,
    pub row: usize,
    pub column: usize,
}

impl CellIndex {
    /// The intersection at the given corner of this cell.
    pub open spec fn intersection(self, corner: CornerDirection) -> IntersectionIndex {
        IntersectionIndex {
            row: if corner.vertical == VerticalDirection::South {
                (self.row + 1) as usize
            } else {
                self.row
            },
            column: if corner.horizontal == HorizontalDirection::East {
                (self.column + 1) as usize
            } else {
                self.column
            },
        }
    }

    /// The edge on the given side of this cell.
    pub open spec fn edge(self, side: Direction) -> EdgeIndex {
        match side {
            Direction::Horizontal(HorizontalDirection::East) => EdgeIndex {
                row: self.row,
                column: (self.column + 1) as usize,
                direction: EdgeDirection::Vertical,
            },
            Direction::Horizontal(HorizontalDirection::West) => EdgeIndex {
                row: self.row,
                column: self.column,
                direction: EdgeDirection::Vertical,
            },
            Direction::Vertical(VerticalDirection::North) => EdgeIndex {
                row: self.row,
                column: self.column,
                direction: EdgeDirection::Horizontal,
            },
            Direction::Vertical(VerticalDirection::South) => EdgeIndex {
                row: (self.row + 1) as usize,
                column: self.column,
                direction: EdgeDirection::Horizontal,
            },
        }
    }

    /// The four edges around this cell: north, east, south, west.
    pub open spec fn edges(self) -> Seq<EdgeIndex> {
        seq![
            self.edge(all_directions()[0]),
            self.edge(all_directions()[1]),
            self.edge(all_directions()[2]),
            self.edge(all_directions()[3]),
        ]
    }

    /// The two edges that meet at the given corner of this cell: the east or
    /// west one, then the north or south one.
    pub open spec fn corner_edges(self, corner: CornerDirection) -> Seq<EdgeIndex> {
        seq![
            self.edge(Direction::Horizontal(corner.horizontal)),
            self.edge(Direction::Vertical(corner.vertical)),
        ]
    }

    pub fn index_intersection(&self, direction: CornerDirection) -> (r: IntersectionIndex)
        requires
            self.row < usize::MAX,
            self.column < usize::MAX,
        ensures
            r == self.intersection(direction),
    {
        let column = match direction.horizontal {
            HorizontalDirection::East => self.column + 1,
            HorizontalDirection::West => self.column,
        };
        let row = match direction.vertical {
            VerticalDirection::North => self.row,
            VerticalDirection::South => self.row + 1,
        };
        IntersectionIndex { row, column }
    }

    pub fn index_edge(&self, direction: Direction) -> (r: EdgeIndex)
        requires
            self.row < usize::MAX,
            self.column < usize::MAX,
        ensures
            r == self.edge(direction),
    {
        let row = self.row;
        let column = self.column;
        match direction {
            Direction::Horizontal(HorizontalDirection::East) => EdgeIndex {
                row,
                column: column + 1,
                direction: EdgeDirection::Vertical,
            },
            Direction::Horizontal(HorizontalDirection::West) => EdgeIndex {
                row,
                column,
                direction: EdgeDirection::Vertical,
            },
            Direction::Vertical(VerticalDirection::North) => EdgeIndex {
                row,
                column,
                direction: EdgeDirection::Horizontal,
            },
            Direction::Vertical(VerticalDirection::South) => EdgeIndex {
                row: row + 1,
                column,
                direction: EdgeDirection::Horizontal,
            },
        }
    }

    /// The four edges around this cell: north, east, south, west.
    pub fn index_edges(&self) -> (r: [EdgeIndex; 4])
        requires
            self.row < usize::MAX,
            self.column < usize::MAX,
        ensures
            r@ == self.edges(),
    {
        let directions = Direction::iter_all();
        let r = [
            self.index_edge(directions[0]),
            self.index_edge(directions[1]),
            self.index_edge(directions[2]),
            self.index_edge(directions[3]),
        ];
        assert(r@ =~= self.edges());
        r
    }

    /// The two edges at the given corner of this cell.
    pub fn index_corner_edges(&self, direction: CornerDirection) -> (r: [EdgeIndex; 2])
        requires
            self.row < usize::MAX,
            self.column < usize::MAX,
        ensures
            r@ == self.corner_edges(direction),
    {
        let sides = direction.directions();
        let r = [self.index_edge(sides[0]), self.index_edge(sides[1])];
        assert(r@ =~= self.corner_edges(direction));
        r
    }
}

impl EdgeIndex {
    /// The two ends of this edge: its start, then the intersection east or
    /// south of it.
    pub open spec fn ends(self) -> (IntersectionIndex, IntersectionIndex) {
        let start = IntersectionIndex { row: self.row, column: self.column };
        let end = match self.direction {
            EdgeDirection::Horizontal => IntersectionIndex {
                row: self.row,
                column: (self.column + 1) as usize,
            },
            EdgeDirection::Vertical => IntersectionIndex {
                row: (self.row + 1) as usize,
                column: self.column,
            },
        };
        (start, end)
    }

    /// Returns indices to the two intersections that are adjacent to this edge.
    pub fn get_intersections(&self) -> (r: [IntersectionIndex; 2])
        requires
            self.row < usize::MAX,
            self.column < usize::MAX,
        ensures
            r[0] == self.ends().0,
            r[1] == self.ends().1,
    {
        let row = self.row;
        let column = self.column;
        let next = match self.direction {
            EdgeDirection::Horizontal => IntersectionIndex { row, column: column + 1 },
            EdgeDirection::Vertical => IntersectionIndex { row: row + 1, column },
        };
        [IntersectionIndex { row, column }, next]
    }
}

} // verus!
