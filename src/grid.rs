use crate::direction::{
    CornerDirection, Direction, HorizontalDirection, VerticalDirection, all_directions,
};
use crate::edge::Edge;
use crate::index::{CellIndex, EdgeDirection, EdgeIndex, IntersectionIndex};
use vstd::prelude::*;

verus! {

/// The mathematical model of an edge grid: rows of horizontal edges (one
/// more row than the puzzle has) and rows of vertical edges (one more column
/// than the puzzle has).
pub struct EdgeGrid {
    pub horizontal: Seq<Seq<Edge>>,
    pub vertical: Seq<Seq<Edge>>,
}

/// The first `Some` of `s` at or after position `k`.
pub open spec fn first_some<A>(s: Seq<Option<A>>, k: int) -> Option<A>
    decreases s.len() - k,
{
    if k < 0 || k >= s.len() {
        None
    } else if s[k] is Some {
        s[k]
    } else {
        first_some(s, k + 1)
    }
}

/// An index that names no intersection of any grid: the walk along lines
/// starts with it as its previous step.
pub open spec fn no_intersection() -> IntersectionIndex {
    IntersectionIndex { row: usize::MAX, column: usize::MAX }
}

impl EdgeGrid {
    pub open spec fn height(self) -> nat {
        self.vertical.len()
    }

    pub open spec fn width(self) -> nat {
        if self.horizontal.len() > 0 {
            self.horizontal[0].len()
        } else {
            0
        }
    }

    /// At least one cell; every row of horizontal edges `width` long, every
    /// row of vertical edges `width + 1` long, and one row more of horizontal
    /// than of vertical edges.
    pub open spec fn wf(self) -> bool {
        &&& self.height() >= 1
        &&& self.width() >= 1
        &&& self.height() < usize::MAX
        &&& self.width() < usize::MAX
        &&& self.horizontal.len() == self.height() + 1
        &&& forall|r: int|
            0 <= r < self.horizontal.len() ==> #[trigger] self.horizontal[r].len() == self.width()
        &&& forall|r: int|
            0 <= r < self.vertical.len() ==> #[trigger] self.vertical[r].len() == self.width() + 1
    }

    pub open spec fn valid_edge(self, e: EdgeIndex) -> bool {
        match e.direction {
            EdgeDirection::Horizontal => e.row <= self.height() && e.column < self.width(),
            EdgeDirection::Vertical => e.row < self.height() && e.column <= self.width(),
        }
    }

    pub open spec fn valid_intersection(self, i: IntersectionIndex) -> bool {
        i.row <= self.height() && i.column <= self.width()
    }

    pub open spec fn valid_cell(self, c: CellIndex) -> bool {
        c.row < self.height() && c.column < self.width()
    }

    pub open spec fn at(self, e: EdgeIndex) -> Edge {
        match e.direction {
            EdgeDirection::Horizontal => self.horizontal[e.row as int][e.column as int],
            EdgeDirection::Vertical => self.vertical[e.row as int][e.column as int],
        }
    }

    /// The grid with the edge `e` set to `value`.
    pub open spec fn set(self, e: EdgeIndex, value: Edge) -> EdgeGrid {
        match e.direction {
            EdgeDirection::Horizontal => EdgeGrid {
                horizontal: self.horizontal.update(
                    e.row as int,
                    self.horizontal[e.row as int].update(e.column as int, value),
                ),
                vertical: self.vertical,
            },
            EdgeDirection::Vertical => EdgeGrid {
                horizontal: self.horizontal,
                vertical: self.vertical.update(
                    e.row as int,
                    self.vertical[e.row as int].update(e.column as int, value),
                ),
            },
        }
    }

    /// The neighbour of intersection `i` in the given direction, `None`
    /// where it would lie outside the grid.
    pub open spec fn adjacent_intersection(self, i: IntersectionIndex, direction: Direction) -> Option<
        IntersectionIndex,
    > {
        match direction {
            Direction::Horizontal(HorizontalDirection::East) => if i.column < self.width() {
                Some(IntersectionIndex { row: i.row, column: (i.column + 1) as usize })
            } else {
                None
            },
            Direction::Horizontal(HorizontalDirection::West) => if i.column >= 1 {
                Some(IntersectionIndex { row: i.row, column: (i.column - 1) as usize })
            } else {
                None
            },
            Direction::Vertical(VerticalDirection::North) => if i.row >= 1 {
                Some(IntersectionIndex { row: (i.row - 1) as usize, column: i.column })
            } else {
                None
            },
            Direction::Vertical(VerticalDirection::South) => if i.row < self.height() {
                Some(IntersectionIndex { row: (i.row + 1) as usize, column: i.column })
            } else {
                None
            },
        }
    }

    /// The edge that leaves intersection `i` in the given direction, `None`
    /// where it would lie outside the grid.
    pub open spec fn adjacent_edge(self, i: IntersectionIndex, direction: Direction) -> Option<
        EdgeIndex,
    > {
        match direction {
            Direction::Horizontal(HorizontalDirection::East) => if i.column < self.width() {
                Some(EdgeIndex { row: i.row, column: i.column, direction: EdgeDirection::Horizontal })
            } else {
                None
            },
            Direction::Horizontal(HorizontalDirection::West) => if i.column >= 1 {
                Some(
                    EdgeIndex {
                        row: i.row,
                        column: (i.column - 1) as usize,
                        direction: EdgeDirection::Horizontal,
                    },
                )
            } else {
                None
            },
            Direction::Vertical(VerticalDirection::North) => if i.row >= 1 {
                Some(
                    EdgeIndex {
                        row: (i.row - 1) as usize,
                        column: i.column,
                        direction: EdgeDirection::Vertical,
                    },
                )
            } else {
                None
            },
            Direction::Vertical(VerticalDirection::South) => if i.row < self.height() {
                Some(EdgeIndex { row: i.row, column: i.column, direction: EdgeDirection::Vertical })
            } else {
                None
            },
        }
    }

    /// The edges that leave intersection `i`: north, east, south, west.
    pub open spec fn adjacent_edges(self, i: IntersectionIndex) -> Seq<Option<EdgeIndex>> {
        seq![
            self.adjacent_edge(i, all_directions()[0]),
            self.adjacent_edge(i, all_directions()[1]),
            self.adjacent_edge(i, all_directions()[2]),
            self.adjacent_edge(i, all_directions()[3]),
        ]
    }

    /// The two edges of the quadrant `corner` of intersection `i`: the east
    /// or west one, then the north or south one.
    pub open spec fn corner_edges(self, i: IntersectionIndex, corner: CornerDirection) -> Seq<
        Option<EdgeIndex>,
    > {
        seq![
            self.adjacent_edge(i, Direction::Horizontal(corner.horizontal)),
            self.adjacent_edge(i, Direction::Vertical(corner.vertical)),
        ]
    }

    /// The cell diagonally beyond intersection `i` towards `corner`, `None`
    /// outside the grid.
    pub open spec fn diagonal_cell(self, i: IntersectionIndex, corner: CornerDirection) -> Option<
        CellIndex,
    > {
        let row = match corner.vertical {
            VerticalDirection::North => if i.row >= 1 {
                Some((i.row - 1) as usize)
            } else {
                None
            },
            VerticalDirection::South => if i.row < self.height() {
                Some(i.row)
            } else {
                None
            },
        };
        let column = match corner.horizontal {
            HorizontalDirection::West => if i.column >= 1 {
                Some((i.column - 1) as usize)
            } else {
                None
            },
            HorizontalDirection::East => if i.column < self.width() {
                Some(i.column)
            } else {
                None
            },
        };
        match (row, column) {
            (Some(row), Some(column)) => Some(CellIndex { row, column }),
            _ => None,
        }
    }

    /// Where one step of a walk along lines leads from `i` in the given
    /// direction: the neighbour there, if a line joins it to `i` and it is
    /// not `previous`.
    pub open spec fn line_step(
        self,
        previous: IntersectionIndex,
        i: IntersectionIndex,
        direction: Direction,
    ) -> Option<IntersectionIndex> {
        match self.adjacent_edge(i, direction) {
            Some(e) => if self.at(e) == Edge::Line && self.adjacent_intersection(i, direction)
                != Some(previous) {
                self.adjacent_intersection(i, direction)
            } else {
                None
            },
            None => None,
        }
    }

    /// The next intersection of a walk along lines that came from `previous`
    /// to `i`: the first of north, east, south and west where a line leads
    /// on to another intersection than `previous`.
    pub open spec fn follow(self, previous: IntersectionIndex, i: IntersectionIndex) -> Option<
        IntersectionIndex,
    > {
        first_some(
            Seq::new(4, |k: int| self.line_step(previous, i, all_directions()[k])),
            0,
        )
    }
}

/// What `first_some` finds is one of the elements it looked at.
pub proof fn lemma_first_some_in<A>(s: Seq<Option<A>>, k: int)
    ensures
        first_some(s, k) is Some ==> exists|j: int| k <= j < s.len() && s[j] == first_some(s, k),
    decreases s.len() - k,
{
    if 0 <= k < s.len() && s[k] is None {
        lemma_first_some_in(s, k + 1);
    }
}

/// A walk along lines stays inside the grid.
pub proof fn lemma_follow_valid(g: EdgeGrid, previous: IntersectionIndex, i: IntersectionIndex)
    requires
        g.wf(),
        g.valid_intersection(i),
    ensures
        g.follow(previous, i) matches Some(n) ==> g.valid_intersection(n),
{
    let s = Seq::new(4, |k: int| g.line_step(previous, i, all_directions()[k]));
    lemma_first_some_in(s, 0);
    if g.follow(previous, i) is Some {
        let j = choose|j: int| 0 <= j < s.len() && s[j] == first_some(s, 0);
        assert(s[j] == g.line_step(previous, i, all_directions()[j]));
    }
}

} // verus!
