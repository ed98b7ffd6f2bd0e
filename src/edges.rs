use crate::direction::{
    CornerDirection, Direction, HorizontalDirection, VerticalDirection, all_directions,
};
use crate::edge::Edge;
use crate::error::SolveError;
use crate::grid::{EdgeGrid, first_some};
use crate::index::{CellIndex, EdgeDirection, EdgeIndex, IntersectionIndex, Size};
use boolinator::Boolinator;
use vstd::prelude::*;

verus! {

pub open spec fn edge_rows_view(rows: Seq<Vec<Edge>>) -> Seq<Seq<Edge>> {
    rows.map_values(|row: Vec<Edge>| row@)
}

/// Relies on boolinator's `Boolinator::as_some`: `Some(value)` where the
/// flag is true, `None` otherwise.
#[verifier::external_body]
fn as_some<T>(flag: bool, value: T) -> (r: Option<T>)
    ensures
        r == (if flag {
            Some(value)
        } else {
            None
        }),
{
    flag.as_some(value)
}

/// The state of every edge of a puzzle.
#[derive(Clone, Debug, PartialEq)]
pub struct Edges {
    /// Rows of horizontal edges, from north to south, each from west to east.
    pub horizontal: Vec<Vec<Edge>>,
    /// Rows of vertical edges, from north to south, each from west to east.
    pub vertical: Vec<Vec<Edge>>,
}

impl View for Edges {
    type V = EdgeGrid;

    open spec fn view(&self) -> EdgeGrid {
        EdgeGrid {
            horizontal: edge_rows_view(self.horizontal@),
            vertical: edge_rows_view(self.vertical@),
        }
    }
}

/// A row of `n` unknown edges.
fn unknown_row(n: usize) -> (r: Vec<Edge>)
    ensures
        r@ == Seq::new(n as nat, |i: int| Edge::Unknown),
{
    let mut r: Vec<Edge> = Vec::new();
    let mut i: usize = 0;
    while i < n
        invariant
            i <= n,
            r@ == Seq::new(i as nat, |k: int| Edge::Unknown),
        decreases n - i,
    {
        r.push(Edge::Unknown);
        i = i + 1;
        assert(r@ =~= Seq::new(i as nat, |k: int| Edge::Unknown));
    }
    r
}

/// `count` rows of `n` unknown edges.
fn unknown_rows(count: usize, n: usize) -> (r: Vec<Vec<Edge>>)
    ensures
        edge_rows_view(r@) == Seq::new(count as nat, |i: int| Seq::new(n as nat, |k: int| Edge::Unknown)),
{
    let mut r: Vec<Vec<Edge>> = Vec::new();
    let mut i: usize = 0;
    while i < count
        invariant
            i <= count,
            edge_rows_view(r@) == Seq::new(i as nat, |j: int| Seq::new(n as nat, |k: int| Edge::Unknown)),
        decreases count - i,
    {
        let ghost prev = edge_rows_view(r@);
        let row = unknown_row(n);
        r.push(row);
        assert(edge_rows_view(r@) =~= prev.push(row@));
        i = i + 1;
        assert(prev.push(row@) =~= Seq::new(i as nat, |j: int| Seq::new(n as nat, |k: int| Edge::Unknown)));
    }
    r
}

/// The grid of a puzzle `width` cells wide and `height` cells tall whose
/// edges are all unknown.
pub open spec fn empty_grid(width: nat, height: nat) -> EdgeGrid {
    EdgeGrid {
        horizontal: Seq::new(height + 1, |i: int| Seq::new(width, |k: int| Edge::Unknown)),
        vertical: Seq::new(height, |i: int| Seq::new(width + 1, |k: int| Edge::Unknown)),
    }
}

impl Edges {
    /// Creates an `Edges` with every edge unknown. Fails with
    /// `InvalidDimensions` where the width or the height is zero.
    pub fn create_empty(size: &Size) -> (r: Result<Edges, SolveError>)
        requires
            size.width < usize::MAX,
            size.height < usize::MAX,
        ensures
            r is Err <==> size.width == 0 || size.height == 0,
            r matches Err(e) ==> e == SolveError::InvalidDimensions,
            r matches Ok(edges) ==> edges@ == empty_grid(size.width as nat, size.height as nat)
                && edges@.wf(),
    {
        if size.width == 0 || size.height == 0 {
            return Err(SolveError::InvalidDimensions);
        }
        let horizontal = unknown_rows(size.height + 1, size.width);
        let vertical = unknown_rows(size.height, size.width + 1);
        let edges = Edges { horizontal, vertical };
        assert(edges@ =~= empty_grid(size.width as nat, size.height as nat));
        Ok(edges)
    }

    /// The state of the edge at `index`.
    pub fn get(&self, index: EdgeIndex) -> (r: Edge)
        requires
            self@.wf(),
            self@.valid_edge(index),
        ensures
            r == self@.at(index),
    {
        match index.direction {
            EdgeDirection::Horizontal => {
                assert(self.horizontal@[index.row as int]@.len() == self@.width());
                self.horizontal[index.row][index.column]
            },
            EdgeDirection::Vertical => {
                assert(self.vertical@[index.row as int]@.len() == self@.width() + 1);
                self.vertical[index.row][index.column]
            },
        }
    }

    /// Sets the edge at `index` to `value`.
    pub fn set(&mut self, index: EdgeIndex, value: Edge)
        requires
            old(self)@.wf(),
            old(self)@.valid_edge(index),
        ensures
            final(self)@ == old(self)@.set(index, value),
            final(self)@.wf(),
    {
        let ghost before = self@;
        match index.direction {
            EdgeDirection::Horizontal => {
                assert(self@.horizontal[index.row as int] == self.horizontal@[index.row as int]@);
                assert(self.horizontal@[index.row as int]@.len() == self@.width());
                let mut row: Vec<Edge> = Vec::new();
                std::mem::swap(&mut row, &mut self.horizontal[index.row]);
                row.set(index.column, value);
                self.horizontal.set(index.row, row);
            },
            EdgeDirection::Vertical => {
                assert(self@.vertical[index.row as int] == self.vertical@[index.row as int]@);
                assert(self.vertical@[index.row as int]@.len() == self@.width() + 1);
                let mut row: Vec<Edge> = Vec::new();
                std::mem::swap(&mut row, &mut self.vertical[index.row]);
                row.set(index.column, value);
                self.vertical.set(index.row, row);
            },
        }
        assert(self@.horizontal =~= before.set(index, value).horizontal);
        assert(self@.vertical =~= before.set(index, value).vertical);
    }

    /// Returns the edge adjacent to the intersection at `index` in the given
    /// direction, or `None` where that edge would lie outside the grid.
    pub fn index_adjacent_edge(&self, index: &IntersectionIndex, direction: Direction) -> (r:
        Option<EdgeIndex>)
        requires
            self@.wf(),
        ensures
            r == self@.adjacent_edge(*index, direction),
    {
        let row = index.row;
        let column = index.column;
        match direction {
            Direction::Horizontal(HorizontalDirection::East) => {
                if column < self.horizontal[0].len() {
                    Some(EdgeIndex { row, column, direction: EdgeDirection::Horizontal })
                } else {
                    None
                }
            },
            Direction::Horizontal(HorizontalDirection::West) => {
                let column = column.checked_sub(1)?;
                Some(EdgeIndex { row, column, direction: EdgeDirection::Horizontal })
            },
            Direction::Vertical(VerticalDirection::North) => {
                let row = row.checked_sub(1)?;
                Some(EdgeIndex { row, column, direction: EdgeDirection::Vertical })
            },
            Direction::Vertical(VerticalDirection::South) => {
                let is_valid = row < self.vertical.len();
                as_some(is_valid, EdgeIndex { row, column, direction: EdgeDirection::Vertical })
            },
        }
    }

    /// The edges adjacent to the intersection at `index`: north, east, south,
    /// west.
    pub fn index_adjacent_edges(&self, index: IntersectionIndex) -> (r: [Option<EdgeIndex>; 4])
        requires
            self@.wf(),
        ensures
            r@ == self@.adjacent_edges(index),
    {
        let directions = Direction::iter_all();
        let r = [
            self.index_adjacent_edge(&index, directions[0]),
            self.index_adjacent_edge(&index, directions[1]),
            self.index_adjacent_edge(&index, directions[2]),
            self.index_adjacent_edge(&index, directions[3]),
        ];
        assert(r@ =~= self@.adjacent_edges(index));
        r
    }

    /// The two edges of the quadrant `direction` of the intersection at
    /// `index`.
    pub fn index_adjacent_corner_edges(
        &self,
        index: IntersectionIndex,
        direction: CornerDirection,
    ) -> (r: [Option<EdgeIndex>; 2])
        requires
            self@.wf(),
        ensures
            r@ == self@.corner_edges(index, direction),
    {
        let horizontal = self.index_adjacent_edge(&index, Direction::Horizontal(direction.horizontal));
        let vertical = self.index_adjacent_edge(&index, Direction::Vertical(direction.vertical));
        let r = [horizontal, vertical];
        assert(r@ =~= self@.corner_edges(index, direction));
        r
    }

    /// The neighbour of the intersection at `index` in the given direction,
    /// or `None` where it would lie outside the grid.
    pub fn index_adjacent_intersection(&self, index: IntersectionIndex, direction: Direction) -> (r:
        Option<IntersectionIndex>)
        requires
            self@.wf(),
        ensures
            r == self@.adjacent_intersection(index, direction),
    {
        let row = index.row;
        let column = index.column;
        match direction {
            Direction::Horizontal(HorizontalDirection::East) => {
                if column < self.horizontal[0].len() {
                    Some(IntersectionIndex { row, column: column + 1 })
                } else {
                    None
                }
            },
            Direction::Horizontal(HorizontalDirection::West) => Some(
                IntersectionIndex { row, column: column.checked_sub(1)? },
            ),
            Direction::Vertical(VerticalDirection::North) => Some(
                IntersectionIndex { row: row.checked_sub(1)?, column },
            ),
            Direction::Vertical(VerticalDirection::South) => {
                if row < self.vertical.len() {
                    Some(IntersectionIndex { row: row + 1, column })
                } else {
                    None
                }
            },
        }
    }

    /// The cell diagonally beyond the intersection at `index` towards
    /// `direction`, or `None` outside the grid.
    pub fn index_diagonally_from_intersection(
        &self,
        index: IntersectionIndex,
        direction: CornerDirection,
    ) -> (r: Option<CellIndex>)
        requires
            self@.wf(),
        ensures
            r == self@.diagonal_cell(index, direction),
    {
        let row = match direction.vertical {
            VerticalDirection::North => index.row.checked_sub(1)?,
            VerticalDirection::South => {
                if index.row < self.vertical.len() {
                    index.row
                } else {
                    return None;
                }
            },
        };
        let column = match direction.horizontal {
            HorizontalDirection::West => index.column.checked_sub(1)?,
            HorizontalDirection::East => {
                if index.column < self.horizontal[0].len() {
                    index.column
                } else {
                    return None;
                }
            },
        };
        Some(CellIndex { row, column })
    }

    /// The next intersection of a walk along lines that came from
    /// `previous_index` to `intersection_index`: the first neighbour, in the
    /// order north, east, south, west, that a line joins to it and that is
    /// not `previous_index`.
    pub fn follow_line(
        &self,
        previous_index: &IntersectionIndex,
        intersection_index: &IntersectionIndex,
    ) -> (r: Option<IntersectionIndex>)
        requires
            self@.wf(),
            self@.valid_intersection(*intersection_index),
        ensures
            r == self@.follow(*previous_index, *intersection_index),
    {
        let directions = Direction::iter_all();
        let ghost steps = Seq::new(
            4,
            |k: int| self@.line_step(*previous_index, *intersection_index, all_directions()[k]),
        );
        let mut k: usize = 0;
        while k < 4
            invariant
                self@.wf(),
                self@.valid_intersection(*intersection_index),
                directions@ == all_directions(),
                k <= 4,
                first_some(steps, 0) == first_some(steps, k as int),
                steps == Seq::new(
                    4,
                    |j: int| self@.line_step(*previous_index, *intersection_index, all_directions()[j]),
                ),
            decreases 4 - k,
        {
            let direction = directions[k];
            if let Some(edge_index) = self.index_adjacent_edge(intersection_index, direction) {
                if self.get(edge_index).is_line() {
                    let next = self.index_adjacent_intersection(*intersection_index, direction);
                    if let Some(next_index) = next {
                        if next_index != *previous_index {
                            return Some(next_index);
                        }
                    }
                }
            }
            k = k + 1;
        }
        None
    }
}

/// The edges of one row running in `direction`, its first `n` columns.
pub open spec fn edge_row(direction: EdgeDirection, row: int, n: int) -> Seq<EdgeIndex> {
    Seq::new(n as nat, |c: int| EdgeIndex { direction, row: row as usize, column: c as usize })
}

/// The edges running in `direction` of the first `rows` rows, row by row.
pub open spec fn edge_rows(direction: EdgeDirection, rows: int, n: int) -> Seq<EdgeIndex>
    decreases rows,
{
    if rows <= 0 {
        Seq::empty()
    } else {
        edge_rows(direction, rows - 1, n) + edge_row(direction, rows - 1, n)
    }
}

/// Every edge of the grid: the horizontal ones row by row, then the vertical
/// ones row by row.
pub open spec fn edge_order(g: EdgeGrid) -> Seq<EdgeIndex> {
    edge_rows(EdgeDirection::Horizontal, g.height() + 1 as int, g.width() as int) + edge_rows(
        EdgeDirection::Vertical,
        g.height() as int,
        g.width() + 1 as int,
    )
}

/// The first `n` intersections of one row.
pub open spec fn intersection_row(row: int, n: int) -> Seq<IntersectionIndex> {
    Seq::new(n as nat, |c: int| IntersectionIndex { row: row as usize, column: c as usize })
}

/// The intersections of the first `rows` rows, row by row.
pub open spec fn intersection_rows(rows: int, n: int) -> Seq<IntersectionIndex>
    decreases rows,
{
    if rows <= 0 {
        Seq::empty()
    } else {
        intersection_rows(rows - 1, n) + intersection_row(rows - 1, n)
    }
}

/// Appends the edges running in `direction` of the rows below `rows`, each
/// `n` long.
fn push_edge_rows(r: &mut Vec<EdgeIndex>, direction: EdgeDirection, rows: usize, n: usize)
    ensures
        final(r)@ == old(r)@ + edge_rows(direction, rows as int, n as int),
{
    let ghost start = r@;
    let mut row: usize = 0;
    while row < rows
        invariant
            row <= rows,
            r@ == start + edge_rows(direction, row as int, n as int),
        decreases rows - row,
    {
        let ghost before = r@;
        let mut column: usize = 0;
        while column < n
            invariant
                row < rows,
                column <= n,
                r@ == before + edge_row(direction, row as int, column as int),
            decreases n - column,
        {
            r.push(EdgeIndex { direction, row, column });
            assert(edge_row(direction, row as int, column + 1) =~= edge_row(
                direction,
                row as int,
                column as int,
            ).push(EdgeIndex { direction, row, column }));
            column = column + 1;
        }
        assert(start + edge_rows(direction, row + 1, n as int) =~= before + edge_row(
            direction,
            row as int,
            n as int,
        ));
        row = row + 1;
    }
}

impl Edges {
    /// The indices of all edges: the horizontal ones row by row, then the
    /// vertical ones row by row.
    pub fn index_edges(&self) -> (r: Vec<EdgeIndex>)
        requires
            self@.wf(),
        ensures
            r@ == edge_order(self@),
    {
        let height = self.vertical.len();
        let width = self.horizontal[0].len();
        assert(self@.horizontal[0] == self.horizontal@[0]@);
        let mut r: Vec<EdgeIndex> = Vec::new();
        push_edge_rows(&mut r, EdgeDirection::Horizontal, height + 1, width);
        push_edge_rows(&mut r, EdgeDirection::Vertical, height, width + 1);
        assert(r@ =~= edge_order(self@));
        r
    }

    /// The indices of all intersections, row by row.
    pub fn index_intersections(&self) -> (r: Vec<IntersectionIndex>)
        requires
            self@.wf(),
        ensures
            r@ == intersection_rows(self@.height() + 1 as int, self@.width() + 1 as int),
    {
        let height = self.vertical.len();
        let width = self.horizontal[0].len();
        assert(self@.horizontal[0] == self.horizontal@[0]@);
        let mut r: Vec<IntersectionIndex> = Vec::new();
        let mut row: usize = 0;
        while row <= height
            invariant
                height == self@.height(),
                width == self@.width(),
                width < usize::MAX,
                height < usize::MAX,
                row <= height + 1,
                r@ == intersection_rows(row as int, width + 1),
            decreases height + 1 - row,
        {
            let ghost before = r@;
            let mut column: usize = 0;
            while column <= width
                invariant
                    width < usize::MAX,
                    row <= height,
                    column <= width + 1,
                    r@ == before + intersection_row(row as int, column as int),
                decreases width + 1 - column,
            {
                r.push(IntersectionIndex { row, column });
                assert(intersection_row(row as int, column + 1) =~= intersection_row(
                    row as int,
                    column as int,
                ).push(IntersectionIndex { row, column }));
                column = column + 1;
            }
            row = row + 1;
        }
        r
    }
}

} // verus!
