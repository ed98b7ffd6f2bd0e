use crate::cell::{Cell, grid_width};
use crate::constraint::Constraint;
use crate::direction::{CornerDirection, all_corners};
use crate::edge::Edge;
use crate::edges::empty_grid;
use crate::grid::{EdgeGrid, first_some, lemma_first_some_in};
use crate::index::{CellIndex, EdgeDirection, EdgeIndex, IntersectionIndex};
use crate::rules::{
    Deduction, cell_at, cell_constraint, cell_constraints, cell_corner, cell_corner_constraint,
    cell_fill, cell_fills, cell_sides, clue, constraint_at, constraint_through_cell,
    first_unknown, fits, horizontal_loop_crosses, intersection_at, intersection_constraint,
    intersection_constraints, intersection_corner_constraint, intersection_fill,
    intersection_fills, next_deduction, rank, reach, scan, set_first, vertical_loop_crosses,
};
use vstd::prelude::*;

verus! {

/// The deduction, if any, sets an unknown edge of the grid to a known
/// state.
pub open spec fn takes_unknown(g: EdgeGrid, d: Deduction) -> bool {
    d matches Some((e, value)) ==> g.valid_edge(e) && g.at(e) == Edge::Unknown && value
        != Edge::Unknown
}

pub open spec fn unknown_in_row(row: Seq<Edge>) -> nat
    decreases row.len(),
{
    if row.len() == 0 {
        0
    } else {
        unknown_in_row(row.drop_last()) + if row.last() == Edge::Unknown {
            1nat
        } else {
            0nat
        }
    }
}

pub open spec fn unknown_in_rows(rows: Seq<Seq<Edge>>) -> nat
    decreases rows.len(),
{
    if rows.len() == 0 {
        0
    } else {
        unknown_in_rows(rows.drop_last()) + unknown_in_row(rows.last())
    }
}

/// The number of unknown edges.
pub open spec fn unknown_count(g: EdgeGrid) -> nat {
    unknown_in_rows(g.horizontal) + unknown_in_rows(g.vertical)
}

proof fn lemma_row_update(row: Seq<Edge>, i: int, value: Edge)
    requires
        0 <= i < row.len(),
        row[i] == Edge::Unknown,
        value != Edge::Unknown,
    ensures
        unknown_in_row(row.update(i, value)) + 1 == unknown_in_row(row),
    decreases row.len(),
{
    let updated = row.update(i, value);
    if i == row.len() - 1 {
        assert(updated.drop_last() =~= row.drop_last());
    } else {
        lemma_row_update(row.drop_last(), i, value);
        assert(updated.drop_last() =~= row.drop_last().update(i, value));
    }
}

proof fn lemma_rows_update(rows: Seq<Seq<Edge>>, r: int, row: Seq<Edge>)
    requires
        0 <= r < rows.len(),
        unknown_in_row(row) + 1 == unknown_in_row(rows[r]),
    ensures
        unknown_in_rows(rows.update(r, row)) + 1 == unknown_in_rows(rows),
    decreases rows.len(),
{
    let updated = rows.update(r, row);
    if r == rows.len() - 1 {
        assert(updated.drop_last() =~= rows.drop_last());
    } else {
        lemma_rows_update(rows.drop_last(), r, row);
        assert(updated.drop_last() =~= rows.drop_last().update(r, row));
    }
}

/// Setting an unknown edge to a known state leaves one unknown edge fewer.
pub proof fn lemma_unknown_count_set(g: EdgeGrid, e: EdgeIndex, value: Edge)
    requires
        g.wf(),
        g.valid_edge(e),
        g.at(e) == Edge::Unknown,
        value != Edge::Unknown,
    ensures
        unknown_count(g.set(e, value)) + 1 == unknown_count(g),
{
    let r = e.row as int;
    let c = e.column as int;
    match e.direction {
        EdgeDirection::Horizontal => {
            lemma_row_update(g.horizontal[r], c, value);
            lemma_rows_update(g.horizontal, r, g.horizontal[r].update(c, value));
        },
        EdgeDirection::Vertical => {
            lemma_row_update(g.vertical[r], c, value);
            lemma_rows_update(g.vertical, r, g.vertical[r].update(c, value));
        },
    }
}

/// Setting an edge keeps the grid's shape.
pub proof fn lemma_set_keeps_fits(cells: Seq<Seq<Cell>>, g: EdgeGrid, e: EdgeIndex, value: Edge)
    requires
        fits(cells, g),
        g.valid_edge(e),
    ensures
        fits(cells, g.set(e, value)),
        g.set(e, value).height() == g.height(),
        g.set(e, value).width() == g.width(),
{
    let s = g.set(e, value);
    assert(s.horizontal[0].len() == g.horizontal[0].len());
    assert forall|r: int| 0 <= r < s.horizontal.len() implies #[trigger] s.horizontal[r].len()
        == s.width() by {
        assert(g.horizontal[r].len() == g.width());
    }
    assert forall|r: int| 0 <= r < s.vertical.len() implies #[trigger] s.vertical[r].len()
        == s.width() + 1 by {
        assert(g.vertical[r].len() == g.width() + 1);
    }
}

proof fn lemma_first_unknown(g: EdgeGrid, s: Seq<Option<EdgeIndex>>, k: int)
    ensures
        first_unknown(g, s, k) matches Some(e) ==> g.valid_edge(e) && g.at(e) == Edge::Unknown,
    decreases s.len() - k,
{
    if 0 <= k < s.len() {
        lemma_first_unknown(g, s, k + 1);
    }
}

proof fn lemma_set_first(g: EdgeGrid, s: Seq<Option<EdgeIndex>>, value: Edge)
    requires
        value != Edge::Unknown,
    ensures
        takes_unknown(g, set_first(g, s, value)),
{
    lemma_first_unknown(g, s, 0);
}

/// What `scan` finds is the value of `f` at some position of the grid.
pub proof fn lemma_scan_in<A>(f: spec_fn(int, int) -> Option<A>, rows: int, columns: int, r: int, c: int)
    ensures
        scan(f, rows, columns, r, c) is Some ==> exists|i: int, j: int|
            0 <= i < rows && 0 <= j < columns && #[trigger] f(i, j) == scan(f, rows, columns, r, c),
    decreases rows - r, columns - c,
{
    if r < 0 || c < 0 || r >= rows {
    } else if c >= columns {
        lemma_scan_in(f, rows, columns, r + 1, 0);
    } else if f(r, c) is Some {
    } else {
        lemma_scan_in(f, rows, columns, r, c + 1);
    }
}

proof fn lemma_constraint_at(
    cells: Seq<Seq<Cell>>,
    g: EdgeGrid,
    constraint: Constraint,
    from: IntersectionIndex,
    to: CornerDirection,
)
    requires
        g.wf(),
    ensures
        takes_unknown(g, constraint_at(cells, g, constraint, from, to)),
    decreases rank(constraint), reach(g.height(), g.width(), from, to), 1nat,
{
    let near = g.corner_edges(from, to);
    lemma_set_first(g, near, Edge::X);
    lemma_set_first(g, near, Edge::Line);
    if let Some(cell) = g.diagonal_cell(from, to) {
        lemma_constraint_through_cell(cells, g, constraint, cell, to);
    }
}

proof fn lemma_constraint_through_cell(
    cells: Seq<Seq<Cell>>,
    g: EdgeGrid,
    constraint: Constraint,
    cell: CellIndex,
    to: CornerDirection,
)
    requires
        g.wf(),
    ensures
        takes_unknown(g, constraint_through_cell(cells, g, constraint, cell, to)),
    decreases rank(constraint), reach(g.height(), g.width(), cell.intersection(to), to) + 1, 0nat,
{
    let near = cell_corner(cell, to.opposite());
    let far = cell_corner(cell, to);
    let next = cell.intersection(to);
    lemma_set_first(g, near, Edge::X);
    lemma_set_first(g, near, Edge::Line);
    lemma_set_first(g, far, Edge::X);
    lemma_set_first(g, far, Edge::Line);
    match clue(cells, cell) {
        Cell::Two => match constraint {
            Constraint::Line => {
                lemma_constraint_at(cells, g, Constraint::Line, next, to);
            },
            Constraint::NoCorner => {
                lemma_constraint_at(cells, g, Constraint::NoCorner, next, to);
            },
            Constraint::NoLine => {
                let adjacent = to.adjacent();
                lemma_constraint_at(
                    cells,
                    g,
                    Constraint::Line,
                    cell.intersection(adjacent[0]),
                    adjacent[0],
                );
                lemma_constraint_at(
                    cells,
                    g,
                    Constraint::Line,
                    cell.intersection(adjacent[1]),
                    adjacent[1],
                );
                lemma_constraint_at(cells, g, Constraint::NoLine, next, to);
            },
        },
        Cell::Three => {
            if constraint == Constraint::NoLine {
                lemma_constraint_at(cells, g, Constraint::Line, next, to);
            }
        },
        _ => {},
    }
}

proof fn lemma_cell_constraint(cells: Seq<Seq<Cell>>, g: EdgeGrid, c: CellIndex)
    requires
        g.wf(),
    ensures
        takes_unknown(g, cell_constraint(cells, g, c)),
{
    let s = Seq::new(4, |k: int| cell_corner_constraint(cells, g, c, all_corners()[k]));
    lemma_first_some_in(s, 0);
    if cell_constraint(cells, g, c) is Some {
        let j = choose|j: int| 0 <= j < s.len() && s[j] == first_some(s, 0);
        let corner = all_corners()[j];
        lemma_constraint_at(
            cells,
            g,
            Constraint::Line,
            c.intersection(corner.opposite()),
            corner.opposite(),
        );
        lemma_constraint_at(
            cells,
            g,
            Constraint::NoCorner,
            c.intersection(corner.opposite()),
            corner.opposite(),
        );
        assert(s[j] == cell_corner_constraint(cells, g, c, corner));
    }
}

proof fn lemma_intersection_constraint(cells: Seq<Seq<Cell>>, g: EdgeGrid, i: IntersectionIndex)
    requires
        g.wf(),
    ensures
        takes_unknown(g, intersection_constraint(cells, g, i)),
{
    let s = Seq::new(4, |k: int| intersection_corner_constraint(cells, g, i, all_corners()[k]));
    lemma_first_some_in(s, 0);
    if intersection_constraint(cells, g, i) is Some {
        let j = choose|j: int| 0 <= j < s.len() && s[j] == first_some(s, 0);
        let corner = all_corners()[j];
        lemma_constraint_at(cells, g, Constraint::Line, i, corner.opposite());
        lemma_constraint_at(cells, g, Constraint::NoCorner, i, corner.opposite());
        lemma_constraint_at(cells, g, Constraint::NoLine, i, corner.opposite());
        assert(s[j] == intersection_corner_constraint(cells, g, i, corner));
    }
}

/// Every pass of the solver sets an unknown edge to a known state, if it
/// sets one at all.
pub proof fn lemma_next_deduction(cells: Seq<Seq<Cell>>, g: EdgeGrid)
    requires
        fits(cells, g),
    ensures
        takes_unknown(g, next_deduction(cells, g)),
{
    let h = g.height() as int;
    let w = g.width() as int;
    lemma_scan_in(cell_fills(cells, g), h, w, 0, 0);
    if scan(cell_fills(cells, g), h, w, 0, 0) is Some {
        let (i, j) = choose|i: int, j: int|
            0 <= i < h && 0 <= j < w && #[trigger] cell_fills(cells, g)(i, j) == scan(
                cell_fills(cells, g),
                h,
                w,
                0,
                0,
            );
        let c = cell_at(i, j);
        lemma_set_first(g, cell_sides(c), Edge::X);
        lemma_set_first(g, cell_sides(c), Edge::Line);
        assert(cell_fills(cells, g)(i, j) == cell_fill(cells, g, c));
    }
    lemma_scan_in(intersection_fills(g), h + 1, w + 1, 0, 0);
    if scan(intersection_fills(g), h + 1, w + 1, 0, 0) is Some {
        let (i, j) = choose|i: int, j: int|
            0 <= i < h + 1 && 0 <= j < w + 1 && #[trigger] intersection_fills(g)(i, j) == scan(
                intersection_fills(g),
                h + 1,
                w + 1,
                0,
                0,
            );
        let x = intersection_at(i, j);
        lemma_set_first(g, g.adjacent_edges(x), Edge::X);
        assert(intersection_fills(g)(i, j) == intersection_fill(g, x));
    }
    lemma_scan_in(cell_constraints(cells, g), h, w, 0, 0);
    if scan(cell_constraints(cells, g), h, w, 0, 0) is Some {
        let (i, j) = choose|i: int, j: int|
            0 <= i < h && 0 <= j < w && #[trigger] cell_constraints(cells, g)(i, j) == scan(
                cell_constraints(cells, g),
                h,
                w,
                0,
                0,
            );
        lemma_cell_constraint(cells, g, cell_at(i, j));
    }
    lemma_scan_in(intersection_constraints(cells, g), h + 1, w + 1, 0, 0);
    if scan(intersection_constraints(cells, g), h + 1, w + 1, 0, 0) is Some {
        let (i, j) = choose|i: int, j: int|
            0 <= i < h + 1 && 0 <= j < w + 1 && #[trigger] intersection_constraints(cells, g)(i, j)
                == scan(intersection_constraints(cells, g), h + 1, w + 1, 0, 0);
        lemma_intersection_constraint(cells, g, intersection_at(i, j));
    }
    lemma_scan_in(horizontal_loop_crosses(g), h + 1, w, 0, 0);
    lemma_scan_in(vertical_loop_crosses(g), h, w + 1, 0, 0);
}

/// The edge grid that the solver reaches from `g`: it applies the pass's
/// deduction until a pass finds nothing.
pub open spec fn settle(cells: Seq<Seq<Cell>>, g: EdgeGrid) -> EdgeGrid
    decreases unknown_count(g),
    via settle_decreases
{
    match next_deduction(cells, g) {
        Some((e, value)) => if fits(cells, g) {
            settle(cells, g.set(e, value))
        } else {
            g
        },
        None => g,
    }
}

#[via_fn]
proof fn settle_decreases(cells: Seq<Seq<Cell>>, g: EdgeGrid) {
    if let Some((e, value)) = next_deduction(cells, g) {
        if fits(cells, g) {
            lemma_next_deduction(cells, g);
            lemma_unknown_count_set(g, e, value);
        }
    }
}

/// The edge grid that the solver returns for a clue grid.
pub open spec fn solution(cells: Seq<Seq<Cell>>) -> EdgeGrid {
    settle(cells, empty_grid(grid_width(cells), cells.len()))
}

} // verus!
