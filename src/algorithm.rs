use crate::cell::{Cell, Cells, grid_width};
use crate::constraint::Constraint;
use crate::direction::{CornerDirection, all_corners};
use crate::edge::Edge;
use crate::edges::Edges;
use crate::error::SolveError;
use crate::route::intersection_count;
use crate::solution::{
    lemma_next_deduction, lemma_set_keeps_fits, lemma_unknown_count_set, settle, solution,
    unknown_count,
};
use crate::grid::{EdgeGrid, first_some, lemma_follow_valid, no_intersection};
use crate::index::{CellIndex, EdgeDirection, EdgeIndex, IntersectionIndex};
use crate::rules::{
    all_valid, applied, cell_constraint, cell_constraint_kind, cell_constraints,
    cell_corner, cell_corner_constraint, cell_fill, cell_fills, cell_sides, certain_value,
    closes_loop, constraint, constraint_at, constraint_through_cell, constraint_value, crosses,
    crosses_from, first_unknown, fits, horizontal_loop_crosses, intersection_constraint,
    intersection_constraint_kind, intersection_constraints, intersection_corner_constraint,
    intersection_fill, intersection_fills, lines, lines_from, loop_cross, next_deduction, rank, reach, scan,
    set_first, vertical_loop_crosses, walk, walk_limit,
};
use vstd::prelude::*;

verus! {

proof fn lemma_cell_edges_valid(g: EdgeGrid, c: CellIndex)
    requires
        g.wf(),
        g.valid_cell(c),
    ensures
        all_valid(g, cell_sides(c)),
        forall|corner: CornerDirection| all_valid(g, #[trigger] cell_corner(c, corner)),
{
}

pub(crate) proof fn lemma_intersection_edges_valid(g: EdgeGrid, i: IntersectionIndex)
    requires
        g.wf(),
        g.valid_intersection(i),
    ensures
        all_valid(g, g.adjacent_edges(i)),
        forall|corner: CornerDirection| all_valid(g, #[trigger] g.corner_edges(i, corner)),
{
}

/// Counts how many of the edges are lines and how many are crosses; an
/// index that is `None` stands for an edge outside the grid and counts as a
/// cross.
pub(crate) fn count_edges(edges: &Edges, indices: &[Option<EdgeIndex>]) -> (r: (usize, usize))
    requires
        edges@.wf(),
        all_valid(edges@, indices@),
    ensures
        r.0 == lines(edges@, indices@),
        r.1 == crosses(edges@, indices@),
{
    let mut line_count: usize = 0;
    let mut x_count: usize = 0;
    let mut k: usize = 0;
    while k < indices.len()
        invariant
            edges@.wf(),
            all_valid(edges@, indices@),
            k <= indices@.len(),
            line_count + x_count <= k,
            line_count + lines_from(edges@, indices@, k as int) == lines(edges@, indices@),
            x_count + crosses_from(edges@, indices@, k as int) == crosses(edges@, indices@),
        decreases indices@.len() - k,
    {
        match indices[k] {
            Some(index) => {
                let edge = edges.get(index);
                match edge {
                    Edge::Line => line_count = line_count + 1,
                    Edge::X => x_count = x_count + 1,
                    Edge::Unknown => {},
                }
            },
            None => x_count = x_count + 1,
        }
        k = k + 1;
    }
    (line_count, x_count)
}

/// Sets the first unknown edge among `indices` to `value`. Returns whether
/// an edge was changed.
fn set_edges(edges: &mut Edges, indices: &[Option<EdgeIndex>], value: Edge) -> (r: bool)
    requires
        old(edges)@.wf(),
        all_valid(old(edges)@, indices@),
    ensures
        applied(old(edges)@, final(edges)@, set_first(old(edges)@, indices@, value), r),
{
    let ghost g = edges@;
    let mut k: usize = 0;
    while k < indices.len()
        invariant
            edges@ == g,
            g == old(edges)@,
            g.wf(),
            all_valid(g, indices@),
            k <= indices@.len(),
            first_unknown(g, indices@, 0) == first_unknown(g, indices@, k as int),
        decreases indices@.len() - k,
    {
        if let Some(index) = indices[k] {
            if edges.get(index).is_unknown() {
                assert(g.valid_edge(index));
                assert(first_unknown(g, indices@, k as int) == Some(index));
                edges.set(index, value);
                return true;
            }
        }
        k = k + 1;
    }
    false
}

/// Sets the values of the unknown edges adjacent to the cell indexed by
/// `index` if the known edges provide enough information to do so. Returns
/// whether an edge was changed.
fn fill_cell(cells: &Cells, edges: &mut Edges, index: CellIndex) -> (r: bool)
    requires
        cells.wf(),
        fits(cells@, old(edges)@),
        old(edges)@.valid_cell(index),
    ensures
        applied(old(edges)@, final(edges)@, cell_fill(cells@, old(edges)@, index), r),
{
    proof {
        lemma_cell_edges_valid(edges@, index);
    }
    let expected = cells.index(index).get_expected_line_count();
    match expected {
        None => false,
        Some(expected) => {
            let sides = index.index_edges();
            let indices = [Some(sides[0]), Some(sides[1]), Some(sides[2]), Some(sides[3])];
            assert(indices@ =~= cell_sides(index));
            let (line_count, x_count) = count_edges(edges, &indices);
            if line_count == expected {
                set_edges(edges, &indices, Edge::X)
            } else if x_count == 4 - expected {
                set_edges(edges, &indices, Edge::Line)
            } else {
                false
            }
        },
    }
}

/// Crosses out the unknown edges at the intersection `index` once two of
/// its edges are lines. Returns whether an edge was changed.
fn fill_intersection(edges: &mut Edges, index: IntersectionIndex) -> (r: bool)
    requires
        old(edges)@.wf(),
        old(edges)@.valid_intersection(index),
    ensures
        applied(old(edges)@, final(edges)@, intersection_fill(old(edges)@, index), r),
{
    proof {
        lemma_intersection_edges_valid(edges@, index);
    }
    let indices = edges.index_adjacent_edges(index);
    let (line_count, _) = count_edges(edges, &indices);
    if line_count == 2 {
        set_edges(edges, &indices, Edge::X)
    } else {
        false
    }
}

/// Local fill over the whole grid: the cells row by row, then the
/// intersections. Changes at most one edge; returns whether it did.
fn fill_certain_values(cells: &Cells, edges: &mut Edges) -> (r: bool)
    requires
        cells.wf(),
        fits(cells@, old(edges)@),
    ensures
        applied(old(edges)@, final(edges)@, certain_value(cells@, old(edges)@), r),
{
    let ghost g = edges@;
    let ghost f = cell_fills(cells@, g);
    let size = cells.get_size();
    let mut row: usize = 0;
    while row < size.height
        invariant
            edges@ == g,
            g == old(edges)@,
            cells.wf(),
            fits(cells@, g),
            f == cell_fills(cells@, g),
            size.height == g.height(),
            size.width == g.width(),
            row <= size.height,
            scan(f, g.height() as int, g.width() as int, 0, 0) == scan(
                f,
                g.height() as int,
                g.width() as int,
                row as int,
                0,
            ),
        decreases size.height - row,
    {
        let mut column: usize = 0;
        while column < size.width
            invariant
                edges@ == g,
                g == old(edges)@,
                cells.wf(),
                fits(cells@, g),
                f == cell_fills(cells@, g),
                size.height == g.height(),
                size.width == g.width(),
                row < size.height,
                column <= size.width,
                scan(f, g.height() as int, g.width() as int, 0, 0) == scan(
                    f,
                    g.height() as int,
                    g.width() as int,
                    row as int,
                    column as int,
                ),
            decreases size.width - column,
        {
            let index = CellIndex { row, column };
            assert(f(row as int, column as int) == cell_fill(cells@, g, index));
            if fill_cell(cells, edges, index) {
                assert(scan(f, g.height() as int, g.width() as int, row as int, column as int) == f(
                    row as int,
                    column as int,
                ));
                assert(certain_value(cells@, g) == cell_fill(cells@, g, index));
                return true;
            }
            column = column + 1;
        }
        row = row + 1;
    }
    let ghost h = intersection_fills(g);
    let mut row: usize = 0;
    while row <= size.height
        invariant
            edges@ == g,
            g == old(edges)@,
            g.wf(),
            h == intersection_fills(g),
            f == cell_fills(cells@, g),
            scan(f, g.height() as int, g.width() as int, 0, 0) is None,
            size.height == g.height(),
            size.width == g.width(),
            row <= size.height + 1,
            scan(h, g.height() + 1 as int, g.width() + 1 as int, 0, 0) == scan(
                h,
                g.height() + 1 as int,
                g.width() + 1 as int,
                row as int,
                0,
            ),
        decreases size.height + 1 - row,
    {
        let mut column: usize = 0;
        while column <= size.width
            invariant
                edges@ == g,
                g == old(edges)@,
                g.wf(),
                h == intersection_fills(g),
                f == cell_fills(cells@, g),
                scan(f, g.height() as int, g.width() as int, 0, 0) is None,
                size.height == g.height(),
                size.width == g.width(),
                row <= size.height,
                column <= size.width + 1,
                scan(h, g.height() + 1 as int, g.width() + 1 as int, 0, 0) == scan(
                    h,
                    g.height() + 1 as int,
                    g.width() + 1 as int,
                    row as int,
                    column as int,
                ),
            decreases size.width + 1 - column,
        {
            let index = IntersectionIndex { row, column };
            assert(h(row as int, column as int) == intersection_fill(g, index));
            if fill_intersection(edges, index) {
                assert(scan(
                    h,
                    g.height() + 1 as int,
                    g.width() + 1 as int,
                    row as int,
                    column as int,
                ) == h(row as int, column as int));
                assert(certain_value(cells@, g) == intersection_fill(g, index));
                return true;
            }
            column = column + 1;
        }
        row = row + 1;
    }
    false
}

/// What a constraint sets at a corner with the given counts of lines and
/// crosses.
fn constraint_value_of(constraint: Constraint, line_count: usize, x_count: usize) -> (r: Option<
    Edge,
>)
    ensures
        r == constraint_value(constraint, line_count as nat, x_count as nat),
{
    match constraint {
        Constraint::Line => if line_count == 1 && x_count == 0 {
            Some(Edge::X)
        } else if line_count == 0 && x_count == 1 {
            Some(Edge::Line)
        } else {
            None
        },
        Constraint::NoCorner => if line_count == 1 && x_count == 0 {
            Some(Edge::X)
        } else {
            None
        },
        Constraint::NoLine => if line_count == 0 && x_count == 1 {
            Some(Edge::X)
        } else if line_count == 1 && x_count == 0 {
            Some(Edge::Line)
        } else {
            None
        },
    }
}

/// The constraint that a clue and the counts at one of its corners give.
fn cell_constraint_kind_of(clue: Cell, line_count: usize, x_count: usize) -> (r: Option<Constraint>)
    ensures
        r == cell_constraint_kind(clue, line_count as nat, x_count as nat),
{
    match clue {
        Cell::One => if line_count == 0 && x_count == 2 {
            Some(Constraint::Line)
        } else {
            None
        },
        Cell::Two => if line_count == 1 && x_count == 1 {
            Some(Constraint::Line)
        } else if line_count == 0 && x_count == 1 {
            Some(Constraint::NoCorner)
        } else {
            None
        },
        Cell::Three => Some(Constraint::NoCorner),
        _ => None,
    }
}

/// The constraint that the counts in one quadrant of an intersection give
/// on the opposite quadrant.
fn intersection_constraint_kind_of(line_count: usize, x_count: usize) -> (r: Option<Constraint>)
    ensures
        r == intersection_constraint_kind(line_count as nat, x_count as nat),
{
    if line_count == 1 && x_count == 0 {
        Some(Constraint::NoCorner)
    } else if line_count == 1 && x_count == 1 {
        Some(Constraint::Line)
    } else if line_count == 0 && x_count == 2 {
        Some(Constraint::NoLine)
    } else {
        None
    }
}

/// Applies `constraint` to the quadrant `to` of the intersection `from`:
/// sets an edge there where the constraint decides one, and otherwise
/// carries it into the cell diagonally beyond. Returns whether an edge was
/// changed.
fn apply_constraint(
    cells: &Cells,
    edges: &mut Edges,
    constraint: Constraint,
    from: IntersectionIndex,
    to: CornerDirection,
) -> (r: bool)
    requires
        cells.wf(),
        fits(cells@, old(edges)@),
        old(edges)@.valid_intersection(from),
    ensures
        applied(old(edges)@, final(edges)@, constraint_at(cells@, old(edges)@, constraint, from, to), r),
    decreases rank(constraint), reach(cells@.len(), grid_width(cells@), from, to), 1nat,
{
    proof {
        lemma_intersection_edges_valid(edges@, from);
    }
    let near = edges.index_adjacent_corner_edges(from, to);
    let (line_count, x_count) = count_edges(edges, &near);
    let set_value = match constraint_value_of(constraint, line_count, x_count) {
        Some(value) => set_edges(edges, &near, value),
        None => false,
    };
    if set_value {
        return true;
    }
    match edges.index_diagonally_from_intersection(from, to) {
        Some(next_cell) => apply_constraint_to_cell(cells, edges, constraint, next_cell, to),
        None => false,
    }
}

/// Applies `constraint`, which reaches the cell `index` at its corner
/// opposite `to`, by the cell's clue; depending on the clue it is carried on
/// to the next intersection. Returns whether an edge was changed.
fn apply_constraint_to_cell(
    cells: &Cells,
    edges: &mut Edges,
    constraint: Constraint,
    index: CellIndex,
    to: CornerDirection,
) -> (r: bool)
    requires
        cells.wf(),
        fits(cells@, old(edges)@),
        old(edges)@.valid_cell(index),
    ensures
        applied(
            old(edges)@,
            final(edges)@,
            constraint_through_cell(cells@, old(edges)@, constraint, index, to),
            r,
        ),
    decreases rank(constraint), reach(cells@.len(), grid_width(cells@), index.intersection(to), to)
        + 1, 0nat,
{
    proof {
        lemma_cell_edges_valid(edges@, index);
    }
    let opposite = to.get_opposite();
    let near_edges = index.index_corner_edges(opposite);
    let near = [Some(near_edges[0]), Some(near_edges[1])];
    assert(near@ =~= cell_corner(index, to.opposite()));
    let far_edges = index.index_corner_edges(to);
    let far = [Some(far_edges[0]), Some(far_edges[1])];
    assert(far@ =~= cell_corner(index, to));
    let next_intersection = index.index_intersection(to);
    let (line_count, x_count) = count_edges(edges, &far);
    match cells.index(index) {
        Cell::One => match constraint {
            Constraint::Line => set_edges(edges, &far, Edge::X),
            Constraint::NoLine => set_edges(edges, &near, Edge::X),
            Constraint::NoCorner => false,
        },
        Cell::Two => match constraint {
            Constraint::Line => {
                if line_count > 0 {
                    set_edges(edges, &far, Edge::X)
                } else if x_count > 0 {
                    set_edges(edges, &far, Edge::Line)
                } else {
                    apply_constraint(cells, edges, Constraint::Line, next_intersection, to)
                }
            },
            Constraint::NoCorner => apply_constraint(
                cells,
                edges,
                Constraint::NoCorner,
                next_intersection,
                to,
            ),
            Constraint::NoLine => {
                if x_count > 0 {
                    set_edges(edges, &near, Edge::Line)
                } else {
                    let adjacent = to.get_adjacent();
                    let first = index.index_intersection(adjacent[0]);
                    if apply_constraint(cells, edges, Constraint::Line, first, adjacent[0]) {
                        return true;
                    }
                    let second = index.index_intersection(adjacent[1]);
                    if apply_constraint(cells, edges, Constraint::Line, second, adjacent[1]) {
                        return true;
                    }
                    apply_constraint(cells, edges, Constraint::NoLine, next_intersection, to)
                }
            },
        },
        Cell::Three => match constraint {
            Constraint::Line => set_edges(edges, &far, Edge::Line),
            Constraint::NoCorner => set_edges(edges, &far, Edge::Line),
            Constraint::NoLine => {
                if set_edges(edges, &near, Edge::Line) {
                    return true;
                }
                apply_constraint(cells, edges, Constraint::Line, next_intersection, to)
            },
        },
        _ => false,
    }
}

/// Looks at the four corners of the cell `index`, north-east, south-east,
/// south-west and north-west, for a constraint that sets an edge. Returns
/// whether an edge was changed.
fn check_cell_constraints(cells: &Cells, edges: &mut Edges, index: CellIndex) -> (r: bool)
    requires
        cells.wf(),
        fits(cells@, old(edges)@),
        old(edges)@.valid_cell(index),
    ensures
        applied(old(edges)@, final(edges)@, cell_constraint(cells@, old(edges)@, index), r),
{
    proof {
        lemma_cell_edges_valid(edges@, index);
    }
    let ghost g = edges@;
    let ghost s = Seq::new(4, |k: int| cell_corner_constraint(cells@, g, index, all_corners()[k]));
    let corners = CornerDirection::all();
    let mut k: usize = 0;
    while k < 4
        invariant
            edges@ == g,
            g == old(edges)@,
            cells.wf(),
            fits(cells@, g),
            g.valid_cell(index),
            forall|corner: CornerDirection| all_valid(g, #[trigger] cell_corner(index, corner)),
            corners@ == all_corners(),
            s == Seq::new(4, |j: int| cell_corner_constraint(cells@, g, index, all_corners()[j])),
            k <= 4,
            first_some(s, 0) == first_some(s, k as int),
        decreases 4 - k,
    {
        let direction = corners[k];
        let corner_edges = index.index_corner_edges(direction);
        let indices = [Some(corner_edges[0]), Some(corner_edges[1])];
        assert(indices@ =~= cell_corner(index, direction));
        let (line_count, x_count) = count_edges(edges, &indices);
        if let Some(constraint) = cell_constraint_kind_of(cells.index(index), line_count, x_count) {
            let opposite = direction.get_opposite();
            let intersection = index.index_intersection(opposite);
            if apply_constraint(cells, edges, constraint, intersection, opposite) {
                assert(first_some(s, k as int) == s[k as int]);
                return true;
            }
        }
        k = k + 1;
    }
    false
}

/// Looks at the four quadrants of the intersection `index` for a
/// constraint on the opposite quadrant that sets an edge. Returns whether an
/// edge was changed.
fn check_intersection_constraints(cells: &Cells, edges: &mut Edges, index: IntersectionIndex) -> (r:
    bool)
    requires
        cells.wf(),
        fits(cells@, old(edges)@),
        old(edges)@.valid_intersection(index),
    ensures
        applied(old(edges)@, final(edges)@, intersection_constraint(cells@, old(edges)@, index), r),
{
    proof {
        lemma_intersection_edges_valid(edges@, index);
    }
    let ghost g = edges@;
    let ghost s = Seq::new(
        4,
        |k: int| intersection_corner_constraint(cells@, g, index, all_corners()[k]),
    );
    let corners = CornerDirection::all();
    let mut k: usize = 0;
    while k < 4
        invariant
            edges@ == g,
            g == old(edges)@,
            cells.wf(),
            fits(cells@, g),
            g.valid_intersection(index),
            forall|corner: CornerDirection| all_valid(g, #[trigger] g.corner_edges(index, corner)),
            corners@ == all_corners(),
            s == Seq::new(
                4,
                |j: int| intersection_corner_constraint(cells@, g, index, all_corners()[j]),
            ),
            k <= 4,
            first_some(s, 0) == first_some(s, k as int),
        decreases 4 - k,
    {
        let direction = corners[k];
        let indices = edges.index_adjacent_corner_edges(index, direction);
        let (line_count, x_count) = count_edges(edges, &indices);
        if let Some(constraint) = intersection_constraint_kind_of(line_count, x_count) {
            let opposite = direction.get_opposite();
            if apply_constraint(cells, edges, constraint, index, opposite) {
                assert(first_some(s, k as int) == s[k as int]);
                return true;
            }
        }
        k = k + 1;
    }
    false
}

/// The constraint check over the whole grid: the cells row by row, then the
/// intersections. Changes at most one edge; returns whether it did.
fn check_constraints(cells: &Cells, edges: &mut Edges) -> (r: bool)
    requires
        cells.wf(),
        fits(cells@, old(edges)@),
    ensures
        applied(old(edges)@, final(edges)@, constraint(cells@, old(edges)@), r),
{
    let ghost g = edges@;
    let ghost f = cell_constraints(cells@, g);
    let size = cells.get_size();
    let mut row: usize = 0;
    while row < size.height
        invariant
            edges@ == g,
            g == old(edges)@,
            cells.wf(),
            fits(cells@, g),
            f == cell_constraints(cells@, g),
            size.height == g.height(),
            size.width == g.width(),
            row <= size.height,
            scan(f, g.height() as int, g.width() as int, 0, 0) == scan(
                f,
                g.height() as int,
                g.width() as int,
                row as int,
                0,
            ),
        decreases size.height - row,
    {
        let mut column: usize = 0;
        while column < size.width
            invariant
                edges@ == g,
                g == old(edges)@,
                cells.wf(),
                fits(cells@, g),
                f == cell_constraints(cells@, g),
                size.height == g.height(),
                size.width == g.width(),
                row < size.height,
                column <= size.width,
                scan(f, g.height() as int, g.width() as int, 0, 0) == scan(
                    f,
                    g.height() as int,
                    g.width() as int,
                    row as int,
                    column as int,
                ),
            decreases size.width - column,
        {
            let index = CellIndex { row, column };
            assert(f(row as int, column as int) == cell_constraint(cells@, g, index));
            if check_cell_constraints(cells, edges, index) {
                assert(scan(f, g.height() as int, g.width() as int, row as int, column as int) == f(
                    row as int,
                    column as int,
                ));
                assert(constraint(cells@, g) == cell_constraint(cells@, g, index));
                return true;
            }
            column = column + 1;
        }
        row = row + 1;
    }
    let ghost h = intersection_constraints(cells@, g);
    let mut row: usize = 0;
    while row <= size.height
        invariant
            edges@ == g,
            g == old(edges)@,
            cells.wf(),
            fits(cells@, g),
            h == intersection_constraints(cells@, g),
            f == cell_constraints(cells@, g),
            scan(f, g.height() as int, g.width() as int, 0, 0) is None,
            size.height == g.height(),
            size.width == g.width(),
            row <= size.height + 1,
            scan(h, g.height() + 1 as int, g.width() + 1 as int, 0, 0) == scan(
                h,
                g.height() + 1 as int,
                g.width() + 1 as int,
                row as int,
                0,
            ),
        decreases size.height + 1 - row,
    {
        let mut column: usize = 0;
        while column <= size.width
            invariant
                edges@ == g,
                g == old(edges)@,
                cells.wf(),
                fits(cells@, g),
                h == intersection_constraints(cells@, g),
                f == cell_constraints(cells@, g),
                scan(f, g.height() as int, g.width() as int, 0, 0) is None,
                size.height == g.height(),
                size.width == g.width(),
                row <= size.height,
                column <= size.width + 1,
                scan(h, g.height() + 1 as int, g.width() + 1 as int, 0, 0) == scan(
                    h,
                    g.height() + 1 as int,
                    g.width() + 1 as int,
                    row as int,
                    column as int,
                ),
            decreases size.width + 1 - column,
        {
            let index = IntersectionIndex { row, column };
            assert(h(row as int, column as int) == intersection_constraint(cells@, g, index));
            if check_intersection_constraints(cells, edges, index) {
                assert(scan(
                    h,
                    g.height() + 1 as int,
                    g.width() + 1 as int,
                    row as int,
                    column as int,
                ) == h(row as int, column as int));
                assert(constraint(cells@, g) == intersection_constraint(cells@, g, index));
                return true;
            }
            column = column + 1;
        }
        row = row + 1;
    }
    false
}

/// Whether a line at `edge_index` would close a loop: follows the lines
/// from one end of the edge and tells whether the walk ends at the other.
pub fn would_close_loop(edges: &Edges, edge_index: EdgeIndex) -> (r: bool)
    requires
        edges@.wf(),
        edges@.valid_edge(edge_index),
    ensures
        r == closes_loop(edges@, edge_index),
{
    let ends = edge_index.get_intersections();
    let start = ends[0];
    let end = ends[1];
    let limit = intersection_count(edges);
    let mut previous = IntersectionIndex { row: usize::MAX, column: usize::MAX };
    let mut index = start;
    let mut fuel: u128 = limit;
    while fuel > 0
        invariant
            edges@.wf(),
            edges@.valid_intersection(index),
            walk(edges@, previous, index, fuel as nat) == walk(
                edges@,
                no_intersection(),
                start,
                walk_limit(edges@),
            ),
        ensures
            walk(edges@, no_intersection(), start, walk_limit(edges@)) == index,
        decreases fuel,
    {
        match edges.follow_line(&previous, &index) {
            Some(next) => {
                proof {
                    lemma_follow_valid(edges@, previous, index);
                }
                previous = index;
                index = next;
                fuel = fuel - 1;
            },
            None => {
                break ;
            },
        }
    }
    index == end
}

/// The loop check: the first unknown edge, horizontal ones row by row and
/// then vertical ones, whose line would close a loop is crossed out.
/// Returns whether an edge was changed.
pub fn check_loops(edges: &mut Edges) -> (r: bool)
    requires
        old(edges)@.wf(),
    ensures
        applied(old(edges)@, final(edges)@, loop_cross(old(edges)@), r),
{
    let ghost g = edges@;
    let ghost f = horizontal_loop_crosses(g);
    let height = edges.vertical.len();
    let width = edges.horizontal[0].len();
    assert(g.horizontal[0] == edges.horizontal@[0]@);
    let mut row: usize = 0;
    while row <= height
        invariant
            edges@ == g,
            g == old(edges)@,
            g.wf(),
            f == horizontal_loop_crosses(g),
            height == g.height(),
            width == g.width(),
            row <= height + 1,
            scan(f, g.height() + 1 as int, g.width() as int, 0, 0) == scan(
                f,
                g.height() + 1 as int,
                g.width() as int,
                row as int,
                0,
            ),
        decreases height + 1 - row,
    {
        let mut column: usize = 0;
        while column < width
            invariant
                edges@ == g,
                g == old(edges)@,
                g.wf(),
                f == horizontal_loop_crosses(g),
                height == g.height(),
                width == g.width(),
                row <= height,
                column <= width,
                scan(f, g.height() + 1 as int, g.width() as int, 0, 0) == scan(
                    f,
                    g.height() + 1 as int,
                    g.width() as int,
                    row as int,
                    column as int,
                ),
            decreases width - column,
        {
            let index = EdgeIndex { direction: EdgeDirection::Horizontal, row, column };
            if edges.get(index).is_unknown() && would_close_loop(edges, index) {
                assert(scan(f, g.height() + 1 as int, g.width() as int, row as int, column as int)
                    == f(row as int, column as int));
                edges.set(index, Edge::X);
                assert(loop_cross(g) == Some((index, Edge::X)));
                return true;
            }
            column = column + 1;
        }
        row = row + 1;
    }
    let ghost h = vertical_loop_crosses(g);
    let mut row: usize = 0;
    while row < height
        invariant
            edges@ == g,
            g == old(edges)@,
            g.wf(),
            f == horizontal_loop_crosses(g),
            h == vertical_loop_crosses(g),
            scan(f, g.height() + 1 as int, g.width() as int, 0, 0) is None,
            height == g.height(),
            width == g.width(),
            row <= height,
            scan(h, g.height() as int, g.width() + 1 as int, 0, 0) == scan(
                h,
                g.height() as int,
                g.width() + 1 as int,
                row as int,
                0,
            ),
        decreases height - row,
    {
        let mut column: usize = 0;
        while column <= width
            invariant
                edges@ == g,
                g == old(edges)@,
                g.wf(),
                f == horizontal_loop_crosses(g),
                h == vertical_loop_crosses(g),
                scan(f, g.height() + 1 as int, g.width() as int, 0, 0) is None,
                height == g.height(),
                width == g.width(),
                row < height,
                column <= width + 1,
                scan(h, g.height() as int, g.width() + 1 as int, 0, 0) == scan(
                    h,
                    g.height() as int,
                    g.width() + 1 as int,
                    row as int,
                    column as int,
                ),
            decreases width + 1 - column,
        {
            let index = EdgeIndex { direction: EdgeDirection::Vertical, row, column };
            if edges.get(index).is_unknown() && would_close_loop(edges, index) {
                assert(scan(h, g.height() as int, g.width() + 1 as int, row as int, column as int)
                    == h(row as int, column as int));
                edges.set(index, Edge::X);
                assert(loop_cross(g) == Some((index, Edge::X)));
                return true;
            }
            column = column + 1;
        }
        row = row + 1;
    }
    false
}

/// Returns the edges that the solver derives for the puzzle `cells`: it
/// repeats local fill, the constraint check and the loop check, each pass
/// setting one edge, until a pass sets none. The result may be incomplete
/// where these rules find nothing more. Fails with `InvalidDimensions` where
/// the grid has no cell.
pub fn solve(cells: &Cells) -> (r: Result<Edges, SolveError>)
    requires
        cells.wf(),
    ensures
        r is Err <==> cells@.len() == 0 || grid_width(cells@) == 0,
        r matches Err(e) ==> e == SolveError::InvalidDimensions,
        r matches Ok(edges) ==> edges@ == solution(cells@) && edges@.wf(),
{
    let size = cells.get_size();
    let mut edges = match Edges::create_empty(&size) {
        Ok(edges) => edges,
        Err(error) => return Err(error),
    };
    loop
        invariant
            cells.wf(),
            fits(cells@, edges@),
            settle(cells@, edges@) == solution(cells@),
        ensures
            edges@ == solution(cells@),
            edges@.wf(),
        decreases unknown_count(edges@),
    {
        let ghost g = edges@;
        proof {
            lemma_next_deduction(cells@, g);
        }
        if !fill_certain_values(cells, &mut edges) && !check_constraints(cells, &mut edges)
            && !check_loops(&mut edges) {
            assert(next_deduction(cells@, g) is None);
            assert(settle(cells@, g) == g);
            break ;
        }
        proof {
            let (e, value) = next_deduction(cells@, g)->0;
            assert(edges@ == g.set(e, value));
            lemma_set_keeps_fits(cells@, g, e, value);
            lemma_unknown_count_set(g, e, value);
        }
    }
    Ok(edges)
}

} // verus!
