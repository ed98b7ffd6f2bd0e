use crate::cell::{Cell, grid_width, rectangular};
use crate::constraint::Constraint;
use crate::direction::{CornerDirection, VerticalDirection, HorizontalDirection, all_corners};
use crate::edge::Edge;
use crate::grid::{EdgeGrid, first_some, no_intersection};
use crate::index::{CellIndex, EdgeDirection, EdgeIndex, IntersectionIndex};
use vstd::prelude::*;

verus! {

/// One deduction: the edge to set and the state it gets. `None` where the
/// rule finds nothing to set.
pub type Deduction = Option<(EdgeIndex, Edge)>;

/// `after` is `before` with the deduction `d` applied, and `changed` says
/// whether it set an edge.
pub open spec fn applied(before: EdgeGrid, after: EdgeGrid, d: Deduction, changed: bool) -> bool {
    match d {
        None => !changed && after == before,
        Some((e, value)) => changed && after == before.set(e, value),
    }
}

/// The clue grid and the edge grid belong to one puzzle.
pub open spec fn fits(cells: Seq<Seq<Cell>>, g: EdgeGrid) -> bool {
    &&& g.wf()
    &&& rectangular(cells)
    &&& cells.len() == g.height()
    &&& grid_width(cells) == g.width()
}

pub open spec fn clue(cells: Seq<Seq<Cell>>, c: CellIndex) -> Cell {
    cells[c.row as int][c.column as int]
}

/// Every index of `s` that is present names an edge of the grid.
pub open spec fn all_valid(g: EdgeGrid, s: Seq<Option<EdgeIndex>>) -> bool {
    forall|k: int| 0 <= k < s.len() && (#[trigger] s[k]) is Some ==> g.valid_edge(s[k]->0)
}

/// The number of lines among the edges of `s` from position `k` on.
pub open spec fn lines_from(g: EdgeGrid, s: Seq<Option<EdgeIndex>>, k: int) -> nat
    decreases s.len() - k,
{
    if k < 0 || k >= s.len() {
        0
    } else {
        (if s[k] matches Some(e) && g.at(e) == Edge::Line {
            1nat
        } else {
            0nat
        }) + lines_from(g, s, k + 1)
    }
}

/// The number of crosses among the edges of `s` from position `k` on; an
/// edge outside the grid (`None`) counts as a cross.
pub open spec fn crosses_from(g: EdgeGrid, s: Seq<Option<EdgeIndex>>, k: int) -> nat
    decreases s.len() - k,
{
    if k < 0 || k >= s.len() {
        0
    } else {
        (if s[k] is None || (s[k] matches Some(e) && g.at(e) == Edge::X) {
            1nat
        } else {
            0nat
        }) + crosses_from(g, s, k + 1)
    }
}

pub open spec fn lines(g: EdgeGrid, s: Seq<Option<EdgeIndex>>) -> nat {
    lines_from(g, s, 0)
}

pub open spec fn crosses(g: EdgeGrid, s: Seq<Option<EdgeIndex>>) -> nat {
    crosses_from(g, s, 0)
}

/// The first unknown edge of `s` from position `k` on.
pub open spec fn first_unknown(g: EdgeGrid, s: Seq<Option<EdgeIndex>>, k: int) -> Option<EdgeIndex>
    decreases s.len() - k,
{
    if k < 0 || k >= s.len() {
        None
    } else {
        match s[k] {
            Some(e) => if g.valid_edge(e) && g.at(e) == Edge::Unknown {
                Some(e)
            } else {
                first_unknown(g, s, k + 1)
            },
            None => first_unknown(g, s, k + 1),
        }
    }
}

/// Setting the edges of `s` to `value`: only the first unknown one is set.
pub open spec fn set_first(g: EdgeGrid, s: Seq<Option<EdgeIndex>>, value: Edge) -> Deduction {
    match first_unknown(g, s, 0) {
        Some(e) => Some((e, value)),
        None => None,
    }
}

/// The four edges around a cell.
pub open spec fn cell_sides(c: CellIndex) -> Seq<Option<EdgeIndex>> {
    seq![Some(c.edges()[0]), Some(c.edges()[1]), Some(c.edges()[2]), Some(c.edges()[3])]
}

/// The two edges at one corner of a cell.
pub open spec fn cell_corner(c: CellIndex, corner: CornerDirection) -> Seq<Option<EdgeIndex>> {
    seq![Some(c.corner_edges(corner)[0]), Some(c.corner_edges(corner)[1])]
}

/// The first `Some` of `f` over a grid of `rows` by `columns` positions, in
/// row-major order, from position (r, c) on.
pub open spec fn scan<A>(
    f: spec_fn(int, int) -> Option<A>,
    rows: int,
    columns: int,
    r: int,
    c: int,
) -> Option<A>
    decreases rows - r, columns - c,
{
    if r < 0 || c < 0 || r >= rows {
        None
    } else if c >= columns {
        scan(f, rows, columns, r + 1, 0)
    } else if f(r, c) is Some {
        f(r, c)
    } else {
        scan(f, rows, columns, r, c + 1)
    }
}

pub open spec fn cell_at(r: int, c: int) -> CellIndex {
    CellIndex { row: r as usize, column: c as usize }
}

pub open spec fn intersection_at(r: int, c: int) -> IntersectionIndex {
    IntersectionIndex { row: r as usize, column: c as usize }
}

// ---- Local fill ----

/// The cell rule: once a clue's lines are all there the other edges are
/// crosses; once its crosses are all there the other edges are lines.
pub open spec fn cell_fill(cells: Seq<Seq<Cell>>, g: EdgeGrid, c: CellIndex) -> Deduction {
    let sides = cell_sides(c);
    match clue(cells, c).expected_lines() {
        None => None,
        Some(k) => if lines(g, sides) == k {
            set_first(g, sides, Edge::X)
        } else if crosses(g, sides) == 4 - k {
            set_first(g, sides, Edge::Line)
        } else {
            None
        },
    }
}

/// The intersection rule: two lines at an intersection cross out the rest.
pub open spec fn intersection_fill(g: EdgeGrid, i: IntersectionIndex) -> Deduction {
    let adjacent = g.adjacent_edges(i);
    if lines(g, adjacent) == 2 {
        set_first(g, adjacent, Edge::X)
    } else {
        None
    }
}

pub open spec fn cell_fills(cells: Seq<Seq<Cell>>, g: EdgeGrid) -> spec_fn(int, int) -> Deduction {
    |r: int, c: int| cell_fill(cells, g, cell_at(r, c))
}

pub open spec fn intersection_fills(g: EdgeGrid) -> spec_fn(int, int) -> Deduction {
    |r: int, c: int| intersection_fill(g, intersection_at(r, c))
}

/// Local fill: the first cell that the cell rule changes, row by row, else
/// the first intersection that the intersection rule changes.
pub open spec fn certain_value(cells: Seq<Seq<Cell>>, g: EdgeGrid) -> Deduction {
    let by_cell = scan(cell_fills(cells, g), g.height() as int, g.width() as int, 0, 0);
    if by_cell is Some {
        by_cell
    } else {
        scan(intersection_fills(g), g.height() + 1 as int, g.width() + 1 as int, 0, 0)
    }
}

// ---- Corner constraints ----

/// What a constraint sets at a corner whose edges are already partly known:
/// `None` where the counts of lines and crosses decide nothing.
pub open spec fn constraint_value(constraint: Constraint, lines: nat, crosses: nat) -> Option<Edge> {
    match constraint {
        Constraint::Line => if lines == 1 && crosses == 0 {
            Some(Edge::X)
        } else if lines == 0 && crosses == 1 {
            Some(Edge::Line)
        } else {
            None
        },
        Constraint::NoCorner => if lines == 1 && crosses == 0 {
            Some(Edge::X)
        } else {
            None
        },
        Constraint::NoLine => if lines == 0 && crosses == 1 {
            Some(Edge::X)
        } else if lines == 1 && crosses == 0 {
            Some(Edge::Line)
        } else {
            None
        },
    }
}

/// `NoLine` may split into `Line` constraints; no other kind changes.
pub open spec fn rank(constraint: Constraint) -> nat {
    match constraint {
        Constraint::NoLine => 1,
        _ => 0,
    }
}

/// How far the grid reaches beyond intersection `i` towards `corner`, in
/// rows plus columns.
pub open spec fn reach(height: nat, width: nat, i: IntersectionIndex, corner: CornerDirection) -> nat {
    let vertical = if corner.vertical == VerticalDirection::North {
        i.row as nat
    } else if i.row <= height {
        (height - i.row) as nat
    } else {
        0
    };
    let horizontal = if corner.horizontal == HorizontalDirection::West {
        i.column as nat
    } else if i.column <= width {
        (width - i.column) as nat
    } else {
        0
    };
    vertical + horizontal
}

/// A constraint on the quadrant `to` of intersection `from`: set an edge
/// there if the constraint and the known edges decide one, else carry it
/// into the cell diagonally beyond.
pub open spec fn constraint_at(
    cells: Seq<Seq<Cell>>,
    g: EdgeGrid,
    constraint: Constraint,
    from: IntersectionIndex,
    to: CornerDirection,
) -> Deduction
    decreases rank(constraint), reach(g.height(), g.width(), from, to), 1nat
        when g.wf()
{
    let near = g.corner_edges(from, to);
    let set = match constraint_value(constraint, lines(g, near), crosses(g, near)) {
        Some(value) => set_first(g, near, value),
        None => None,
    };
    if set is Some {
        set
    } else {
        match g.diagonal_cell(from, to) {
            Some(cell) => constraint_through_cell(cells, g, constraint, cell, to),
            None => None,
        }
    }
}

/// A constraint that reaches `cell` at its corner opposite `to`, applied
/// by the cell's clue and carried on to its corner `to`.
pub open spec fn constraint_through_cell(
    cells: Seq<Seq<Cell>>,
    g: EdgeGrid,
    constraint: Constraint,
    cell: CellIndex,
    to: CornerDirection,
) -> Deduction
    decreases rank(constraint), reach(g.height(), g.width(), cell.intersection(to), to) + 1, 0nat
        when g.wf()
{
    let near = cell_corner(cell, to.opposite());
    let far = cell_corner(cell, to);
    let next = cell.intersection(to);
    let far_lines = lines(g, far);
    let far_crosses = crosses(g, far);
    match clue(cells, cell) {
        Cell::One => match constraint {
            Constraint::Line => set_first(g, far, Edge::X),
            Constraint::NoLine => set_first(g, near, Edge::X),
            Constraint::NoCorner => None,
        },
        Cell::Two => match constraint {
            Constraint::Line => if far_lines > 0 {
                set_first(g, far, Edge::X)
            } else if far_crosses > 0 {
                set_first(g, far, Edge::Line)
            } else {
                constraint_at(cells, g, Constraint::Line, next, to)
            },
            Constraint::NoCorner => constraint_at(cells, g, Constraint::NoCorner, next, to),
            Constraint::NoLine => if far_crosses > 0 {
                set_first(g, near, Edge::Line)
            } else {
                let adjacent = to.adjacent();
                let first = constraint_at(
                    cells,
                    g,
                    Constraint::Line,
                    cell.intersection(adjacent[0]),
                    adjacent[0],
                );
                if first is Some {
                    first
                } else {
                    let second = constraint_at(
                        cells,
                        g,
                        Constraint::Line,
                        cell.intersection(adjacent[1]),
                        adjacent[1],
                    );
                    if second is Some {
                        second
                    } else {
                        constraint_at(cells, g, Constraint::NoLine, next, to)
                    }
                }
            },
        },
        Cell::Three => match constraint {
            Constraint::Line => set_first(g, far, Edge::Line),
            Constraint::NoCorner => set_first(g, far, Edge::Line),
            Constraint::NoLine => {
                let set = set_first(g, near, Edge::Line);
                if set is Some {
                    set
                } else {
                    constraint_at(cells, g, Constraint::Line, next, to)
                }
            },
        },
        _ => None,
    }
}

/// The constraint that a clue and the counts at one of its corners give.
pub open spec fn cell_constraint_kind(clue: Cell, lines: nat, crosses: nat) -> Option<Constraint> {
    match clue {
        Cell::One => if lines == 0 && crosses == 2 {
            Some(Constraint::Line)
        } else {
            None
        },
        Cell::Two => if lines == 1 && crosses == 1 {
            Some(Constraint::Line)
        } else if lines == 0 && crosses == 1 {
            Some(Constraint::NoCorner)
        } else {
            None
        },
        Cell::Three => Some(Constraint::NoCorner),
        _ => None,
    }
}

/// The constraint that the counts in one quadrant of an intersection give
/// on the opposite quadrant.
pub open spec fn intersection_constraint_kind(lines: nat, crosses: nat) -> Option<Constraint> {
    if lines == 1 && crosses == 0 {
        Some(Constraint::NoCorner)
    } else if lines == 1 && crosses == 1 {
        Some(Constraint::Line)
    } else if lines == 0 && crosses == 2 {
        Some(Constraint::NoLine)
    } else {
        None
    }
}

/// The constraint that the corner `corner` of cell `c` gives, applied
/// diagonally from the opposite corner.
pub open spec fn cell_corner_constraint(
    cells: Seq<Seq<Cell>>,
    g: EdgeGrid,
    c: CellIndex,
    corner: CornerDirection,
) -> Deduction {
    let edges = cell_corner(c, corner);
    match cell_constraint_kind(clue(cells, c), lines(g, edges), crosses(g, edges)) {
        Some(constraint) => constraint_at(
            cells,
            g,
            constraint,
            c.intersection(corner.opposite()),
            corner.opposite(),
        ),
        None => None,
    }
}

/// The constraint that the quadrant `corner` of intersection `i` gives on
/// the opposite quadrant.
pub open spec fn intersection_corner_constraint(
    cells: Seq<Seq<Cell>>,
    g: EdgeGrid,
    i: IntersectionIndex,
    corner: CornerDirection,
) -> Deduction {
    let edges = g.corner_edges(i, corner);
    match intersection_constraint_kind(lines(g, edges), crosses(g, edges)) {
        Some(constraint) => constraint_at(cells, g, constraint, i, corner.opposite()),
        None => None,
    }
}

/// The first corner of cell `c`, in the order north-east, south-east,
/// south-west, north-west, whose constraint sets an edge.
pub open spec fn cell_constraint(cells: Seq<Seq<Cell>>, g: EdgeGrid, c: CellIndex) -> Deduction {
    first_some(Seq::new(4, |k: int| cell_corner_constraint(cells, g, c, all_corners()[k])), 0)
}

/// The first quadrant of intersection `i` whose constraint sets an edge.
pub open spec fn intersection_constraint(
    cells: Seq<Seq<Cell>>,
    g: EdgeGrid,
    i: IntersectionIndex,
) -> Deduction {
    first_some(
        Seq::new(4, |k: int| intersection_corner_constraint(cells, g, i, all_corners()[k])),
        0,
    )
}

pub open spec fn cell_constraints(cells: Seq<Seq<Cell>>, g: EdgeGrid) -> spec_fn(int, int) -> Deduction {
    |r: int, c: int| cell_constraint(cells, g, cell_at(r, c))
}

pub open spec fn intersection_constraints(cells: Seq<Seq<Cell>>, g: EdgeGrid) -> spec_fn(
    int,
    int,
) -> Deduction {
    |r: int, c: int| intersection_constraint(cells, g, intersection_at(r, c))
}

/// The constraint check: the cells row by row, then the intersections.
pub open spec fn constraint(cells: Seq<Seq<Cell>>, g: EdgeGrid) -> Deduction {
    let by_cell = scan(cell_constraints(cells, g), g.height() as int, g.width() as int, 0, 0);
    if by_cell is Some {
        by_cell
    } else {
        scan(intersection_constraints(cells, g), g.height() + 1 as int, g.width() + 1 as int, 0, 0)
    }
}

// ---- Loop closure ----

/// The number of steps after which a walk along lines gives up: as many as
/// the grid has intersections.
pub open spec fn walk_limit(g: EdgeGrid) -> nat {
    (g.width() + 1) * (g.height() + 1)
}

/// Where a walk along lines that came from `previous` to `current` ends,
/// after at most `fuel` more steps.
pub open spec fn walk(g: EdgeGrid, previous: IntersectionIndex, current: IntersectionIndex, fuel: nat) -> IntersectionIndex
    decreases fuel,
{
    if fuel == 0 {
        current
    } else {
        match g.follow(previous, current) {
            Some(next) => walk(g, current, next, (fuel - 1) as nat),
            None => current,
        }
    }
}

/// A line at `e` would close a loop: the lines already lead from one end of
/// `e` to the other.
pub open spec fn closes_loop(g: EdgeGrid, e: EdgeIndex) -> bool {
    walk(g, no_intersection(), e.ends().0, walk_limit(g)) == e.ends().1
}

pub open spec fn loop_cross_at(g: EdgeGrid, e: EdgeIndex) -> Deduction {
    if g.at(e) == Edge::Unknown && closes_loop(g, e) {
        Some((e, Edge::X))
    } else {
        None
    }
}

pub open spec fn horizontal_at(r: int, c: int) -> EdgeIndex {
    EdgeIndex { direction: EdgeDirection::Horizontal, row: r as usize, column: c as usize }
}

pub open spec fn vertical_at(r: int, c: int) -> EdgeIndex {
    EdgeIndex { direction: EdgeDirection::Vertical, row: r as usize, column: c as usize }
}

pub open spec fn horizontal_loop_crosses(g: EdgeGrid) -> spec_fn(int, int) -> Deduction {
    |r: int, c: int| loop_cross_at(g, horizontal_at(r, c))
}

pub open spec fn vertical_loop_crosses(g: EdgeGrid) -> spec_fn(int, int) -> Deduction {
    |r: int, c: int| loop_cross_at(g, vertical_at(r, c))
}

/// The loop check: the first unknown edge, horizontal ones row by row and
/// then vertical ones, that would close a loop becomes a cross.
pub open spec fn loop_cross(g: EdgeGrid) -> Deduction {
    let horizontal = scan(horizontal_loop_crosses(g), g.height() + 1 as int, g.width() as int, 0, 0);
    if horizontal is Some {
        horizontal
    } else {
        scan(vertical_loop_crosses(g), g.height() as int, g.width() + 1 as int, 0, 0)
    }
}

// ---- Driver ----

/// One pass of the solver: local fill, else the constraint check, else the
/// loop check.
pub open spec fn next_deduction(cells: Seq<Seq<Cell>>, g: EdgeGrid) -> Deduction {
    let fill = certain_value(cells, g);
    if fill is Some {
        fill
    } else {
        let constrained = constraint(cells, g);
        if constrained is Some {
            constrained
        } else {
            loop_cross(g)
        }
    }
}

} // verus!
