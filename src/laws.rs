use crate::cell::Cell;
use crate::direction::{
    CornerDirection, Direction, HorizontalDirection, VerticalDirection, all_directions,
};
use crate::edge::Edge;
use crate::grid::{EdgeGrid, first_some, lemma_first_some_in, no_intersection};
use crate::index::{CellIndex, EdgeIndex, IntersectionIndex};
use crate::route::route;
use crate::rules::{
    all_valid, cell_fill, cell_sides, closes_loop, clue, crosses, crosses_from, first_unknown, fits,
    horizontal_at, horizontal_loop_crosses, intersection_fill, lines, lines_from, loop_cross,
    loop_cross_at, next_deduction, scan, vertical_at, vertical_loop_crosses, walk, walk_limit,
};
use crate::solution::{
    lemma_next_deduction, lemma_scan_in, lemma_set_keeps_fits, lemma_unknown_count_set, settle,
    solution, unknown_count,
};
use vstd::prelude::*;

verus! {

/// Monotonicity: an edge that is a line or a cross keeps its state, both
/// through the next pass of the solver and through the whole run from
/// there to the fixed point.
pub proof fn lemma_known_edges_stay(cells: Seq<Seq<Cell>>, g: EdgeGrid, e: EdgeIndex)
    requires
        fits(cells, g),
        g.valid_edge(e),
        g.at(e) != Edge::Unknown,
    ensures
        next_deduction(cells, g) matches Some((changed, value)) ==> g.set(changed, value).at(e)
            == g.at(e),
        settle(cells, g).at(e) == g.at(e),
    decreases unknown_count(g),
{
    lemma_next_deduction(cells, g);
    if let Some((changed, value)) = next_deduction(cells, g) {
        let next = g.set(changed, value);
        assert(changed != e);
        assert(next.at(e) == g.at(e));
        lemma_set_keeps_fits(cells, g, changed, value);
        lemma_unknown_count_set(g, changed, value);
        lemma_known_edges_stay(cells, next, e);
    }
}

/// Determinism: the edge grid and the route that the solver gives depend
/// on the clue grid alone.
pub proof fn lemma_deterministic(a: Seq<Seq<Cell>>, b: Seq<Seq<Cell>>)
    requires
        a == b,
    ensures
        solution(a) == solution(b),
        route(solution(a)) == route(solution(b)),
{
}

/// A line joins intersections `a` and `b`.
pub open spec fn joined_by_line(g: EdgeGrid, a: IntersectionIndex, b: IntersectionIndex) -> bool {
    exists|d: Direction|
        #[trigger] g.adjacent_edge(a, d) matches Some(e) && g.at(e) == Edge::Line
            && g.adjacent_intersection(a, d) == Some(b)
}

/// `p` is a path along lines.
pub open spec fn line_path(g: EdgeGrid, p: Seq<IntersectionIndex>) -> bool {
    &&& p.len() >= 1
    &&& forall|k: int| 0 <= k < p.len() - 1 ==> joined_by_line(g, #[trigger] p[k], p[k + 1])
}

proof fn lemma_follow_joins(g: EdgeGrid, previous: IntersectionIndex, i: IntersectionIndex)
    ensures
        g.follow(previous, i) matches Some(n) ==> joined_by_line(g, i, n),
{
    let s = Seq::new(4, |k: int| g.line_step(previous, i, all_directions()[k]));
    lemma_first_some_in(s, 0);
    if let Some(n) = g.follow(previous, i) {
        let j = choose|j: int| 0 <= j < s.len() && s[j] == first_some(s, 0);
        let d = all_directions()[j];
        assert(s[j] == g.line_step(previous, i, d));
        assert(g.adjacent_edge(i, d) is Some);
    }
}

proof fn lemma_walk_path(
    g: EdgeGrid,
    previous: IntersectionIndex,
    current: IntersectionIndex,
    fuel: nat,
)
    ensures
        exists|p: Seq<IntersectionIndex>|
            line_path(g, p) && p[0] == current && p.last() == walk(g, previous, current, fuel),
    decreases fuel,
{
    if fuel > 0 && g.follow(previous, current) is Some {
        let next = g.follow(previous, current)->0;
        lemma_follow_joins(g, previous, current);
        lemma_walk_path(g, current, next, (fuel - 1) as nat);
        let rest = choose|p: Seq<IntersectionIndex>|
            line_path(g, p) && p[0] == next && p.last() == walk(g, current, next, (fuel - 1) as nat);
        let p = seq![current] + rest;
        assert forall|k: int| 0 <= k < p.len() - 1 implies joined_by_line(
            g,
            #[trigger] p[k],
            p[k + 1],
        ) by {
            if k > 0 {
                assert(p[k] == rest[k - 1] && p[k + 1] == rest[k]);
            }
        }
        assert(p.last() == rest.last());
        assert(p[0] == current);
        assert(line_path(g, p) && p[0] == current && p.last() == walk(g, previous, current, fuel));
    } else {
        let p = seq![current];
        assert(line_path(g, p) && p[0] == current && p.last() == walk(g, previous, current, fuel));
    }
}

/// Loop closure, for the loop check: it crosses out only an unknown edge
/// whose two ends a path along lines already joins, so that a line there
/// would close a loop.
pub proof fn lemma_loop_check_closes(g: EdgeGrid)
    requires
        g.wf(),
    ensures
        loop_cross(g) matches Some((e, value)) ==> {
            &&& value == Edge::X
            &&& g.at(e) == Edge::Unknown
            &&& exists|p: Seq<IntersectionIndex>|
                line_path(g, p) && p[0] == e.ends().0 && p.last() == e.ends().1
        },
{
    let h = g.height() as int;
    let w = g.width() as int;
    lemma_scan_in(horizontal_loop_crosses(g), h + 1, w, 0, 0);
    lemma_scan_in(vertical_loop_crosses(g), h, w + 1, 0, 0);
    if let Some((e, value)) = loop_cross(g) {
        let found = if scan(horizontal_loop_crosses(g), h + 1, w, 0, 0) is Some {
            let (i, j) = choose|i: int, j: int|
                0 <= i < h + 1 && 0 <= j < w && #[trigger] horizontal_loop_crosses(g)(i, j) == scan(
                    horizontal_loop_crosses(g),
                    h + 1,
                    w,
                    0,
                    0,
                );
            horizontal_at(i, j)
        } else {
            let (i, j) = choose|i: int, j: int|
                0 <= i < h && 0 <= j < w + 1 && #[trigger] vertical_loop_crosses(g)(i, j) == scan(
                    vertical_loop_crosses(g),
                    h,
                    w + 1,
                    0,
                    0,
                );
            vertical_at(i, j)
        };
        assert(found == e);
        assert(closes_loop(g, e));
        lemma_walk_path(g, no_intersection(), e.ends().0, walk_limit(g));
    }
}

/// The present indices of `s` are pairwise different.
pub open spec fn distinct_edges(s: Seq<Option<EdgeIndex>>) -> bool {
    forall|a: int, b: int|
        0 <= a < s.len() && 0 <= b < s.len() && a != b && (#[trigger] s[a]) is Some && (
        #[trigger] s[b]) is Some ==> s[a] != s[b]
}

proof fn lemma_counts_after_set(
    g: EdgeGrid,
    s: Seq<Option<EdgeIndex>>,
    j: int,
    e: EdgeIndex,
    value: Edge,
    k: int,
)
    requires
        g.wf(),
        g.valid_edge(e),
        all_valid(g, s),
        distinct_edges(s),
        0 <= j < s.len(),
        s[j] == Some(e),
        g.at(e) == Edge::Unknown,
        0 <= k <= s.len(),
    ensures
        lines_from(g.set(e, value), s, k) == lines_from(g, s, k) + (if value == Edge::Line && k
            <= j {
            1nat
        } else {
            0nat
        }),
        crosses_from(g.set(e, value), s, k) == crosses_from(g, s, k) + (if value == Edge::X && k
            <= j {
            1nat
        } else {
            0nat
        }),
    decreases s.len() - k,
{
    if k < s.len() {
        lemma_counts_after_set(g, s, j, e, value, k + 1);
        if k != j {
            if let Some(f) = s[k] {
                assert(f != e);
                assert(g.set(e, value).at(f) == g.at(f));
            }
        }
    }
}

proof fn lemma_counts_bound(g: EdgeGrid, s: Seq<Option<EdgeIndex>>, k: int, j: int)
    requires
        0 <= k <= s.len(),
    ensures
        lines_from(g, s, k) + crosses_from(g, s, k) <= s.len() - k,
        (k <= j < s.len() && s[j] is Some && g.at(s[j]->0) == Edge::Unknown) ==> lines_from(
            g,
            s,
            k,
        ) + crosses_from(g, s, k) < s.len() - k,
    decreases s.len() - k,
{
    if k < s.len() {
        lemma_counts_bound(g, s, k + 1, j);
    }
}

proof fn lemma_first_unknown_at(g: EdgeGrid, s: Seq<Option<EdgeIndex>>, k: int)
    ensures
        first_unknown(g, s, k) matches Some(e) ==> exists|j: int|
            k <= j < s.len() && s[j] == Some(e) && g.valid_edge(e) && g.at(e) == Edge::Unknown,
    decreases s.len() - k,
{
    if 0 <= k < s.len() {
        lemma_first_unknown_at(g, s, k + 1);
    }
}

/// The lines and crosses around a clue cell stay within what its clue allows.
pub open spec fn clue_respected(cells: Seq<Seq<Cell>>, g: EdgeGrid, c: CellIndex) -> bool {
    match clue(cells, c).expected_lines() {
        None => true,
        Some(k) => lines(g, cell_sides(c)) <= k && crosses(g, cell_sides(c)) <= 4 - k,
    }
}

/// Cell-clue soundness, for the cell rule: where a clue's lines and crosses
/// are within its bounds, the edge that the cell rule sets keeps them so.
pub proof fn lemma_cell_rule_respects_clue(cells: Seq<Seq<Cell>>, g: EdgeGrid, c: CellIndex)
    requires
        g.wf(),
        g.valid_cell(c),
        clue_respected(cells, g, c),
    ensures
        cell_fill(cells, g, c) matches Some((e, value)) ==> clue_respected(
            cells,
            g.set(e, value),
            c,
        ),
{
    let sides = cell_sides(c);
    lemma_first_unknown_at(g, sides, 0);
    if let Some((e, value)) = cell_fill(cells, g, c) {
        let j = choose|j: int|
            0 <= j < sides.len() && sides[j] == Some(e) && g.valid_edge(e) && g.at(e)
                == Edge::Unknown;
        assert(distinct_edges(sides));
        assert(all_valid(g, sides));
        lemma_counts_after_set(g, sides, j, e, value, 0);
        lemma_counts_bound(g, sides, 0, j);
    }
}

/// Intersection soundness, for the intersection rule: it never sets a line,
/// and the intersection it acts on keeps exactly two lines.
pub proof fn lemma_intersection_rule_keeps_two_lines(g: EdgeGrid, i: IntersectionIndex)
    requires
        g.wf(),
        g.valid_intersection(i),
    ensures
        intersection_fill(g, i) matches Some((e, value)) ==> value == Edge::X && lines(
            g.set(e, value),
            g.adjacent_edges(i),
        ) == 2,
{
    let adjacent = g.adjacent_edges(i);
    lemma_first_unknown_at(g, adjacent, 0);
    if let Some((e, value)) = intersection_fill(g, i) {
        let j = choose|j: int|
            0 <= j < adjacent.len() && adjacent[j] == Some(e) && g.valid_edge(e) && g.at(e)
                == Edge::Unknown;
        assert(distinct_edges(adjacent));
        assert(all_valid(g, adjacent));
        lemma_counts_after_set(g, adjacent, j, e, value, 0);
    }
}

/// The first step of a walk along lines goes in `d` where a line leads
/// that way and in no direction visited before it.
proof fn lemma_follow_first(g: EdgeGrid, previous: IntersectionIndex, i: IntersectionIndex, k: int)
    requires
        0 <= k < 4,
        g.line_step(previous, i, all_directions()[k]) is Some,
        k > 0 ==> g.line_step(previous, i, all_directions()[0]) is None,
        k > 1 ==> g.line_step(previous, i, all_directions()[1]) is None,
        k > 2 ==> g.line_step(previous, i, all_directions()[2]) is None,
    ensures
        g.follow(previous, i) == g.line_step(previous, i, all_directions()[k]),
{
    let s = Seq::new(4, |j: int| g.line_step(previous, i, all_directions()[j]));
    assert(s[0] == g.line_step(previous, i, all_directions()[0]));
    assert(s[1] == g.line_step(previous, i, all_directions()[1]));
    assert(s[2] == g.line_step(previous, i, all_directions()[2]));
    assert(s[3] == g.line_step(previous, i, all_directions()[3]));
    reveal_with_fuel(first_some, 5);
}

/// A walk along lines stops where no line leads on.
proof fn lemma_follow_none(g: EdgeGrid, previous: IntersectionIndex, i: IntersectionIndex)
    requires
        g.line_step(previous, i, all_directions()[0]) is None,
        g.line_step(previous, i, all_directions()[1]) is None,
        g.line_step(previous, i, all_directions()[2]) is None,
        g.line_step(previous, i, all_directions()[3]) is None,
    ensures
        g.follow(previous, i) is None,
{
    let s = Seq::new(4, |j: int| g.line_step(previous, i, all_directions()[j]));
    assert(s[0] == g.line_step(previous, i, all_directions()[0]));
    assert(s[1] == g.line_step(previous, i, all_directions()[1]));
    assert(s[2] == g.line_step(previous, i, all_directions()[2]));
    assert(s[3] == g.line_step(previous, i, all_directions()[3]));
    reveal_with_fuel(first_some, 5);
}

/// `f` is one of the four sides of cell `c`.
pub open spec fn is_side(c: CellIndex, f: EdgeIndex) -> bool {
    f == c.edges()[0] || f == c.edges()[1] || f == c.edges()[2] || f == c.edges()[3]
}

/// Three sides of cell `c` are lines and the fourth, `e`, is unknown; no
/// other line ends at any of the cell's four corners.
pub open spec fn square_with_open_side(g: EdgeGrid, c: CellIndex, e: EdgeIndex) -> bool {
    &&& g.wf()
    &&& g.valid_cell(c)
    &&& is_side(c, e)
    &&& g.at(e) == Edge::Unknown
    &&& forall|k: int| 0 <= k < 4 && c.edges()[k] != e ==> g.at(#[trigger] c.edges()[k]) == Edge::Line
    &&& forall|corner: CornerDirection, d: Direction|
        (#[trigger] g.adjacent_edge(c.intersection(corner), d) is Some && g.at(
            g.adjacent_edge(c.intersection(corner), d)->0,
        ) == Edge::Line) ==> is_side(c, g.adjacent_edge(c.intersection(corner), d)->0)
}

/// Closed-sub-loop avoidance: where three sides of a cell are lines, the
/// fourth is unknown and no other line ends at the cell's corners, a line on
/// the fourth side would close a loop, so the loop check would cross it out.
pub proof fn lemma_open_side_closes_loop(g: EdgeGrid, c: CellIndex, e: EdgeIndex)
    requires
        square_with_open_side(g, c, e),
    ensures
        closes_loop(g, e),
        loop_cross_at(g, e) == Some((e, Edge::X)),
{
    let east = HorizontalDirection::East;
    let west = HorizontalDirection::West;
    let north = VerticalDirection::North;
    let south = VerticalDirection::South;
    let nw = c.intersection(CornerDirection { horizontal: west, vertical: north });
    let ne = c.intersection(CornerDirection { horizontal: east, vertical: north });
    let sw = c.intersection(CornerDirection { horizontal: west, vertical: south });
    let se = c.intersection(CornerDirection { horizontal: east, vertical: south });
    let start = no_intersection();
    let fuel = walk_limit(g);
    assert(fuel >= 4) by (nonlinear_arith)
        requires
            fuel == (g.width() + 1) * (g.height() + 1),
            g.width() >= 1,
            g.height() >= 1,
    ;
    assert(c.edges()[0] == c.edges()[0]);
    assert(c.edges()[1] == c.edges()[1]);
    assert(c.edges()[2] == c.edges()[2]);
    assert(c.edges()[3] == c.edges()[3]);
    let f1 = (fuel - 1) as nat;
    let f2 = (fuel - 2) as nat;
    let f3 = (fuel - 3) as nat;
    if e == c.edges()[0] {
        lemma_follow_first(g, start, nw, 2);
        lemma_follow_first(g, nw, sw, 1);
        lemma_follow_first(g, sw, se, 0);
        lemma_follow_none(g, se, ne);
        assert(walk(g, se, ne, f3) == ne);
        assert(walk(g, start, nw, fuel) == walk(g, nw, sw, f1));
        assert(walk(g, nw, sw, f1) == walk(g, sw, se, f2));
        assert(walk(g, sw, se, f2) == walk(g, se, ne, f3));
    } else if e == c.edges()[1] {
        lemma_follow_first(g, start, ne, 3);
        lemma_follow_first(g, ne, nw, 2);
        lemma_follow_first(g, nw, sw, 1);
        lemma_follow_none(g, sw, se);
        assert(walk(g, sw, se, f3) == se);
        assert(walk(g, start, ne, fuel) == walk(g, ne, nw, f1));
        assert(walk(g, ne, nw, f1) == walk(g, nw, sw, f2));
        assert(walk(g, nw, sw, f2) == walk(g, sw, se, f3));
    } else if e == c.edges()[2] {
        lemma_follow_first(g, start, sw, 0);
        lemma_follow_first(g, sw, nw, 1);
        lemma_follow_first(g, nw, ne, 2);
        lemma_follow_none(g, ne, se);
        assert(walk(g, ne, se, f3) == se);
        assert(walk(g, start, sw, fuel) == walk(g, sw, nw, f1));
        assert(walk(g, sw, nw, f1) == walk(g, nw, ne, f2));
        assert(walk(g, nw, ne, f2) == walk(g, ne, se, f3));
    } else {
        lemma_follow_first(g, start, nw, 1);
        lemma_follow_first(g, nw, ne, 2);
        lemma_follow_first(g, ne, se, 3);
        lemma_follow_none(g, se, sw);
        assert(walk(g, se, sw, f3) == sw);
        assert(walk(g, start, nw, fuel) == walk(g, nw, ne, f1));
        assert(walk(g, nw, ne, f1) == walk(g, ne, se, f2));
        assert(walk(g, ne, se, f2) == walk(g, se, sw, f3));
    }
}

} // verus!
