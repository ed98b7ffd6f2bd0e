use crate::algorithm::{count_edges, lemma_intersection_edges_valid, solve};
use crate::cell::{Cells, grid_width};
use crate::direction::all_directions;
use crate::edges::Edges;
use crate::error::SolveError;
use crate::grid::{EdgeGrid, first_some, lemma_first_some_in, lemma_follow_valid, no_intersection};
use crate::index::IntersectionIndex;
use crate::rules::{intersection_at, lines, scan, walk_limit};
use crate::solution::{lemma_scan_in, solution};
use vstd::prelude::*;

verus! {

/// An intersection as the route gives it: (column, row).
pub open spec fn point(i: IntersectionIndex) -> (usize, usize) {
    (i.column, i.row)
}

/// Some line ends at intersection `i`.
pub open spec fn has_line(g: EdgeGrid, i: IntersectionIndex) -> bool {
    lines(g, g.adjacent_edges(i)) > 0
}

pub open spec fn line_ends(g: EdgeGrid) -> spec_fn(int, int) -> Option<IntersectionIndex> {
    |r: int, c: int|
        if has_line(g, intersection_at(r, c)) {
            Some(intersection_at(r, c))
        } else {
            None
        }
}

/// Where the route starts: the first intersection, row by row, at which a
/// line ends.
pub open spec fn route_start(g: EdgeGrid) -> Option<IntersectionIndex> {
    scan(line_ends(g), g.height() + 1 as int, g.width() + 1 as int, 0, 0)
}

/// The points that a walk along lines visits after coming from `previous`
/// to `current`, until it finds no way on, comes back to `start`, or has
/// taken `fuel` steps.
pub open spec fn route_walk(
    g: EdgeGrid,
    previous: IntersectionIndex,
    current: IntersectionIndex,
    start: IntersectionIndex,
    fuel: nat,
) -> Seq<(usize, usize)>
    decreases fuel,
{
    if fuel == 0 {
        Seq::empty()
    } else {
        match g.follow(previous, current) {
            Some(next) => if next == start {
                Seq::empty()
            } else {
                seq![point(next)] + route_walk(g, current, next, start, (fuel - 1) as nat)
            },
            None => Seq::empty(),
        }
    }
}

/// The walk along lines gets back to `start`.
pub open spec fn walk_returns(
    g: EdgeGrid,
    previous: IntersectionIndex,
    current: IntersectionIndex,
    start: IntersectionIndex,
    fuel: nat,
) -> bool
    decreases fuel,
{
    if fuel == 0 {
        false
    } else {
        match g.follow(previous, current) {
            Some(next) => next == start || walk_returns(g, current, next, start, (fuel - 1) as nat),
            None => false,
        }
    }
}

/// The route of a grid: empty where no line is set; else the walk along
/// lines from its start, with the start repeated at the end.
pub open spec fn route(g: EdgeGrid) -> Seq<(usize, usize)> {
    match route_start(g) {
        None => Seq::empty(),
        Some(start) => (seq![point(start)] + route_walk(
            g,
            no_intersection(),
            start,
            start,
            walk_limit(g),
        )).push(point(start)),
    }
}

/// The lines close into a loop from the route's start: the walk returns
/// to it.
pub open spec fn route_closes(g: EdgeGrid) -> bool {
    route_start(g) matches Some(start) ==> walk_returns(
        g,
        no_intersection(),
        start,
        start,
        walk_limit(g),
    )
}

/// Two points one step apart along a row or a column.
pub open spec fn orthogonal_step(a: (usize, usize), b: (usize, usize)) -> bool {
    (a.0 == b.0 && (a.1 + 1 == b.1 || b.1 + 1 == a.1)) || (a.1 == b.1 && (a.0 + 1 == b.0 || b.0
        + 1 == a.0))
}

/// Each step of the sequence goes to a neighbouring point.
pub open spec fn steps_orthogonally(s: Seq<(usize, usize)>) -> bool {
    forall|k: int| 0 <= k < s.len() - 1 ==> orthogonal_step(#[trigger] s[k], s[k + 1])
}

/// A walk along lines moves to a neighbour.
proof fn lemma_follow_step(g: EdgeGrid, previous: IntersectionIndex, i: IntersectionIndex)
    requires
        g.wf(),
        g.valid_intersection(i),
    ensures
        g.follow(previous, i) matches Some(n) ==> orthogonal_step(point(i), point(n)),
{
    let s = Seq::new(4, |k: int| g.line_step(previous, i, all_directions()[k]));
    lemma_first_some_in(s, 0);
    if g.follow(previous, i) is Some {
        let j = choose|j: int| 0 <= j < s.len() && s[j] == first_some(s, 0);
        assert(s[j] == g.line_step(previous, i, all_directions()[j]));
    }
}

proof fn lemma_route_walk_steps(
    g: EdgeGrid,
    previous: IntersectionIndex,
    current: IntersectionIndex,
    start: IntersectionIndex,
    fuel: nat,
)
    requires
        g.wf(),
        g.valid_intersection(current),
    ensures
        steps_orthogonally(seq![point(current)] + route_walk(g, previous, current, start, fuel)),
        walk_returns(g, previous, current, start, fuel) ==> orthogonal_step(
            (seq![point(current)] + route_walk(g, previous, current, start, fuel)).last(),
            point(start),
        ),
    decreases fuel,
{
    let s = seq![point(current)] + route_walk(g, previous, current, start, fuel);
    lemma_follow_step(g, previous, current);
    lemma_follow_valid(g, previous, current);
    if fuel > 0 {
        if let Some(next) = g.follow(previous, current) {
            if next != start {
                lemma_route_walk_steps(g, current, next, start, (fuel - 1) as nat);
                let rest = seq![point(next)] + route_walk(g, current, next, start, (fuel - 1) as nat);
                assert(s =~= seq![point(current)] + rest);
                assert forall|k: int| 0 <= k < s.len() - 1 implies orthogonal_step(
                    #[trigger] s[k],
                    s[k + 1],
                ) by {
                    if k > 0 {
                        assert(s[k] == rest[k - 1]);
                        assert(s[k + 1] == rest[k]);
                    }
                }
                assert(s.last() == rest.last());
            }
        }
    }
}

/// Route closure: the route, where it is not empty, ends where it starts;
/// and where the lines close into a loop from its start, each of its steps
/// goes to a neighbouring intersection.
pub proof fn lemma_route_closure(g: EdgeGrid)
    requires
        g.wf(),
    ensures
        route(g).len() > 0 ==> route(g)[0] == route(g).last(),
        route_closes(g) ==> steps_orthogonally(route(g)),
{
    lemma_scan_in(line_ends(g), g.height() + 1 as int, g.width() + 1 as int, 0, 0);
    if let Some(start) = route_start(g) {
        let (i, j) = choose|i: int, j: int|
            0 <= i < g.height() + 1 && 0 <= j < g.width() + 1 && #[trigger] line_ends(g)(i, j)
                == route_start(g);
        assert(line_ends(g)(i, j) == Some(intersection_at(i, j)));
        assert(g.valid_intersection(start));
        let walk = seq![point(start)] + route_walk(g, no_intersection(), start, start, walk_limit(g));
        lemma_route_walk_steps(g, no_intersection(), start, start, walk_limit(g));
        let r = walk.push(point(start));
        assert(r == route(g));
        if route_closes(g) {
            assert forall|k: int| 0 <= k < r.len() - 1 implies orthogonal_step(
                #[trigger] r[k],
                r[k + 1],
            ) by {
                if k < walk.len() - 1 {
                    assert(r[k] == walk[k] && r[k + 1] == walk[k + 1]);
                } else {
                    assert(r[k] == walk.last());
                }
            }
        }
    }
}

/// The number of intersections of the grid, which bounds every walk along
/// lines.
pub(crate) fn intersection_count(edges: &Edges) -> (r: u128)
    requires
        edges@.wf(),
    ensures
        r == walk_limit(edges@),
{
    let width = edges.horizontal[0].len();
    let height = edges.vertical.len();
    assert(edges@.horizontal[0] == edges.horizontal@[0]@);
    assert((width as u128 + 1) * (height as u128 + 1) <= 0xffff_ffff_ffff_fffe_0000_0000_0000_0001)
        by (nonlinear_arith)
        requires
            width as u128 + 1 <= 0xffff_ffff_ffff_ffff,
            height as u128 + 1 <= 0xffff_ffff_ffff_ffff,
    ;
    (width as u128 + 1) * (height as u128 + 1)
}

impl Edges {
    /// The first intersection, row by row, at which a line ends.
    fn find_route_start(&self) -> (r: Option<IntersectionIndex>)
        requires
            self@.wf(),
        ensures
            r == route_start(self@),
            r matches Some(start) ==> self@.valid_intersection(start),
    {
        let ghost g = self@;
        let ghost f = line_ends(g);
        let height = self.vertical.len();
        let width = self.horizontal[0].len();
        assert(g.horizontal[0] == self.horizontal@[0]@);
        let mut row: usize = 0;
        while row <= height
            invariant
                self@ == g,
                g.wf(),
                f == line_ends(g),
                height == g.height(),
                width == g.width(),
                row <= height + 1,
                scan(f, g.height() + 1 as int, g.width() + 1 as int, 0, 0) == scan(
                    f,
                    g.height() + 1 as int,
                    g.width() + 1 as int,
                    row as int,
                    0,
                ),
            decreases height + 1 - row,
        {
            let mut column: usize = 0;
            while column <= width
                invariant
                    self@ == g,
                    g.wf(),
                    f == line_ends(g),
                    height == g.height(),
                    width == g.width(),
                    row <= height,
                    column <= width + 1,
                    scan(f, g.height() + 1 as int, g.width() + 1 as int, 0, 0) == scan(
                        f,
                        g.height() + 1 as int,
                        g.width() + 1 as int,
                        row as int,
                        column as int,
                    ),
                decreases width + 1 - column,
            {
                let index = IntersectionIndex { row, column };
                proof {
                    lemma_intersection_edges_valid(g, index);
                }
                let indices = self.index_adjacent_edges(index);
                let (line_count, _) = count_edges(self, &indices);
                if line_count > 0 {
                    assert(scan(
                        f,
                        g.height() + 1 as int,
                        g.width() + 1 as int,
                        row as int,
                        column as int,
                    ) == f(row as int, column as int));
                    return Some(index);
                }
                column = column + 1;
            }
            row = row + 1;
        }
        None
    }

    /// The loop as a list of (column, row) points: the walk along lines from
    /// the first intersection, row by row, at which a line ends, until it
    /// gets back there or cannot go on, with its start repeated at the end.
    /// Empty where no edge is a line.
    pub fn get_route(&self) -> (r: Vec<(usize, usize)>)
        requires
            self@.wf(),
        ensures
            r@ == route(self@),
    {
        let ghost g = self@;
        match self.find_route_start() {
            None => Vec::new(),
            Some(start) => {
                let limit = intersection_count(self);
                let ghost total = seq![point(start)] + route_walk(
                    g,
                    no_intersection(),
                    start,
                    start,
                    walk_limit(g),
                );
                let mut route: Vec<(usize, usize)> = Vec::new();
                route.push((start.column, start.row));
                let mut previous = IntersectionIndex { row: usize::MAX, column: usize::MAX };
                let mut index = start;
                let mut fuel: u128 = limit;
                assert(route@ =~= seq![point(start)]);
                while fuel > 0
                    invariant
                        self@ == g,
                        g.wf(),
                        g.valid_intersection(index),
                        route@ + route_walk(g, previous, index, start, fuel as nat) == total,
                    ensures
                        route@ == total,
                    decreases fuel,
                {
                    match self.follow_line(&previous, &index) {
                        Some(next) => {
                            if next == start {
                                assert(route@ =~= route@ + Seq::<(usize, usize)>::empty());
                                break ;
                            }
                            proof {
                                lemma_follow_valid(g, previous, index);
                            }
                            let ghost before = route@;
                            let ghost rest = route_walk(g, index, next, start, (fuel - 1) as nat);
                            previous = index;
                            index = next;
                            route.push((next.column, next.row));
                            fuel = fuel - 1;
                            assert(before + (seq![point(next)] + rest) =~= route@ + rest);
                        },
                        None => {
                            assert(route@ =~= route@ + Seq::<(usize, usize)>::empty());
                            break ;
                        },
                    }
                }
                if fuel == 0 {
                    assert(route@ =~= route@ + Seq::<(usize, usize)>::empty());
                }
                route.push((start.column, start.row));
                route
            },
        }
    }
}

/// Solves the puzzle and returns its loop as (column, row) points, the
/// first repeated at the end; empty where the solver sets no line. Fails with
/// `InvalidDimensions` where the grid has no cell.
pub fn solve_route(cells: &Cells) -> (r: Result<Vec<(usize, usize)>, SolveError>)
    requires
        cells.wf(),
    ensures
        r is Err <==> cells@.len() == 0 || grid_width(cells@) == 0,
        r matches Err(e) ==> e == SolveError::InvalidDimensions,
        r matches Ok(points) ==> points@ == route(solution(cells@)),
{
    let edges = solve(cells)?;
    Ok(edges.get_route())
}

} // verus!
