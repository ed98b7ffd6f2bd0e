use suriza::algorithm::{check_loops, would_close_loop};
use suriza::{
    solve, Cell, Cells, Edge, EdgeDirection, EdgeIndex, Edges, SolveError,
};

// Puzzles are written as ASCII drawings that hold both the clues and the
// expected edges:
//
// +-+ +-+
// |3|3|3|
// + +-+ +
// |     |
// +-+-+-+

fn assert_same_lines(a: &Edges, b: &Edges) {
    let b_indices = b.index_edges();
    let a_indices = a.index_edges();
    assert_eq!(a_indices.len(), b_indices.len());

    for (a_index, b_index) in a_indices.into_iter().zip(b_indices) {
        assert_eq!(a.get(a_index).is_line(), b.get(b_index).is_line());
    }
}

/// Asserts that the solver finds the edges that the drawing shows for the
/// clues it shows.
fn assert_solution(input: &str) {
    let fields = Cells::from_ascii(input).unwrap();
    let expected_solution = Edges::from_ascii(input);

    let actual_solution = solve(&fields).unwrap();

    assert_same_lines(&actual_solution, &expected_solution);
}

#[test]
fn returns_solution_for_single_cell_zero_puzzle() {
    assert_solution(
        "+ +
              0
             + +",
    );
}

#[test]
fn returns_correct_answer_for_two_adjacent_threes() {
    assert_solution(
        "+-+-+
             |3 3|
             +-+-+",
    );
}

#[test]
fn solves_basic_puzzle() {
    assert_solution(
        "
            +-+-+ +-+-+
            |   | |   |
            +-+ + +-+ +
             3|2|1 3| |
            +-+ + +-+ +
            |3  | |   |
            +-+ +-+ +-+
             2|    2|
            + +-+ +-+ +
             0 2| |
            + + +-+ + +
        ",
    );
}

#[test]
fn solves_closed_loop_puzzle() {
    assert_solution(
        "
            +-+-+-+-+-+
            |        3|
            +-+ +-+-+-+
             3| |
            +-+ +-+ +-+
            |3 0 3|2|3|
            +-+ +-+ + +
             3| |  2| |
            +-+ +-+-+ +
            |         |
            +-+-+-+-+-+
        ",
    );
}

#[test]
fn detects_ones_in_corners() {
    assert_solution(
        "
            + + +
             1 1
            +-+-+
            |   |
            +-+-+
        ",
    )
}

#[test]
fn detects_twos_in_corners() {
    assert_solution(
        "
            + +-+ + +
             2       
            + + + +-+
            |  2   3|
            + + + +-+
                 2   
            + +-+ + +
            ",
    );
}

#[test]
fn detects_threes_in_corners() {
    assert_solution(
        "
            +-+ +-+
            |3   3|
            + + + +

            + + + +
            |3   3|
            +-+ +-+
        ",
    );
}

#[test]
fn test_solve() {
    let puzzles = vec![
        "
            +-+-+-+-+-+
            |3 1     3|
            +-+ + +-+-+
              |   |3 1
            + +-+ +-+ +
                |   |
            +-+ +-+ +-+
            | |   |1 3|
            + +-+-+ +-+
            |2 2 2 2|2
            +-+-+-+-+ +
            ",
        "
            +-+-+-+ + +
            |3   2|
            +-+-+ +-+ +
               2|   |
            +-+ +-+ +-+
            |3|  3|1 3|
            + +-+-+ +-+
            |  2    |
            + +-+-+ +-+
            |3|   |2 3|
            +-+ + +-+-+
            ",
        "
            +-+ +-+-+-+
            |3| |2   3|
            + + + +-+-+
            | |3| |3
            + +-+ +-+-+
            |  1   1 2|
            +-+ +-+ + +
             3|2| |1  |
            +-+ + + + +
            |3  | |2  |
            +-+-+ +-+-+
            ",
        "
            +-+-+ +-+-+
            |   | |   |
            + +-+ +-+ +
            |2|3 1 2| |
            + +-+-+ + +
            |    2|2| |
            + +-+ + + +
            | |3| | | |
            + + + +-+ +
            |3| |2    |
            +-+ +-+-+-+
            ",
        "
            +-+-+ +-+-+
            |  3| |2  |
            + +-+ + +-+
            |2|3  | |
            + +-+-+ +-+
            |        2|
            + +-+ +-+ +
            | | |2|3| |
            + + + + + +
            | |2|3| |3|
            +-+ +-+ +-+
            ",
        "
            +-+-+ +-+-+
            |   | |   |
            +-+ + +-+ +
             3|2|1 3| |
            +-+ + +-+ +
            |3  | |   |
            +-+ +-+ +-+
             2|    2|
            + +-+ +-+ +
             0 2| |
            + + +-+ + +
            ",
    ];

    for puzzle in puzzles {
        assert_solution(puzzle);
    }
}

fn edge(direction: EdgeDirection, row: usize, column: usize) -> EdgeIndex {
    EdgeIndex { direction, row, column }
}

#[test]
fn single_zero_cell_crosses_every_edge_and_has_no_route() {
    let cells = Cells::new(vec![vec![Cell::Zero]]).unwrap();
    let edges = solve(&cells).unwrap();
    for index in edges.index_edges() {
        assert_eq!(edges.get(index), Edge::X);
    }
    assert_eq!(edges.index_edges().len(), 4);
    assert!(edges.get_route().is_empty());
}

#[test]
fn two_adjacent_threes_draw_the_rectangle() {
    let cells = Cells::new(vec![vec![Cell::Three, Cell::Three]]).unwrap();
    let edges = solve(&cells).unwrap();
    for column in 0..2 {
        assert_eq!(edges.get(edge(EdgeDirection::Horizontal, 0, column)), Edge::Line);
        assert_eq!(edges.get(edge(EdgeDirection::Horizontal, 1, column)), Edge::Line);
    }
    assert_eq!(edges.get(edge(EdgeDirection::Vertical, 0, 0)), Edge::Line);
    assert_eq!(edges.get(edge(EdgeDirection::Vertical, 0, 2)), Edge::Line);
    assert_eq!(edges.get(edge(EdgeDirection::Vertical, 0, 1)), Edge::X);
    let route = edges.get_route();
    assert_eq!(route, vec![(0, 0), (1, 0), (2, 0), (2, 1), (1, 1), (0, 1), (0, 0)]);
}

#[test]
fn adjacent_threes_on_the_border_force_their_outer_edges() {
    let cells = Cells::from_ascii(
        "
            + + + +
             3 3
            + + + +

            + + + +
        ",
    )
    .unwrap();
    let edges = solve(&cells).unwrap();
    // The side of each three away from the edge they share.
    assert_eq!(edges.get(edge(EdgeDirection::Vertical, 0, 0)), Edge::Line);
    assert_eq!(edges.get(edge(EdgeDirection::Vertical, 0, 2)), Edge::Line);
    // The outer corner of the first three lies on the border.
    assert_eq!(edges.get(edge(EdgeDirection::Horizontal, 0, 0)), Edge::Line);
}

#[test]
fn a_one_in_a_corner_crosses_the_border_edges() {
    let cells = Cells::from_ascii(
        "
            + + + +
             1
            + + + +

            + + + +
        ",
    )
    .unwrap();
    let edges = solve(&cells).unwrap();
    assert_eq!(edges.get(edge(EdgeDirection::Horizontal, 0, 0)), Edge::X);
    assert_eq!(edges.get(edge(EdgeDirection::Vertical, 0, 0)), Edge::X);
}

#[test]
fn the_loop_check_crosses_the_edge_that_closes_a_small_loop() {
    // Three sides of the north-west cell are lines; its east side is not.
    let mut edges = Edges::from_ascii(
        "
            +-+ +
            |
            +-+ +

            + + +
        ",
    );
    let east = edge(EdgeDirection::Vertical, 0, 1);
    assert!(would_close_loop(&edges, east));
    assert!(check_loops(&mut edges));
    assert_eq!(edges.get(east), Edge::X);
    assert!(!check_loops(&mut edges));
}

#[test]
fn the_loop_check_leaves_open_paths_alone() {
    let mut edges = Edges::from_ascii(
        "
            +-+ +
            |
            + + +

            + + +
        ",
    );
    let before = edges.clone();
    assert!(!check_loops(&mut edges));
    assert_eq!(edges, before);
}

#[test]
fn solving_twice_gives_the_same_result() {
    let drawing = "
            +-+-+ +-+-+
            |  3| |2  |
            + +-+ + +-+
            |2|3  | |
            + +-+-+ +-+
            |        2|
            + +-+ +-+ +
            | | |2|3| |
            + + + + + +
            | |2|3| |3|
            +-+ +-+ +-+
            ";
    let cells = Cells::from_ascii(drawing).unwrap();
    let first = solve(&cells).unwrap();
    let second = solve(&cells).unwrap();
    assert_eq!(first, second);
    assert_eq!(first.get_route(), second.get_route());
}

#[test]
fn a_solved_route_is_closed_and_steps_orthogonally() {
    let drawing = "
            +-+-+ +-+-+
            |   | |   |
            + +-+ +-+ +
            |2|3 1 2| |
            + +-+-+ + +
            |    2|2| |
            + +-+ + + +
            | |3| | | |
            + + + +-+ +
            |3| |2    |
            +-+ +-+-+-+
            ";
    let cells = Cells::from_ascii(drawing).unwrap();
    let route = solve(&cells).unwrap().get_route();
    assert!(route.len() > 2);
    assert_eq!(route[0], route[route.len() - 1]);
    for pair in route.windows(2) {
        let (a, b) = (pair[0], pair[1]);
        let dx = a.0.abs_diff(b.0);
        let dy = a.1.abs_diff(b.1);
        assert_eq!(dx + dy, 1);
    }
}

#[test]
fn solving_no_cells_is_rejected() {
    let cells = Cells::new(vec![]).unwrap();
    assert_eq!(solve(&cells).unwrap_err(), SolveError::InvalidDimensions);
    let cells = Cells::new(vec![vec![], vec![]]).unwrap();
    assert_eq!(solve(&cells).unwrap_err(), SolveError::InvalidDimensions);
}

#[test]
fn edges_only_leave_the_unknown_state() {
    let cells = Cells::new(vec![vec![Cell::Three, Cell::Any], vec![Cell::Any, Cell::One]]).unwrap();
    let edges = solve(&cells).unwrap();
    // A 3 in a corner makes its two border edges lines.
    assert_eq!(edges.get(edge(EdgeDirection::Horizontal, 0, 0)), Edge::Line);
    assert_eq!(edges.get(edge(EdgeDirection::Vertical, 0, 0)), Edge::Line);
}

#[test]
fn a_solved_puzzle_meets_every_clue_and_intersection() {
    let drawing = "
            +-+ +-+-+-+
            |3| |2   3|
            + + + +-+-+
            | |3| |3
            + +-+ +-+-+
            |  1   1 2|
            +-+ +-+ + +
             3|2| |1  |
            +-+ + + + +
            |3  | |2  |
            +-+-+ +-+-+
            ";
    let cells = Cells::from_ascii(drawing).unwrap();
    let edges = solve(&cells).unwrap();
    for cell in cells.index_cells() {
        if let Some(expected) = cells.index(cell).get_expected_line_count() {
            let lines = cell
                .index_edges()
                .iter()
                .filter(|&&index| edges.get(index).is_line())
                .count();
            assert_eq!(lines, expected);
        }
    }
    for intersection in edges.index_intersections() {
        let lines = edges
            .index_adjacent_edges(intersection)
            .iter()
            .flatten()
            .filter(|&&index| edges.get(index).is_line())
            .count();
        assert!(lines == 0 || lines == 2);
    }
    for index in edges.index_edges() {
        assert!(!edges.get(index).is_unknown());
    }
}

#[test]
fn contradictory_clues_are_not_signalled() {
    // The zeros cross out two sides of the three, one more than it allows.
    let cells = Cells::new(vec![
        vec![Cell::Zero, Cell::Zero],
        vec![Cell::Zero, Cell::Three],
    ])
    .unwrap();
    let edges = solve(&cells).unwrap();
    assert_eq!(edges.get(edge(EdgeDirection::Horizontal, 1, 1)), Edge::X);
    assert_eq!(edges.get(edge(EdgeDirection::Vertical, 1, 1)), Edge::X);
}

#[test]
fn solve_route_walks_the_loop() {
    let cells = Cells::new(vec![vec![Cell::Three, Cell::Three]]).unwrap();
    assert_eq!(
        suriza::solve_route(&cells).unwrap(),
        vec![(0, 0), (1, 0), (2, 0), (2, 1), (1, 1), (0, 1), (0, 0)]
    );
    let cells = Cells::new(vec![vec![Cell::Zero]]).unwrap();
    assert!(suriza::solve_route(&cells).unwrap().is_empty());
    let cells = Cells::new(vec![]).unwrap();
    assert_eq!(suriza::solve_route(&cells), Err(SolveError::InvalidDimensions));
}
