use suriza::{
    Cell, CellIndex, Cells, CornerDirection, Direction, Edge, EdgeDirection, EdgeIndex, Edges,
    HorizontalDirection, IntersectionIndex, Size, SolveError, VerticalDirection,
};

#[test]
fn maps_horizontal_edges_from_ascii() {
    assert_eq!(Edge::from_ascii('-'), Edge::Line);
}

#[test]
fn maps_vertical_edges_from_ascii() {
    assert_eq!(Edge::from_ascii('|'), Edge::Line);
}

// We may choose to use for example 'X' to signify a crossed-out edge.
#[test]
fn accepts_arbitrary_characters_as_ascii() {
    assert_eq!(Edge::from_ascii('X'), Edge::Unknown);
}

#[test]
fn edge_predicates_tell_states_apart() {
    assert!(Edge::Line.is_line());
    assert!(!Edge::X.is_line());
    assert!(!Edge::Unknown.is_line());
    assert!(Edge::Unknown.is_unknown());
    assert!(!Edge::X.is_unknown());
    assert!(!Edge::Line.is_unknown());
}

#[test]
fn initializes_members_to_correct_size_when_creating_empty() {
    let (width, height) = (10, 20);

    let Edges {
        horizontal,
        vertical,
    } = Edges::create_empty(&Size { width, height }).unwrap();

    assert_eq!(horizontal.len(), height + 1);
    assert_eq!(vertical.len(), height);

    assert!(horizontal
        .iter()
        .all(|horizontal_row| horizontal_row.len() == width));
    assert!(vertical
        .iter()
        .all(|vertical_row| vertical_row.len() == width + 1));
}

#[test]
fn initializes_all_edges_to_be_no_lines_when_creating_empty() {
    let size = Size {
        width: 10,
        height: 20,
    };
    let Edges {
        horizontal,
        vertical,
    } = Edges::create_empty(&size).unwrap();

    let there_are_lines = [horizontal, vertical]
        .iter()
        .flat_map(|rows| rows.iter())
        .flat_map(|row| row.iter())
        .any(|edge| edge.is_line());

    assert!(!there_are_lines);
}

#[test]
#[should_panic]
fn panics_if_the_width_is_zero_when_creating_empty() {
    Edges::create_empty(&Size {
        width: 0,
        height: 1,
    })
    .unwrap();
}

#[test]
#[should_panic]
fn panics_if_the_height_is_zero_when_creating_empty() {
    Edges::create_empty(&Size {
        width: 1,
        height: 0,
    })
    .unwrap();
}

#[test]
fn rejects_zero_dimensions_when_creating_empty() {
    assert_eq!(
        Edges::create_empty(&Size { width: 0, height: 1 }),
        Err(SolveError::InvalidDimensions)
    );
    assert_eq!(
        Edges::create_empty(&Size { width: 1, height: 0 }),
        Err(SolveError::InvalidDimensions)
    );
}

#[test]
fn creates_correctly_sized_empty_grid_from_ascii() {
    let edges = Edges::from_ascii(
        "
            + + + +

            + + + +

            + + + +
        ",
    );

    assert_eq!(
        edges,
        Edges::create_empty(&Size {
            width: 3,
            height: 2
        })
        .unwrap()
    );
}

#[test]
fn correctly_maps_horizontal_lines() {
    let edges = Edges::from_ascii(
        "
            +-+ +-+

            +-+-+ +

            + + + +
        ",
    );
    let expected_line_states = vec![
        vec![Edge::Line, Edge::Unknown, Edge::Line],
        vec![Edge::Line, Edge::Line, Edge::Unknown],
        vec![Edge::Unknown, Edge::Unknown, Edge::Unknown],
    ];

    let mut correctly_mapped = true;
    for row in 0..2 {
        for column in 0..3 {
            correctly_mapped = correctly_mapped
                && edges.horizontal[row][column] == expected_line_states[row][column];
        }
    }

    assert!(correctly_mapped);
}

#[test]
fn correctly_maps_vertical_lines() {
    let edges = Edges::from_ascii(
        "
            + + + +
            |   |
            + + + +
                | |
            + + + +
        ",
    );

    let expected_line_states = vec![
        vec![Edge::Line, Edge::Unknown, Edge::Line, Edge::Unknown],
        vec![Edge::Unknown, Edge::Unknown, Edge::Line, Edge::Line],
    ];

    let mut correctly_mapped = true;
    for row in 0..2 {
        for column in 0..3 {
            correctly_mapped = correctly_mapped
                && edges.vertical[row][column] == expected_line_states[row][column];
        }
    }

    assert!(correctly_mapped);
}

#[test]
fn correctly_maps_from_ascii() {
    let cells = Cells::from_ascii(
        "
            + + + + +
             1   2
            + + + + +
             3   1 0
            + + + + +
        ",
    )
    .unwrap();

    let expected_rows = vec![
        vec![Cell::One, Cell::Any, Cell::Two, Cell::Any],
        vec![Cell::Three, Cell::Any, Cell::One, Cell::Zero],
    ];

    assert_eq!(cells.rows(), &expected_rows);
}

#[test]
fn returns_correct_size() {
    let cells = Cells::new(vec![vec![Cell::Any; 4]; 2]).unwrap();

    assert_eq!(
        cells.get_size(),
        Size {
            width: 4,
            height: 2
        }
    );
}

#[test]
fn rejects_ragged_rows() {
    let rows = vec![vec![Cell::Any; 3], vec![Cell::One; 2]];
    assert_eq!(Cells::new(rows).unwrap_err(), SolveError::InvalidDimensions);
}

#[test]
fn rejects_malformed_clues() {
    assert_eq!(Cell::parse("4"), Err(SolveError::MalformedClue));
    assert_eq!(Cell::parse("12"), Err(SolveError::MalformedClue));
    assert_eq!(Cell::parse("x"), Err(SolveError::MalformedClue));
    let drawing = "
        + + +
         1 7
        + + +
    ";
    assert_eq!(Cells::from_ascii(drawing).unwrap_err(), SolveError::MalformedClue);
}

#[test]
fn parses_clues() {
    assert_eq!(Cell::parse(""), Ok(Cell::Any));
    assert_eq!(Cell::parse(" "), Ok(Cell::Any));
    assert_eq!(Cell::parse("0"), Ok(Cell::Zero));
    assert_eq!(Cell::parse("1"), Ok(Cell::One));
    assert_eq!(Cell::parse("2"), Ok(Cell::Two));
    assert_eq!(Cell::parse("3"), Ok(Cell::Three));
}

#[test]
fn expected_line_counts() {
    assert_eq!(Cell::Any.get_expected_line_count(), None);
    assert_eq!(Cell::Zero.get_expected_line_count(), Some(0));
    assert_eq!(Cell::Three.get_expected_line_count(), Some(3));
}

#[test]
fn cell_indices_run_row_by_row() {
    let cells = Cells::new(vec![vec![Cell::Any; 3]; 2]).unwrap();
    let indices = cells.index_cells();
    assert_eq!(indices.len(), 6);
    assert_eq!(indices[0], CellIndex { row: 0, column: 0 });
    assert_eq!(indices[2], CellIndex { row: 0, column: 2 });
    assert_eq!(indices[3], CellIndex { row: 1, column: 0 });
    assert_eq!(cells.index(CellIndex { row: 1, column: 2 }), Cell::Any);
}

#[test]
fn directions_have_opposites_and_neighbours() {
    let north_east = CornerDirection {
        horizontal: HorizontalDirection::East,
        vertical: VerticalDirection::North,
    };
    let south_west = CornerDirection {
        horizontal: HorizontalDirection::West,
        vertical: VerticalDirection::South,
    };
    assert_eq!(north_east.get_opposite(), south_west);
    let adjacent = north_east.get_adjacent();
    assert_eq!(adjacent[0].horizontal, HorizontalDirection::East);
    assert_eq!(adjacent[0].vertical, VerticalDirection::South);
    assert_eq!(adjacent[1].horizontal, HorizontalDirection::West);
    assert_eq!(adjacent[1].vertical, VerticalDirection::North);
    assert_eq!(HorizontalDirection::East.get_opposite(), HorizontalDirection::West);
    assert_eq!(VerticalDirection::South.get_opposite(), VerticalDirection::North);
    let all = Direction::iter_all();
    assert_eq!(all[0], Direction::Vertical(VerticalDirection::North));
    assert_eq!(all[1], Direction::Horizontal(HorizontalDirection::East));
    assert_eq!(CornerDirection::all()[0], north_east);
}

#[test]
fn cell_index_navigation() {
    let cell = CellIndex { row: 2, column: 3 };
    let south_east = CornerDirection {
        horizontal: HorizontalDirection::East,
        vertical: VerticalDirection::South,
    };
    assert_eq!(
        cell.index_intersection(south_east),
        IntersectionIndex { row: 3, column: 4 }
    );
    let edges = cell.index_edges();
    assert_eq!(
        edges[0],
        EdgeIndex { direction: EdgeDirection::Horizontal, row: 2, column: 3 }
    );
    assert_eq!(
        edges[1],
        EdgeIndex { direction: EdgeDirection::Vertical, row: 2, column: 4 }
    );
    assert_eq!(
        edges[2],
        EdgeIndex { direction: EdgeDirection::Horizontal, row: 3, column: 3 }
    );
    assert_eq!(
        edges[3],
        EdgeIndex { direction: EdgeDirection::Vertical, row: 2, column: 3 }
    );
    let corner = cell.index_corner_edges(south_east);
    assert_eq!(corner[0], edges[1]);
    assert_eq!(corner[1], edges[2]);
    let ends = EdgeIndex { direction: EdgeDirection::Vertical, row: 1, column: 5 }.get_intersections();
    assert_eq!(ends[0], IntersectionIndex { row: 1, column: 5 });
    assert_eq!(ends[1], IntersectionIndex { row: 2, column: 5 });
}

#[test]
fn intersection_navigation_stops_at_the_border() {
    let edges = Edges::create_empty(&Size { width: 2, height: 1 }).unwrap();
    let corner = IntersectionIndex { row: 0, column: 0 };
    let north = Direction::Vertical(VerticalDirection::North);
    let east = Direction::Horizontal(HorizontalDirection::East);
    let south = Direction::Vertical(VerticalDirection::South);
    assert_eq!(edges.index_adjacent_edge(&corner, north), None);
    assert_eq!(
        edges.index_adjacent_edge(&corner, east),
        Some(EdgeIndex { direction: EdgeDirection::Horizontal, row: 0, column: 0 })
    );
    let bottom = IntersectionIndex { row: 1, column: 2 };
    assert_eq!(edges.index_adjacent_edge(&bottom, south), None);
    assert_eq!(edges.index_adjacent_edge(&bottom, east), None);
    let adjacent = edges.index_adjacent_edges(corner);
    assert_eq!(adjacent[0], None);
    assert_eq!(adjacent[3], None);
    assert_eq!(edges.index_adjacent_intersection(corner, north), None);
    assert_eq!(
        edges.index_adjacent_intersection(corner, south),
        Some(IntersectionIndex { row: 1, column: 0 })
    );
    let north_west = CornerDirection {
        horizontal: HorizontalDirection::West,
        vertical: VerticalDirection::North,
    };
    let south_east = north_west.get_opposite();
    assert_eq!(edges.index_diagonally_from_intersection(corner, north_west), None);
    assert_eq!(
        edges.index_diagonally_from_intersection(corner, south_east),
        Some(CellIndex { row: 0, column: 0 })
    );
    assert_eq!(edges.index_adjacent_corner_edges(corner, north_west), [None, None]);
    assert_eq!(edges.index_edges().len(), 2 * 2 + 3);
    assert_eq!(edges.index_intersections().len(), 3 * 2);
    assert_eq!(edges.index_intersections()[4], IntersectionIndex { row: 1, column: 1 });
}

#[test]
fn follows_lines_without_turning_back() {
    let edges = Edges::from_ascii(
        "
            +-+-+
            |
            + + +
        ",
    );
    let sentinel = IntersectionIndex { row: usize::MAX, column: usize::MAX };
    let start = IntersectionIndex { row: 0, column: 1 };
    assert_eq!(
        edges.follow_line(&sentinel, &start),
        Some(IntersectionIndex { row: 0, column: 2 })
    );
    assert_eq!(
        edges.follow_line(&IntersectionIndex { row: 0, column: 2 }, &start),
        Some(IntersectionIndex { row: 0, column: 0 })
    );
    let corner = IntersectionIndex { row: 1, column: 0 };
    assert_eq!(edges.follow_line(&IntersectionIndex { row: 0, column: 0 }, &corner), None);
}

#[test]
fn edges_can_be_read_and_set() {
    let mut edges = Edges::create_empty(&Size { width: 1, height: 1 }).unwrap();
    let index = EdgeIndex { direction: EdgeDirection::Vertical, row: 0, column: 1 };
    edges.set(index, Edge::Line);
    assert_eq!(edges.get(index), Edge::Line);
    assert_eq!(edges.vertical[0][1], Edge::Line);
}

#[test]
fn the_south_edge_exists_above_the_last_row() {
    let edges = Edges::create_empty(&Size { width: 2, height: 1 }).unwrap();
    let south = Direction::Vertical(VerticalDirection::South);
    assert_eq!(
        edges.index_adjacent_edge(&IntersectionIndex { row: 0, column: 2 }, south),
        Some(EdgeIndex { direction: EdgeDirection::Vertical, row: 0, column: 2 })
    );
}

#[test]
fn reads_drawings_without_indentation() {
    let edges = Edges::from_unindented_ascii("+-+ +\n|   |\n+ +-+\n");
    assert_eq!(edges.horizontal, vec![vec![Edge::Line, Edge::Unknown], vec![Edge::Unknown, Edge::Line]]);
    assert_eq!(edges.vertical, vec![vec![Edge::Line, Edge::Unknown, Edge::Line]]);

    let cells = Cells::from_unindented_ascii("+ + +\n 2\r\n+ + +").unwrap();
    assert_eq!(cells.rows(), &vec![vec![Cell::Two, Cell::Any]]);

    // Indentation is not removed here: the clue moves one cell to the right.
    let cells = Cells::from_unindented_ascii("  + + +\n   2\n  + + +").unwrap();
    assert_eq!(cells.rows(), &vec![vec![Cell::Any, Cell::Two, Cell::Any]]);
}

#[test]
fn indentation_is_removed_before_reading() {
    let cells = Cells::from_ascii("
        + + +
         1 3
        + + +
    ").unwrap();
    assert_eq!(cells.rows(), &vec![vec![Cell::One, Cell::Three]]);
}

#[test]
fn neighbours_off_the_grid_are_absent() {
    let edges = Edges::create_empty(&Size { width: 2, height: 1 }).unwrap();
    let east = Direction::Horizontal(HorizontalDirection::East);
    let south = Direction::Vertical(VerticalDirection::South);
    let corner = IntersectionIndex { row: 1, column: 2 };
    assert_eq!(edges.index_adjacent_intersection(corner, east), None);
    assert_eq!(edges.index_adjacent_intersection(corner, south), None);
    let inside = IntersectionIndex { row: 0, column: 1 };
    assert_eq!(
        edges.index_adjacent_intersection(inside, east),
        Some(IntersectionIndex { row: 0, column: 2 })
    );
    assert_eq!(
        edges.index_adjacent_intersection(inside, south),
        Some(IntersectionIndex { row: 1, column: 1 })
    );
}
