//! A Slitherlink (Suriza) solver: from a grid of cell clues it derives edge
//! states by local rules, diagonal corner constraints and a sub-loop check
//! until nothing changes, and extracts the loop as a route of intersections.

pub mod algorithm;
pub mod ascii;
pub mod cell;
pub mod constraint;
pub mod direction;
pub mod edge;
pub mod edges;
pub mod error;
pub mod grid;
pub mod index;
pub mod route;
pub mod rules;
pub mod solution;

pub use algorithm::solve;
pub use cell::{Cell, Cells};
pub use constraint::Constraint;
pub use direction::{CornerDirection, Direction, HorizontalDirection, VerticalDirection};
pub use edge::Edge;
pub use edges::Edges;
pub use error::SolveError;
pub use grid::EdgeGrid;
pub use index::{CellIndex, EdgeDirection, EdgeIndex, IntersectionIndex, Size};
pub use route::solve_route;
pub mod laws;
