use crate::error::SolveError;
use crate::index::{CellIndex, Size};
use vstd::prelude::*;
use vstd::string::StringSliceAdditionalSpecFns;

verus! {

/// The clue of one cell: how many of its four edges the loop uses, or `Any`
/// where the cell has no clue.
#[derive(Clone, Copy, Debug, PartialEq, Eq, Structural)]
pub enum Cell {
    Any,
    Zero,
    One,
    Two,
    Three,
}

impl Cell {
    /// The number of lines that have to surround the cell, `None` for `Any`.
    pub open spec fn expected_lines(self) -> Option<usize> {
        match self {
            Cell::Any => None,
            Cell::Zero => Some(0usize),
            Cell::One => Some(1usize),
            Cell::Two => Some(2usize),
            Cell::Three => Some(3usize),
        }
    }

    /// Returns the amount of lines that have to surround this cell in order for
    /// a solution to be valid, or `None` if the cell accepts any number of
    /// lines.
    pub fn get_expected_line_count(self) -> (r: Option<usize>)
        ensures
            r == self.expected_lines(),
    {
        match self {
            Cell::Any => None,
            Cell::Zero => Some(0),
            Cell::One => Some(1),
            Cell::Two => Some(2),
            Cell::Three => Some(3),
        }
    }

    /// Reads a clue from the bytes of its text: nothing or a space for no
    /// clue, a digit from 0 to 3 for that clue.
    pub fn parse(value: &str) -> (r: Result<Cell, SolveError>)
        ensures
            r == clue_of_text(value.spec_bytes()),
    {
        let bytes = value.as_bytes();
        if bytes.len() == 0 {
            Ok(Cell::Any)
        } else if bytes.len() == 1 {
            clue_of_byte(bytes[0])
        } else {
            Err(SolveError::MalformedClue)
        }
    }
}

/// The clue that the bytes of a text stand for.
pub open spec fn clue_of_text(bytes: Seq<u8>) -> Result<Cell, SolveError> {
    if bytes.len() == 0 {
        Ok(Cell::Any)
    } else if bytes.len() == 1 {
        clue_of_ascii(bytes[0])
    } else {
        Err(SolveError::MalformedClue)
    }
}

/// The clue that one ASCII character stands for.
pub open spec fn clue_of_ascii(byte: u8) -> Result<Cell, SolveError> {
    if byte == 32 {
        Ok(Cell::Any)
    } else if byte == 48 {
        Ok(Cell::Zero)
    } else if byte == 49 {
        Ok(Cell::One)
    } else if byte == 50 {
        Ok(Cell::Two)
    } else if byte == 51 {
        Ok(Cell::Three)
    } else {
        Err(SolveError::MalformedClue)
    }
}

/// Reads one ASCII character as a clue.
pub fn clue_of_byte(byte: u8) -> (r: Result<Cell, SolveError>)
    ensures
        r == clue_of_ascii(byte),
{
    match byte {
        32 => Ok(Cell::Any),
        48 => Ok(Cell::Zero),
        49 => Ok(Cell::One),
        50 => Ok(Cell::Two),
        51 => Ok(Cell::Three),
        _ => Err(SolveError::MalformedClue),
    }
}

/// The number of cells in each row: that of the first row, 0 without rows.
pub open spec fn grid_width(rows: Seq<Seq<Cell>>) -> nat {
    if rows.len() > 0 {
        rows[0].len()
    } else {
        0
    }
}

/// All rows are as long as the first.
pub open spec fn rectangular(rows: Seq<Seq<Cell>>) -> bool {
    forall|r: int| 0 <= r < rows.len() ==> #[trigger] rows[r].len() == grid_width(rows)
}

pub open spec fn rows_view(rows: Seq<Vec<Cell>>) -> Seq<Seq<Cell>> {
    rows.map_values(|row: Vec<Cell>| row@)
}

/// A rectangular grid of cell clues, row by row.
#[derive(Clone, Debug)]
pub struct Cells {
    rows: Vec<Vec<Cell>>,
}

impl View for Cells {
    type V = Seq<Seq<Cell>>;

    closed spec fn view(&self) -> Seq<Seq<Cell>> {
        rows_view(self.rows@)
    }
}

impl Cells {
    /// The grid is rectangular, and one more row or column than it has
    /// still fits in `usize`.
    pub open spec fn wf(&self) -> bool {
        &&& rectangular(self@)
        &&& self@.len() < usize::MAX
        &&& grid_width(self@) < usize::MAX
    }

    pub open spec fn at(&self, index: CellIndex) -> Cell {
        self@[index.row as int][index.column as int]
    }

    /// Builds a grid from its rows; fails with `InvalidDimensions` where the
    /// rows differ in length.
    pub fn new(rows: Vec<Vec<Cell>>) -> (r: Result<Cells, SolveError>)
        requires
            rows@.len() < usize::MAX,
            forall|i: int| 0 <= i < rows@.len() ==> #[trigger] rows@[i]@.len() < usize::MAX,
        ensures
            r is Ok <==> rectangular(rows_view(rows@)),
            r matches Ok(cells) ==> cells@ == rows_view(rows@) && cells.wf(),
            r matches Err(e) ==> e == SolveError::InvalidDimensions,
    {
        let ghost view = rows_view(rows@);
        if rows.len() > 0 {
            let width = rows[0].len();
            let mut i: usize = 0;
            while i < rows.len()
                invariant
                    0 <= i <= rows@.len(),
                    view == rows_view(rows@),
                    rows@.len() > 0,
                    width == grid_width(view),
                    forall|j: int| 0 <= j < i ==> #[trigger] view[j].len() == width,
                decreases rows@.len() - i,
            {
                if rows[i].len() != width {
                    assert(view[i as int].len() != grid_width(view));
                    return Err(SolveError::InvalidDimensions);
                }
                i = i + 1;
            }
        }
        let cells = Cells { rows };
        assert(cells@ == view);
        Ok(cells)
    }

    /// The rows of clues.
    pub fn rows(&self) -> (r: &Vec<Vec<Cell>>)
        ensures
            rows_view(r@) == self@,
    {
        &self.rows
    }

    /// Returns the `Size` of the grid.
    pub fn get_size(&self) -> (r: Size)
        requires
            self.wf(),
        ensures
            r.height == self@.len(),
            r.width == grid_width(self@),
    {
        let height = self.rows.len();
        let width = if height > 0 {
            self.rows[0].len()
        } else {
            0
        };
        Size { width, height }
    }

    /// The clue of the cell at `index`.
    pub fn index(&self, index: CellIndex) -> (r: Cell)
        requires
            self.wf(),
            index.row < self@.len(),
            index.column < grid_width(self@),
        ensures
            r == self.at(index),
    {
        assert(self@[index.row as int].len() == grid_width(self@));
        self.rows[index.row][index.column]
    }

    /// The indices of all cells, row by row.
    pub fn index_cells(&self) -> (r: Vec<CellIndex>)
        requires
            self.wf(),
        ensures
            r@ == cell_order(self@.len() as int, grid_width(self@) as int),
    {
        let size = self.get_size();
        let mut r: Vec<CellIndex> = Vec::new();
        let mut row: usize = 0;
        while row < size.height
            invariant
                size.height == self@.len(),
                size.width == grid_width(self@),
                size.width < usize::MAX,
                row <= size.height,
                r@ == cell_order(row as int, size.width as int),
            decreases size.height - row,
        {
            let mut column: usize = 0;
            let ghost before = r@;
            while column < size.width
                invariant
                    size.height == self@.len(),
                    size.width == grid_width(self@),
                    row < size.height,
                    column <= size.width,
                    before == cell_order(row as int, size.width as int),
                    r@ == before + cell_row(row as int, column as int),
                decreases size.width - column,
            {
                r.push(CellIndex { row, column });
                proof {
                    assert(cell_row(row as int, column + 1) =~= cell_row(row as int, column as int).push(
                        CellIndex { row, column },
                    ));
                }
                column = column + 1;
            }
            row = row + 1;
        }
        r
    }
}

/// The first `column` cells of `row`.
pub open spec fn cell_row(row: int, column: int) -> Seq<CellIndex> {
    Seq::new(column as nat, |c: int| CellIndex { row: row as usize, column: c as usize })
}

/// The cells of the first `rows` rows of a grid `width` cells wide, row by row.
pub open spec fn cell_order(rows: int, width: int) -> Seq<CellIndex>
    decreases rows,
{
    if rows <= 0 {
        Seq::empty()
    } else {
        cell_order(rows - 1, width) + cell_row(rows - 1, width)
    }
}

} // verus!
