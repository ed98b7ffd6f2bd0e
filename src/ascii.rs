use crate::cell::{Cell, Cells, clue_of_ascii, clue_of_byte, rows_view};
use crate::edge::Edge;
use crate::edges::{Edges, edge_rows_view};
use crate::error::SolveError;
use crate::grid::EdgeGrid;
use vstd::prelude::*;
use vstd::string::StringSliceAdditionalSpecFns;

verus! {

/// The text that `unindent::unindent` makes of `s`.
pub uninterp spec fn unindented(s: Seq<char>) -> Seq<char>;

/// Relies on `unindent::unindent`: removes the indentation that the lines
/// after the first have in common; the result depends on the text alone.
#[verifier::external_body]
fn unindent_text(s: &str) -> (r: String)
    ensures
        r@ == unindented(s@),
{
    unindent::unindent(s)
}

/// A line without the carriage return that ended it, if any.
pub open spec fn strip_cr(line: Seq<u8>) -> Seq<u8> {
    if line.len() > 0 && line.last() == 13 {
        line.drop_last()
    } else {
        line
    }
}

/// The lines ended so far and the line under way after the first `k` bytes.
pub open spec fn lines_so_far(bytes: Seq<u8>, k: int) -> (Seq<Seq<u8>>, Seq<u8>)
    decreases k,
{
    if k <= 0 {
        (Seq::empty(), Seq::empty())
    } else {
        let (done, current) = lines_so_far(bytes, k - 1);
        if bytes[k - 1] == 10 {
            (done.push(strip_cr(current)), Seq::empty())
        } else {
            (done, current.push(bytes[k - 1]))
        }
    }
}

/// The lines of a text: split at each line feed, a carriage return before
/// it dropped; a last line without line feed counts where it is not empty.
pub open spec fn text_lines(bytes: Seq<u8>) -> Seq<Seq<u8>> {
    let (done, current) = lines_so_far(bytes, bytes.len() as int);
    if current.len() > 0 {
        done.push(current)
    } else {
        done
    }
}

pub open spec fn byte_rows_view(rows: Seq<Vec<u8>>) -> Seq<Seq<u8>> {
    rows.map_values(|row: Vec<u8>| row@)
}

/// Splits a text into its lines.
fn split_lines(bytes: &[u8]) -> (r: Vec<Vec<u8>>)
    ensures
        byte_rows_view(r@) == text_lines(bytes@),
{
    let mut done: Vec<Vec<u8>> = Vec::new();
    let mut current: Vec<u8> = Vec::new();
    let mut k: usize = 0;
    while k < bytes.len()
        invariant
            k <= bytes@.len(),
            (byte_rows_view(done@), current@) == lines_so_far(bytes@, k as int),
        decreases bytes@.len() - k,
    {
        let ghost before = byte_rows_view(done@);
        if bytes[k] == 10 {
            let mut line: Vec<u8> = Vec::new();
            std::mem::swap(&mut line, &mut current);
            let len = line.len();
            if len > 0 && line[len - 1] == 13 {
                line.pop();
            }
            let ghost ended = line@;
            done.push(line);
            assert(byte_rows_view(done@) =~= before.push(ended));
        } else {
            current.push(bytes[k]);
        }
        k = k + 1;
    }
    if current.len() > 0 {
        let ghost before = byte_rows_view(done@);
        let ghost last = current@;
        done.push(current);
        assert(byte_rows_view(done@) =~= before.push(last));
    }
    done
}

/// The edge that a byte of a drawing stands for: '-' and '|' a line,
/// anything else an unknown edge.
pub open spec fn edge_of_byte(byte: u8) -> Edge {
    if byte == 45 || byte == 124 {
        Edge::Line
    } else {
        Edge::Unknown
    }
}

/// The horizontal edges that a line of a drawing shows: its bytes at odd
/// positions.
pub open spec fn horizontal_row(line: Seq<u8>) -> Seq<Edge> {
    Seq::new(line.len() / 2, |c: int| edge_of_byte(line[2 * c + 1]))
}

/// The `width` vertical edges that a line of a drawing shows: its bytes at
/// even positions, unknown past its end.
pub open spec fn vertical_row(line: Seq<u8>, width: nat) -> Seq<Edge> {
    Seq::new(
        width,
        |c: int|
            if 2 * c < line.len() {
                edge_of_byte(line[2 * c])
            } else {
                Edge::Unknown
            },
    )
}

/// The edges that a drawing shows: its lines alternate between horizontal
/// edges (first, third, ...) and vertical edges; there are as many vertical
/// edges in a row as '+' signs in the first line.
pub open spec fn ascii_edges(lines: Seq<Seq<u8>>) -> EdgeGrid {
    let width: nat = if lines.len() > 0 {
        lines[0].len() / 2 + 1
    } else {
        0
    };
    EdgeGrid {
        horizontal: Seq::new(((lines.len() + 1) / 2) as nat, |i: int| horizontal_row(lines[2 * i])),
        vertical: Seq::new(lines.len() / 2, |i: int| vertical_row(lines[2 * i + 1], width)),
    }
}

/// The clue that a line of a drawing shows for cell `c`: its byte at
/// position 2c + 1, no clue past its end.
pub open spec fn clue_in_line(line: Seq<u8>, c: int) -> Result<Cell, SolveError> {
    if 2 * c + 1 < line.len() {
        clue_of_ascii(line[2 * c + 1])
    } else {
        Ok(Cell::Any)
    }
}

/// The number of cells in a row of a drawing: the number of spaces between
/// the '+' signs of its first line.
pub open spec fn ascii_width(lines: Seq<Seq<u8>>) -> nat {
    if lines.len() > 0 {
        lines[0].len() / 2
    } else {
        0
    }
}

/// Every clue that a drawing shows is readable.
pub open spec fn ascii_clues_readable(lines: Seq<Seq<u8>>) -> bool {
    forall|i: int, c: int|
        0 <= i < lines.len() / 2 && 0 <= c < ascii_width(lines) ==> (#[trigger] clue_in_line(
            lines[2 * i + 1],
            c,
        )) is Ok
}

/// The clues that a drawing shows: its second, fourth, ... lines.
pub open spec fn ascii_cells(lines: Seq<Seq<u8>>) -> Seq<Seq<Cell>> {
    Seq::new(
        lines.len() / 2,
        |i: int| Seq::new(ascii_width(lines), |c: int| clue_in_line(lines[2 * i + 1], c)->Ok_0),
    )
}

fn edge_of(byte: u8) -> (r: Edge)
    ensures
        r == edge_of_byte(byte),
{
    if byte == 45 || byte == 124 {
        Edge::Line
    } else {
        Edge::Unknown
    }
}

fn read_horizontal_row(line: &Vec<u8>) -> (r: Vec<Edge>)
    ensures
        r@ == horizontal_row(line@),
{
    let len = line.len();
    let n = len / 2;
    let mut r: Vec<Edge> = Vec::new();
    let mut c: usize = 0;
    while c < n
        invariant
            len == line@.len(),
            n == line@.len() / 2,
            c <= n,
            r@ == horizontal_row(line@).subrange(0, c as int),
        decreases n - c,
    {
        assert(2 * c + 1 < line@.len());
        r.push(edge_of(line[2 * c + 1]));
        c = c + 1;
        assert(r@ =~= horizontal_row(line@).subrange(0, c as int));
    }
    assert(r@ =~= horizontal_row(line@));
    r
}

fn read_vertical_row(line: &Vec<u8>, width: usize) -> (r: Vec<Edge>)
    ensures
        r@ == vertical_row(line@, width as nat),
{
    let mut r: Vec<Edge> = Vec::new();
    let mut c: usize = 0;
    while c < width
        invariant
            c <= width,
            r@ == vertical_row(line@, width as nat).subrange(0, c as int),
        decreases width - c,
    {
        let edge = if c < line.len() / 2 + line.len() % 2 {
            edge_of(line[2 * c])
        } else {
            Edge::Unknown
        };
        r.push(edge);
        c = c + 1;
        assert(r@ =~= vertical_row(line@, width as nat).subrange(0, c as int));
    }
    assert(r@ =~= vertical_row(line@, width as nat));
    r
}

fn read_clue_row(line: &Vec<u8>, width: usize) -> (r: Result<Vec<Cell>, SolveError>)
    ensures
        r is Ok <==> forall|c: int| 0 <= c < width ==> (#[trigger] clue_in_line(line@, c)) is Ok,
        r matches Ok(row) ==> row@ == Seq::new(width as nat, |c: int| clue_in_line(line@, c)->Ok_0),
        r matches Err(e) ==> e == SolveError::MalformedClue,
{
    let mut r: Vec<Cell> = Vec::new();
    let mut c: usize = 0;
    while c < width
        invariant
            c <= width,
            r@ == Seq::new(c as nat, |j: int| clue_in_line(line@, j)->Ok_0),
            forall|j: int| 0 <= j < c ==> (#[trigger] clue_in_line(line@, j)) is Ok,
        decreases width - c,
    {
        let clue = if c < line.len() / 2 {
            clue_of_byte(line[2 * c + 1])
        } else {
            Ok(Cell::Any)
        };
        assert(clue == clue_in_line(line@, c as int));
        match clue {
            Ok(cell) => r.push(cell),
            Err(e) => return Err(e),
        }
        c = c + 1;
        assert(r@ =~= Seq::new(c as nat, |j: int| clue_in_line(line@, j)->Ok_0));
    }
    Ok(r)
}

impl Edges {
    /// Reads the edges that an ASCII drawing shows, whose indentation has
    /// been removed: lines alternate between horizontal edges ('-' a line)
    /// and vertical edges ('|' a line), starting with horizontal ones; any
    /// other character leaves an edge unknown. The drawing is read byte by
    /// byte; nothing checks that it is well formed.
    pub fn from_unindented_ascii(text: &str) -> (r: Edges)
        ensures
            r@ == ascii_edges(text_lines(text.spec_bytes())),
    {
        let lines = split_lines(text.as_bytes());
        let ghost view = byte_rows_view(lines@);
        let width = if lines.len() > 0 {
            lines[0].len() / 2 + 1
        } else {
            0
        };
        let mut horizontal: Vec<Vec<Edge>> = Vec::new();
        let mut vertical: Vec<Vec<Edge>> = Vec::new();
        let mut i: usize = 0;
        while i < lines.len()
            invariant
                view == byte_rows_view(lines@),
                i <= lines@.len(),
                width == (if view.len() > 0 {
                    view[0].len() / 2 + 1
                } else {
                    0
                }),
                edge_rows_view(horizontal@) == Seq::new(
                    ((i + 1) / 2) as nat,
                    |j: int| horizontal_row(view[2 * j]),
                ),
                edge_rows_view(vertical@) == Seq::new(
                    (i / 2) as nat,
                    |j: int| vertical_row(view[2 * j + 1], width as nat),
                ),
            decreases lines@.len() - i,
        {
            let ghost h = edge_rows_view(horizontal@);
            let ghost v = edge_rows_view(vertical@);
            if i % 2 == 0 {
                let row = read_horizontal_row(&lines[i]);
                let ghost row_view = row@;
                horizontal.push(row);
                assert(edge_rows_view(horizontal@) =~= h.push(row_view));
                assert(edge_rows_view(horizontal@) =~= Seq::new(
                    ((i + 2) / 2) as nat,
                    |j: int| horizontal_row(view[2 * j]),
                ));
                assert(edge_rows_view(vertical@) =~= Seq::new(
                    ((i + 1) / 2) as nat,
                    |j: int| vertical_row(view[2 * j + 1], width as nat),
                ));
            } else {
                let row = read_vertical_row(&lines[i], width);
                let ghost row_view = row@;
                vertical.push(row);
                assert(edge_rows_view(vertical@) =~= v.push(row_view));
                assert(edge_rows_view(vertical@) =~= Seq::new(
                    ((i + 1) / 2) as nat,
                    |j: int| vertical_row(view[2 * j + 1], width as nat),
                ));
                assert(edge_rows_view(horizontal@) =~= Seq::new(
                    ((i + 2) / 2) as nat,
                    |j: int| horizontal_row(view[2 * j]),
                ));
            }
            i = i + 1;
        }
        let r = Edges { horizontal, vertical };
        assert(r@ =~= ascii_edges(view));
        r
    }

    /// Reads the edges that an ASCII drawing shows, after removing the
    /// indentation its lines have in common (see `from_unindented_ascii`).
    pub fn from_ascii(input: &str) -> (r: Edges)
        ensures
            r@ == ascii_edges(text_lines(vstd::utf8::encode_utf8(unindented(input@)))),
    {
        let text = unindent_text(input);
        Edges::from_unindented_ascii(text.as_str())
    }
}

impl Cells {
    /// Reads the clues that an ASCII drawing shows, whose indentation has
    /// been removed: its second, fourth, ... lines hold a clue (a digit from
    /// 0 to 3, or a space for none) at every second byte from the second on;
    /// a row has as many cells as the first line has spaces between its '+'
    /// signs, and a short line leaves its last cells without clue. Fails
    /// with `MalformedClue` where a clue is another character.
    pub fn from_unindented_ascii(text: &str) -> (r: Result<Cells, SolveError>)
        ensures
            r is Ok <==> ascii_clues_readable(text_lines(text.spec_bytes())),
            r matches Ok(cells) ==> cells@ == ascii_cells(text_lines(text.spec_bytes()))
                && cells.wf(),
            r matches Err(e) ==> e == SolveError::MalformedClue,
    {
        let lines = split_lines(text.as_bytes());
        let ghost view = byte_rows_view(lines@);
        let width = if lines.len() > 0 {
            lines[0].len() / 2
        } else {
            0
        };
        assert(width == ascii_width(view));
        let mut rows: Vec<Vec<Cell>> = Vec::new();
        let mut i: usize = 1;
        while i < lines.len()
            invariant
                view == byte_rows_view(lines@),
                view == text_lines(text.spec_bytes()),
                width == ascii_width(view),
                1 <= i <= lines@.len() + 1,
                i % 2 == 1,
                rows@.len() == i / 2,
                rows_view(rows@) == Seq::new(
                    (i / 2) as nat,
                    |j: int| Seq::new(width as nat, |c: int| clue_in_line(view[2 * j + 1], c)->Ok_0),
                ),
                forall|j: int| 0 <= j < rows@.len() ==> #[trigger] rows@[j]@.len() == width,
                forall|j: int, c: int|
                    0 <= j < i / 2 && 0 <= c < width ==> (#[trigger] clue_in_line(
                        view[2 * j + 1],
                        c,
                    )) is Ok,
            decreases lines@.len() + 1 - i,
        {
            let ghost before = rows_view(rows@);
            match read_clue_row(&lines[i], width) {
                Ok(row) => {
                    let ghost row_view = row@;
                    rows.push(row);
                    assert(rows_view(rows@) =~= before.push(row_view));
                    assert(rows_view(rows@) =~= Seq::new(
                        ((i + 2) / 2) as nat,
                        |j: int|
                            Seq::new(width as nat, |c: int| clue_in_line(view[2 * j + 1], c)->Ok_0),
                    ));
                },
                Err(e) => {
                    assert(view[i as int] == lines@[i as int]@);
                    assert(!ascii_clues_readable(view)) by {
                        let c = choose|c: int|
                            0 <= c < width && !(#[trigger] clue_in_line(view[i as int], c) is Ok);
                        assert(0 <= i / 2 < view.len() / 2);
                        assert(2 * (i / 2) + 1 == i);
                        assert(view[2 * (i / 2) + 1] == view[i as int]);
                        assert(!(clue_in_line(view[2 * (i / 2) + 1], c) is Ok));
                    }
                    return Err(e);
                },
            }
            i = i + 2;
        }
        assert(i / 2 == view.len() / 2);
        let ghost cells_view = rows_view(rows@);
        assert(cells_view =~= ascii_cells(view));
        assert(rows@.len() < usize::MAX);
        let cells = Cells::new(rows);
        match cells {
            Ok(cells) => Ok(cells),
            Err(e) => Err(e),
        }
    }

    /// Reads the clues that an ASCII drawing shows, after removing the
    /// indentation its lines have in common (see `from_unindented_ascii`).
    pub fn from_ascii(input: &str) -> (r: Result<Cells, SolveError>)
        ensures
            r is Ok <==> ascii_clues_readable(
                text_lines(vstd::utf8::encode_utf8(unindented(input@))),
            ),
            r matches Ok(cells) ==> cells@ == ascii_cells(
                text_lines(vstd::utf8::encode_utf8(unindented(input@))),
            ) && cells.wf(),
            r matches Err(e) ==> e == SolveError::MalformedClue,
    {
        let text = unindent_text(input);
        Cells::from_unindented_ascii(text.as_str())
    }
}

} // verus!
