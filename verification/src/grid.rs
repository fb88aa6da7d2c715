//! The mathematical model of the board: a sequence of 42 cells, row by row from
//! the bottom, and what it means for such a grid to respect gravity, to have a
//! full column, or to hold a line of four.

use vstd::prelude::*;
use crate::piece::{Cell, Piece};

verus! {

/// Number of columns of the board.
pub const COLUMNS: usize = 7;

/// Number of rows of the board.
pub const ROWS: usize = 6;

/// A board as a value: cell `(column, row)` stands at index `row * 7 + column`,
/// row 0 at the bottom and column 0 on the left.
pub type Grid = Seq<Cell>;

/// The four directions in which four pieces can line up.
#[derive(Clone, Copy, Debug, PartialEq, Eq, Structural)]
pub enum Direction {
    /// Up a column.
    Vertical,
    /// Up and to the right.
    Diagonal,
    /// Along a row.
    Horizontal,
    /// Down and to the right.
    AntiDiagonal,
}

/// `(column, row)` names a cell of the board.
pub open spec fn in_bounds(column: int, row: int) -> bool {
    0 <= column < 7 && 0 <= row < 6
}

/// The index of cell `(column, row)` in a grid.
pub open spec fn cell_index(column: int, row: int) -> int {
    row * 7 + column
}

/// What cell `(column, row)` of `g` holds.
pub open spec fn at(g: Grid, column: int, row: int) -> Cell {
    g[cell_index(column, row)]
}

/// The grid with no piece on it.
pub open spec fn empty_grid() -> Grid {
    Seq::new(42, |i: int| None::<Piece>)
}

/// In every column the occupied cells form a run that starts at row 0: no piece
/// floats above an empty cell.
pub open spec fn gravity(g: Grid) -> bool {
    forall|column: int, row: int|
        0 <= column < 7 && 1 <= row < 6 && (#[trigger] at(g, column, row)) is Some ==> at(
            g,
            column,
            row - 1,
        ) is Some
}

/// A grid that a board can hold: 42 cells that respect gravity.
pub open spec fn well_formed(g: Grid) -> bool {
    g.len() == 42 && gravity(g)
}

/// Every row of `column` is occupied.
pub open spec fn column_full(g: Grid, column: int) -> bool {
    forall|row: int| 0 <= row < 6 ==> (#[trigger] at(g, column, row)) is Some
}

/// `row` is the lowest empty cell of `column`.
pub open spec fn is_landing_row(g: Grid, column: int, row: int) -> bool {
    &&& 0 <= row < 6
    &&& at(g, column, row) is None
    &&& forall|below: int| 0 <= below < row ==> (#[trigger] at(g, column, below)) is Some
}

/// The lowest empty row of `column`, or 6 where the column is full.
pub open spec fn landing_row(g: Grid, column: int) -> int {
    if at(g, column, 0) is None {
        0
    } else if at(g, column, 1) is None {
        1
    } else if at(g, column, 2) is None {
        2
    } else if at(g, column, 3) is None {
        3
    } else if at(g, column, 4) is None {
        4
    } else if at(g, column, 5) is None {
        5
    } else {
        6
    }
}

/// The grid after `piece` was dropped into `column`: it occupies the lowest empty
/// cell there, and a full column leaves the grid as it was.
pub open spec fn drop_piece(g: Grid, column: int, piece: Piece) -> Grid {
    if landing_row(g, column) < 6 {
        g.update(cell_index(column, landing_row(g, column)), Some(piece))
    } else {
        g
    }
}

/// Every cell of the top row is occupied.
pub open spec fn top_row_full(g: Grid) -> bool {
    forall|column: int| 0 <= column < 7 ==> (#[trigger] at(g, column, 5)) is Some
}

/// Every cell of the grid is occupied.
pub open spec fn all_occupied(g: Grid) -> bool {
    forall|column: int, row: int| in_bounds(column, row) ==> (#[trigger] at(g, column, row)) is Some
}

/// How far the column moves after `k` steps in direction `d`.
pub open spec fn column_offset(d: Direction, k: int) -> int {
    match d {
        Direction::Vertical => 0,
        _ => k,
    }
}

/// How far the row moves after `k` steps in direction `d`.
pub open spec fn row_offset(d: Direction, k: int) -> int {
    match d {
        Direction::Horizontal => 0,
        Direction::AntiDiagonal => -k,
        _ => k,
    }
}

/// The cell `k` steps from `(column, row)` in direction `d` is on the board and
/// holds the same as `(column, row)`.
pub open spec fn matches_at(g: Grid, column: int, row: int, d: Direction, k: int) -> bool {
    let c = column + column_offset(d, k);
    let r = row + row_offset(d, k);
    in_bounds(c, r) && at(g, c, r) == at(g, column, row)
}

/// The four cells at steps `start .. start + 4` from `(column, row)` in direction
/// `d` are on the board and all hold the same as `(column, row)`.
pub open spec fn is_line(g: Grid, column: int, row: int, d: Direction, start: int) -> bool {
    &&& matches_at(g, column, row, d, start)
    &&& matches_at(g, column, row, d, start + 1)
    &&& matches_at(g, column, row, d, start + 2)
    &&& matches_at(g, column, row, d, start + 3)
}

/// Cell `(column, row)` holds a piece that is one of four of the same player in
/// an unbroken line: some window of four cells along one of the four directions
/// contains the cell and holds that piece throughout.
pub open spec fn wins_at(g: Grid, column: int, row: int) -> bool {
    &&& in_bounds(column, row)
    &&& at(g, column, row) is Some
    &&& exists|d: Direction, start: int|
        -3 <= start <= 0 && #[trigger] is_line(g, column, row, d, start)
}

/// Some cell of the grid is part of a line of four.
pub open spec fn has_line(g: Grid) -> bool {
    exists|column: int, row: int| #[trigger] wins_at(g, column, row)
}

} // verus!
