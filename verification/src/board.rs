//! The board: 42 cells that fill from the bottom of each column.

use vstd::prelude::*;
use crate::error::MoveError;
use crate::piece::{Cell, Piece};
use crate::grid::{
    at, cell_index, column_full, drop_piece, empty_grid, is_landing_row, landing_row,
    top_row_full, well_formed, Grid,
};
use crate::grid_facts::{lemma_drop_keeps_gravity, lemma_full_column, lemma_landing_row};

verus! {

/// The 7 x 6 grid of cells.
#[derive(Clone, Copy, Debug, PartialEq, Eq)]
pub struct Board {
    cells: [Cell; 42],
}

impl View for Board {
    type V = Grid;

    closed spec fn view(&self) -> Grid {
        self.cells@
    }
}

impl Board {
    /// The board's cells respect gravity.
    pub open spec fn wf(&self) -> bool {
        well_formed(self@)
    }

    /// An empty board.
    pub fn new() -> (board: Board)
        ensures
            board.wf(),
            board@ == empty_grid(),
    {
        let board = Board { cells: [None; 42] };
        assert(board@ =~= empty_grid());
        board
    }

    /// What cell `(column, row)` holds.
    pub fn cell(&self, column: usize, row: usize) -> (c: Cell)
        requires
            column < 7,
            row < 6,
        ensures
            c == at(self@, column as int, row as int),
    {
        self.cells[row * 7 + column]
    }

    /// The lowest empty row of `column`, or `None` where the column is full.
    pub fn lowest_vacant_row(&self, column: usize) -> (found: Option<usize>)
        requires
            column < 7,
        ensures
            match found {
                Some(row) => is_landing_row(self@, column as int, row as int) && row == landing_row(
                    self@,
                    column as int,
                ),
                None => column_full(self@, column as int) && landing_row(self@, column as int) == 6,
            },
    {
        let mut row: usize = 0;
        while row < 6
            invariant
                column < 7,
                row <= 6,
                forall|below: int|
                    0 <= below < row ==> (#[trigger] at(self@, column as int, below)) is Some,
            decreases 6 - row,
        {
            if self.cells[row * 7 + column].is_none() {
                proof {
                    lemma_landing_row(self@, column as int, row as int);
                }
                return Some(row);
            }
            row += 1;
        }
        proof {
            lemma_full_column(self@, column as int);
        }
        None
    }

    /// Drops `piece` into `column`. It lands in the lowest empty cell, whose row is
    /// returned, and no other cell changes. A full column is reported as
    /// `ColumnFull` and leaves the board as it was.
    pub fn place(&mut self, column: usize, piece: Piece) -> (placed: Result<usize, MoveError>)
        requires
            old(self).wf(),
            column < 7,
        ensures
            final(self).wf(),
            final(self)@ == drop_piece(old(self)@, column as int, piece),
            match placed {
                Ok(row) => {
                    &&& is_landing_row(old(self)@, column as int, row as int)
                    &&& final(self)@ == old(self)@.update(
                        cell_index(column as int, row as int),
                        Some(piece),
                    )
                },
                Err(e) => {
                    &&& e == MoveError::ColumnFull
                    &&& column_full(old(self)@, column as int)
                    &&& final(self)@ == old(self)@
                },
            },
    {
        match self.lowest_vacant_row(column) {
            Some(row) => {
                self.cells[row * 7 + column] = Some(piece);
                proof {
                    lemma_drop_keeps_gravity(old(self)@, column as int, piece);
                }
                Ok(row)
            },
            None => Err(MoveError::ColumnFull),
        }
    }

    /// Whether no further piece can be placed: every cell of the top row is
    /// occupied.
    pub fn is_board_full(&self) -> (full: bool)
        ensures
            full == top_row_full(self@),
    {
        let mut column: usize = 0;
        while column < 7
            invariant
                column <= 7,
                forall|c: int| 0 <= c < column ==> (#[trigger] at(self@, c, 5)) is Some,
            decreases 7 - column,
        {
            if self.cells[5 * 7 + column].is_none() {
                assert(at(self@, column as int, 5) is None);
                return false;
            }
            column += 1;
        }
        true
    }
}

} // verus!
