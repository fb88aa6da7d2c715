//! Why a move is not made.

use vstd::prelude::*;

verus! {

/// Why a move was not made. None of these is fatal: the board and the game are
/// as they were, and another move can be tried.
#[derive(Clone, Copy, Debug, PartialEq, Eq, Hash, Structural)]
pub enum MoveError {
    /// The column has no empty cell left.
    ColumnFull,
    /// The position does not lie on any column of the board.
    InvalidColumnSelection,
    /// The game refused the move: the column is full, or the game is over.
    InvalidMove,
}

} // verus!
