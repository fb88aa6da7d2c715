//! The turn state machine: whose move it is, what a move does to the board, and
//! how a game ends.

use vstd::prelude::*;
use crate::board::Board;
use crate::error::MoveError;
use crate::grid::{
    at, drop_piece, empty_grid, has_line, landing_row, top_row_full, well_formed, wins_at, Grid,
};
use crate::grid_facts::{
    lemma_drop_changes_one_cell, lemma_drop_keeps_gravity, lemma_empty_grid, lemma_full_column,
    lemma_landing_row, lemma_new_lines_pass_through_new_piece,
};
use crate::piece::Piece;

verus! {

/// How a game ended.
#[derive(Clone, Copy, Debug, PartialEq, Eq, Hash, Structural)]
pub enum GameOutcome {
    HumanWon,
    ComputerWon,
    Draw,
}

/// Where a game stands: a player is to move, or the game is over.
#[derive(Clone, Copy, Debug, PartialEq, Eq, Hash, Structural)]
pub enum Phase {
    InProgress(Piece),
    Ended(GameOutcome),
}

/// What an accepted move did: the cell that was filled, with whose piece, and
/// the phase that the game is in after it.
#[derive(Clone, Copy, Debug, PartialEq, Eq, Structural)]
pub struct MoveEffect {
    pub column: usize,
    pub row: usize,
    pub piece: Piece,
    pub phase: Phase,
}

/// A game as a value: the grid and the phase.
pub struct GameState {
    pub grid: Grid,
    pub phase: Phase,
}

/// A game: the board and the phase, which move together.
#[derive(Clone, Copy, Debug, PartialEq, Eq)]
pub struct GameController {
    board: Board,
    phase: Phase,
}

impl GameOutcome {
    /// The outcome in which `piece` has won.
    pub open spec fn won_by(piece: Piece) -> GameOutcome {
        match piece {
            Piece::Human => GameOutcome::HumanWon,
            Piece::Computer => GameOutcome::ComputerWon,
        }
    }

    /// The message that announces the outcome.
    pub open spec fn text(self) -> Seq<char> {
        match self {
            GameOutcome::HumanWon => "Player A wins"@,
            GameOutcome::ComputerWon => "Player B wins"@,
            GameOutcome::Draw => "Game drawn"@,
        }
    }

    /// The message that announces the outcome: the human is player A, the
    /// computer player B.
    pub fn message(self) -> (message: &'static str)
        ensures
            message@ == self.text(),
    {
        match self {
            GameOutcome::HumanWon => "Player A wins",
            GameOutcome::ComputerWon => "Player B wins",
            GameOutcome::Draw => "Game drawn",
        }
    }

    /// The outcome in which `piece` has won.
    pub fn win_of(piece: Piece) -> (outcome: GameOutcome)
        ensures
            outcome == GameOutcome::won_by(piece),
    {
        match piece {
            Piece::Human => GameOutcome::HumanWon,
            Piece::Computer => GameOutcome::ComputerWon,
        }
    }
}

impl Phase {
    /// The piece that moves next, or `None` once the game is over.
    pub open spec fn turn(self) -> Option<Piece> {
        match self {
            Phase::InProgress(piece) => Some(piece),
            Phase::Ended(_) => None,
        }
    }

    /// How the game ended, or `None` while it is in progress.
    pub open spec fn outcome(self) -> Option<GameOutcome> {
        match self {
            Phase::InProgress(_) => None,
            Phase::Ended(outcome) => Some(outcome),
        }
    }
}

/// Every line of four on the grid is made of `piece`.
pub open spec fn lines_belong_to(g: Grid, piece: Piece) -> bool {
    forall|column: int, row: int|
        #[trigger] wins_at(g, column, row) ==> at(g, column, row) == Some(piece)
}

/// The phase agrees with the grid: while a game is in progress the grid has no
/// line of four and room for a piece; a drawn game has a full grid without a
/// line; a won game has a line, and every line is the winner's.
pub open spec fn coherent(s: GameState) -> bool {
    match s.phase {
        Phase::InProgress(_) => !has_line(s.grid) && !top_row_full(s.grid),
        Phase::Ended(GameOutcome::Draw) => !has_line(s.grid) && top_row_full(s.grid),
        Phase::Ended(GameOutcome::HumanWon) => has_line(s.grid) && lines_belong_to(
            s.grid,
            Piece::Human,
        ),
        Phase::Ended(GameOutcome::ComputerWon) => has_line(s.grid) && lines_belong_to(
            s.grid,
            Piece::Computer,
        ),
    }
}

/// Why a move into `column` is refused in state `s`, or `None` where it is
/// accepted. A column off the board is an invalid selection whatever the phase;
/// on the board, a move is invalid once the game is over or where the column is
/// full.
pub open spec fn refusal(s: GameState, column: int) -> Option<MoveError> {
    if !(0 <= column < 7) {
        Some(MoveError::InvalidColumnSelection)
    } else if s.phase is Ended {
        Some(MoveError::InvalidMove)
    } else if landing_row(s.grid, column) >= 6 {
        Some(MoveError::InvalidMove)
    } else {
        None
    }
}

/// The phase after `piece` was placed at `(column, row)` and gave `g`: won by
/// `piece` where the cell lies on a line of four, else drawn where the top row is
/// full, else the opponent's turn.
pub open spec fn phase_after(g: Grid, column: int, row: int, piece: Piece) -> Phase {
    if wins_at(g, column, row) {
        Phase::Ended(GameOutcome::won_by(piece))
    } else if top_row_full(g) {
        Phase::Ended(GameOutcome::Draw)
    } else {
        Phase::InProgress(piece.opponent())
    }
}

/// The state after a move into `column` was asked for in state `s`. A refused
/// move leaves the state as it is.
pub open spec fn step(s: GameState, column: int) -> GameState {
    match s.phase {
        Phase::InProgress(piece) if refusal(s, column) is None => {
            let grid = drop_piece(s.grid, column, piece);
            GameState { grid, phase: phase_after(grid, column, landing_row(s.grid, column), piece) }
        },
        _ => s,
    }
}

/// What an accepted move into `column` reports in state `s`.
pub open spec fn effect_of(s: GameState, column: int) -> MoveEffect {
    MoveEffect {
        column: column as usize,
        row: landing_row(s.grid, column) as usize,
        piece: s.phase->InProgress_0,
        phase: step(s, column).phase,
    }
}

impl View for GameController {
    type V = GameState;

    closed spec fn view(&self) -> GameState {
        GameState { grid: self.board@, phase: self.phase }
    }
}

impl GameController {
    /// The board respects gravity and the phase agrees with it.
    pub open spec fn wf(&self) -> bool {
        well_formed(self@.grid) && coherent(self@)
    }

    /// A game on an empty board in which `first_mover` moves first.
    pub fn new(first_mover: Piece) -> (game: GameController)
        ensures
            game.wf(),
            game@ == (GameState { grid: empty_grid(), phase: Phase::InProgress(first_mover) }),
    {
        proof {
            lemma_empty_grid();
        }
        GameController { board: Board::new(), phase: Phase::InProgress(first_mover) }
    }

    /// The piece that moves next, or `None` once the game is over.
    pub fn turn(&self) -> (turn: Option<Piece>)
        ensures
            turn == self@.phase.turn(),
    {
        match self.phase {
            Phase::InProgress(piece) => Some(piece),
            Phase::Ended(_) => None,
        }
    }

    /// How the game ended, or `None` while it is in progress.
    pub fn outcome(&self) -> (outcome: Option<GameOutcome>)
        ensures
            outcome == self@.phase.outcome(),
    {
        match self.phase {
            Phase::InProgress(_) => None,
            Phase::Ended(o) => Some(o),
        }
    }

    /// The phase of the game.
    pub fn phase(&self) -> (phase: Phase)
        ensures
            phase == self@.phase,
    {
        self.phase
    }

    /// The board, to read.
    pub fn board(&self) -> (board: &Board)
        ensures
            board@ == self@.grid,
    {
        &self.board
    }

    /// Makes the move of the player whose turn it is into `column`.
    ///
    /// The piece lands on the lowest empty cell of the column. If that completes
    /// a line of four the mover has won; else, if the board is now full, the game
    /// is drawn; else the turn passes to the opponent. A move is refused, and
    /// nothing changes, where `column` is off the board, the game is over, or the
    /// column is full.
    pub fn apply_move(&mut self, column: usize) -> (moved: Result<MoveEffect, MoveError>)
        requires
            old(self).wf(),
        ensures
            final(self).wf(),
            final(self)@ == step(old(self)@, column as int),
            match moved {
                Ok(effect) => refusal(old(self)@, column as int) is None && effect == effect_of(
                    old(self)@,
                    column as int,
                ),
                Err(e) => refusal(old(self)@, column as int) == Some(e) && final(self)@ == old(
                    self,
                )@,
            },
    {
        if column >= 7 {
            return Err(MoveError::InvalidColumnSelection);
        }
        let piece = match self.phase {
            Phase::InProgress(piece) => piece,
            Phase::Ended(_) => {
                return Err(MoveError::InvalidMove);
            },
        };
        proof {
            lemma_full_column(self@.grid, column as int);
            lemma_step_keeps_coherence(self@, column as int);
        }
        match self.board.place(column, piece) {
            Ok(row) => {
                let phase = if self.board.is_winning_move(column, row) {
                    Phase::Ended(GameOutcome::win_of(piece))
                } else if self.board.is_board_full() {
                    Phase::Ended(GameOutcome::Draw)
                } else {
                    Phase::InProgress(piece.other())
                };
                self.phase = phase;
                proof {
                    lemma_landing_row(old(self)@.grid, column as int, row as int);
                }
                Ok(MoveEffect { column, row, piece, phase })
            },
            Err(_) => Err(MoveError::InvalidMove),
        }
    }
}

/// A move takes a state in which phase and grid agree to another such state.
pub proof fn lemma_step_keeps_coherence(s: GameState, column: int)
    requires
        well_formed(s.grid),
        coherent(s),
    ensures
        well_formed(step(s, column).grid),
        coherent(step(s, column)),
{
    if let Phase::InProgress(piece) = s.phase {
        if refusal(s, column) is None {
            let row = landing_row(s.grid, column);
            let next = drop_piece(s.grid, column, piece);
            lemma_drop_keeps_gravity(s.grid, column, piece);
            lemma_drop_changes_one_cell(s.grid, column, piece, column, row);
            assert forall|c: int, r: int| #[trigger] wins_at(next, c, r) implies wins_at(
                next,
                column,
                row,
            ) && at(next, c, r) == Some(piece) by {
                lemma_new_lines_pass_through_new_piece(s.grid, column, piece, c, r);
                assert(!wins_at(s.grid, c, r));
            }
        }
    }
}

} // verus!
