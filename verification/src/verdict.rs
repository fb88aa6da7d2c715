//! Reading the state of a game off the board alone.

use vstd::prelude::*;
use crate::board::Board;
use crate::game::{coherent, lines_belong_to, GameOutcome, GameState, Phase};
use crate::grid::{at, has_line, top_row_full, wins_at, Grid};
use crate::piece::Piece;

verus! {

/// What the first cell on a line of four holds, going through the cells row by
/// row from the bottom and from left to right in each row, starting at
/// `(column, row)`; `None` where no cell from there on lies on a line.
pub open spec fn first_line_from(g: Grid, column: int, row: int) -> Option<Piece>
    decreases 6 - row, 7 - column,
{
    if row >= 6 || row < 0 || column < 0 {
        None
    } else if column >= 7 {
        first_line_from(g, 0, row + 1)
    } else if wins_at(g, column, row) {
        at(g, column, row)
    } else {
        first_line_from(g, column + 1, row)
    }
}

/// How the game on `g` has ended, going by the grid alone: won by the player who
/// holds the first cell found on a line of four; else drawn where the top row is
/// full; else not at all.
pub open spec fn verdict_of(g: Grid) -> Option<GameOutcome> {
    match first_line_from(g, 0, 0) {
        Some(piece) => Some(GameOutcome::won_by(piece)),
        None => if top_row_full(g) {
            Some(GameOutcome::Draw)
        } else {
            None
        },
    }
}

/// Whether the game on `board` is over, and how: won by the player with a line
/// of four, drawn on a full board without one, or still open (`None`). Where
/// both players have a line, the first cell found on one, row by row from the
/// bottom left, decides.
pub fn is_game_over(board: &Board) -> (verdict: Option<GameOutcome>)
    ensures
        verdict == verdict_of(board@),
{
    let mut row: usize = 0;
    while row < 6
        invariant
            row <= 6,
            first_line_from(board@, 0, 0) == first_line_from(board@, 0, row as int),
        decreases 6 - row,
    {
        let mut column: usize = 0;
        while column < 7
            invariant
                row < 6,
                column <= 7,
                first_line_from(board@, 0, 0) == first_line_from(board@, column as int, row as int),
            decreases 7 - column,
        {
            if let Some(piece) = board.cell(column, row) {
                if board.is_winning_move(column, row) {
                    return Some(GameOutcome::win_of(piece));
                }
            }
            assert(!wins_at(board@, column as int, row as int));
            column += 1;
        }
        row += 1;
    }
    if board.is_board_full() {
        Some(GameOutcome::Draw)
    } else {
        None
    }
}

/// On a grid without a line of four the search finds nothing.
pub proof fn lemma_no_line_no_finding(g: Grid, column: int, row: int)
    requires
        !has_line(g),
    ensures
        first_line_from(g, column, row) is None,
    decreases 6 - row, 7 - column,
{
    if row >= 6 || row < 0 || column < 0 {
    } else if column >= 7 {
        lemma_no_line_no_finding(g, 0, row + 1);
    } else {
        assert(!wins_at(g, column, row));
        lemma_no_line_no_finding(g, column + 1, row);
    }
}

/// Where every line of four is `piece`'s and some cell at or after the start of
/// the search lies on one, the search finds `piece`.
pub proof fn lemma_finding_is_the_owner(
    g: Grid,
    piece: Piece,
    column: int,
    row: int,
    c: int,
    r: int,
)
    requires
        lines_belong_to(g, piece),
        wins_at(g, c, r),
        0 <= column <= 7,
        0 <= row,
        row < r || (row == r && column <= c),
    ensures
        first_line_from(g, column, row) == Some(piece),
    decreases 6 - row, 7 - column,
{
    if column >= 7 {
        lemma_finding_is_the_owner(g, piece, 0, row + 1, c, r);
    } else if wins_at(g, column, row) {
    } else {
        lemma_finding_is_the_owner(g, piece, column + 1, row, c, r);
    }
}

/// In a state whose phase agrees with its grid, the grid alone tells how the
/// game stands: the verdict read off the grid is the outcome that the phase
/// holds, and there is none while the game is in progress.
pub proof fn lemma_verdict_is_the_outcome(s: GameState)
    requires
        coherent(s),
    ensures
        verdict_of(s.grid) == s.phase.outcome(),
{
    match s.phase {
        Phase::InProgress(_) => {
            lemma_no_line_no_finding(s.grid, 0, 0);
        },
        Phase::Ended(GameOutcome::Draw) => {
            lemma_no_line_no_finding(s.grid, 0, 0);
        },
        Phase::Ended(GameOutcome::HumanWon) => {
            let (c, r) = choose|c: int, r: int| #[trigger] wins_at(s.grid, c, r);
            lemma_finding_is_the_owner(s.grid, Piece::Human, 0, 0, c, r);
        },
        Phase::Ended(GameOutcome::ComputerWon) => {
            let (c, r) = choose|c: int, r: int| #[trigger] wins_at(s.grid, c, r);
            lemma_finding_is_the_owner(s.grid, Piece::Computer, 0, 0, c, r);
        },
    }
}

} // verus!
