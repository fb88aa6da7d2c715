//! What holds of every board and of every game.

use vstd::prelude::*;
use crate::game::{
    coherent, lemma_step_keeps_coherence, refusal, step, GameOutcome, GameState, Phase,
};
use crate::grid::{
    all_occupied, at, column_full, column_offset, drop_piece, empty_grid, has_line, in_bounds,
    is_line, landing_row, matches_at, row_offset, top_row_full, well_formed, wins_at, Direction,
    Grid,
};
use crate::grid_facts::{
    lemma_drop_changes_one_cell, lemma_drop_keeps_gravity, lemma_empty_grid, lemma_full_column,
    lemma_line_seen_from_member,
};
use crate::piece::Piece;

verus! {

/// The grid after the pieces of `pieces` were dropped into `column` one after
/// the other.
pub open spec fn stack(g: Grid, column: int, pieces: Seq<Piece>) -> Grid
    decreases pieces.len(),
{
    if pieces.len() == 0 {
        g
    } else {
        drop_piece(stack(g, column, pieces.drop_last()), column, pieces.last())
    }
}

/// The state of a game that `first_mover` is about to open.
pub open spec fn opening(first_mover: Piece) -> GameState {
    GameState { grid: empty_grid(), phase: Phase::InProgress(first_mover) }
}

/// The state after the moves of `columns` were asked for one after the other.
pub open spec fn play(s: GameState, columns: Seq<int>) -> GameState
    decreases columns.len(),
{
    if columns.len() == 0 {
        s
    } else {
        step(play(s, columns.drop_last()), columns.last())
    }
}

/// Pieces dropped into one column of an empty board pile up from row 0: after
/// `n` pieces, up to six, rows 0 to `n - 1` of the column hold them in the order
/// in which they came, the next piece would land on row `n`, and after six the
/// column is full and takes no more.
pub proof fn lemma_column_fills_from_the_bottom(column: int, pieces: Seq<Piece>)
    requires
        0 <= column < 7,
    ensures
        ({
            let g = stack(empty_grid(), column, pieces);
            &&& well_formed(g)
            &&& landing_row(g, column) == if pieces.len() < 6 {
                pieces.len() as int
            } else {
                6
            }
            &&& pieces.len() >= 6 <==> column_full(g, column)
            &&& forall|row: int|
                0 <= row < 6 ==> #[trigger] at(g, column, row) == if row < pieces.len() {
                    Some(pieces[row])
                } else {
                    None
                }
        }),
    decreases pieces.len(),
{
    let g = stack(empty_grid(), column, pieces);
    if pieces.len() == 0 {
        lemma_empty_grid();
    } else {
        let before = stack(empty_grid(), column, pieces.drop_last());
        lemma_column_fills_from_the_bottom(column, pieces.drop_last());
        lemma_drop_keeps_gravity(before, column, pieces.last());
        if landing_row(before, column) < 6 {
            assert forall|row: int| 0 <= row < 6 implies #[trigger] at(g, column, row) == if row
                < pieces.len() {
                Some(pieces[row])
            } else {
                None
            } by {
                lemma_drop_changes_one_cell(before, column, pieces.last(), column, row);
                assert(at(before, column, row) == if row < pieces.len() - 1 {
                    Some(pieces.drop_last()[row])
                } else {
                    None
                });
            }
        } else {
            assert forall|row: int| 0 <= row < 6 implies #[trigger] at(g, column, row) == if row
                < pieces.len() {
                Some(pieces[row])
            } else {
                None
            } by {
                assert(at(before, column, row) == if row < pieces.len() - 1 {
                    Some(pieces.drop_last()[row])
                } else {
                    None
                });
            }
        }
        assert(at(g, column, 0) == if 0 < pieces.len() { Some(pieces[0]) } else { None });
        assert(at(g, column, 1) == if 1 < pieces.len() { Some(pieces[1]) } else { None });
        assert(at(g, column, 2) == if 2 < pieces.len() { Some(pieces[2]) } else { None });
        assert(at(g, column, 3) == if 3 < pieces.len() { Some(pieces[3]) } else { None });
        assert(at(g, column, 4) == if 4 < pieces.len() { Some(pieces[4]) } else { None });
        assert(at(g, column, 5) == if 5 < pieces.len() { Some(pieces[5]) } else { None });
    }
    lemma_full_column(g, column);
}

/// No cell of the empty board lies on a line of four.
pub proof fn lemma_no_win_on_empty_board(column: int, row: int)
    ensures
        !wins_at(empty_grid(), column, row),
{
    lemma_empty_grid();
}

/// A piece with no piece of its own kind next to it, in any of the eight
/// neighbouring cells, lies on no line of four.
pub proof fn lemma_isolated_piece_does_not_win(g: Grid, column: int, row: int)
    requires
        forall|d: Direction|
            !(#[trigger] matches_at(g, column, row, d, 1)) && !matches_at(g, column, row, d, -1),
    ensures
        !wins_at(g, column, row),
{
    assert forall|d: Direction, start: int| -3 <= start <= 0 implies !#[trigger] is_line(
        g,
        column,
        row,
        d,
        start,
    ) by {
        assert(!matches_at(g, column, row, d, 1));
        assert(!matches_at(g, column, row, d, -1));
    }
}

/// Four cells in a line that hold the same piece all lie on a line of four: each
/// of them is a winning cell.
pub proof fn lemma_every_cell_of_a_line_wins(
    g: Grid,
    column: int,
    row: int,
    d: Direction,
    k: int,
)
    requires
        at(g, column, row) is Some,
        is_line(g, column, row, d, 0),
        0 <= k < 4,
    ensures
        wins_at(g, column + column_offset(d, k), row + row_offset(d, k)),
{
    lemma_line_seen_from_member(g, column, row, d, 0, k);
    assert(matches_at(g, column, row, d, k));
    assert(is_line(g, column + column_offset(d, k), row + row_offset(d, k), d, 0 - k));
}

/// A line of four needs four cells that hold the same piece: where one of the
/// four cells of a window holds something else than `(column, row)`, that window
/// is no line through `(column, row)`.
pub proof fn lemma_broken_window_is_no_line(
    g: Grid,
    column: int,
    row: int,
    d: Direction,
    start: int,
    k: int,
)
    requires
        start <= k < start + 4,
        !matches_at(g, column, row, d, k),
    ensures
        !is_line(g, column, row, d, start),
{
}

/// The first piece on an empty board wins nothing, wherever it is dropped.
pub proof fn lemma_first_move_does_not_win(column: int, piece: Piece)
    requires
        0 <= column < 7,
    ensures
        landing_row(empty_grid(), column) == 0,
        !wins_at(drop_piece(empty_grid(), column, piece), column, 0),
        step(opening(piece), column).phase == Phase::InProgress(piece.opponent()),
{
    let g = drop_piece(empty_grid(), column, piece);
    assert(at(empty_grid(), column, 0) is None);
    assert forall|d: Direction|
        !(#[trigger] matches_at(g, column, 0, d, 1)) && !matches_at(g, column, 0, d, -1) by {
        lemma_drop_changes_one_cell(empty_grid(), column, piece, column, 0);
        if in_bounds(column + column_offset(d, 1), row_offset(d, 1)) {
            lemma_drop_changes_one_cell(
                empty_grid(),
                column,
                piece,
                column + column_offset(d, 1),
                row_offset(d, 1),
            );
        }
        if in_bounds(column + column_offset(d, -1), row_offset(d, -1)) {
            lemma_drop_changes_one_cell(
                empty_grid(),
                column,
                piece,
                column + column_offset(d, -1),
                row_offset(d, -1),
            );
        }
    }
    lemma_isolated_piece_does_not_win(g, column, 0);
    lemma_drop_changes_one_cell(empty_grid(), column, piece, 0, 5);
    assert(at(g, 0, 5) is None);
}

/// On a board that respects gravity, a full top row is a full board.
pub proof fn lemma_full_top_row_is_full_board(g: Grid)
    requires
        well_formed(g),
    ensures
        top_row_full(g) <==> all_occupied(g),
{
    if top_row_full(g) {
        assert forall|column: int, row: int| in_bounds(column, row) implies (#[trigger] at(
            g,
            column,
            row,
        )) is Some by {
            assert(at(g, column, 5) is Some);
            assert(at(g, column, 4) is Some);
            assert(at(g, column, 3) is Some);
            assert(at(g, column, 2) is Some);
            assert(at(g, column, 1) is Some);
            assert(at(g, column, 0) is Some);
        }
    }
    if all_occupied(g) {
        assert forall|column: int| 0 <= column < 7 implies (#[trigger] at(
            g,
            column,
            5,
        )) is Some by {
            assert(in_bounds(column, 5));
        }
    }
}

/// On a board that respects gravity, a column is full exactly when its top cell
/// is occupied.
pub proof fn lemma_full_column_has_top_piece(g: Grid, column: int)
    requires
        well_formed(g),
        0 <= column < 7,
    ensures
        column_full(g, column) <==> at(g, column, 5) is Some,
{
    if at(g, column, 5) is Some {
        assert(at(g, column, 4) is Some);
        assert(at(g, column, 3) is Some);
        assert(at(g, column, 2) is Some);
        assert(at(g, column, 1) is Some);
        assert(at(g, column, 0) is Some);
    }
}

/// A move never removes or replaces a piece: an occupied cell holds the same
/// piece after any move.
pub proof fn lemma_pieces_stay(s: GameState, column: int, c: int, r: int)
    requires
        s.grid.len() == 42,
        in_bounds(c, r),
        at(s.grid, c, r) is Some,
    ensures
        at(step(s, column).grid, c, r) == at(s.grid, c, r),
{
    if let Phase::InProgress(piece) = s.phase {
        if refusal(s, column) is None {
            lemma_full_column(s.grid, column);
            lemma_drop_changes_one_cell(s.grid, column, piece, c, r);
        }
    }
}

/// A game that is over stays as it is: every further move is refused, and the
/// board and the outcome do not change.
pub proof fn lemma_ended_game_stays(s: GameState, column: int)
    requires
        s.phase is Ended,
    ensures
        refusal(s, column) is Some,
        step(s, column) == s,
{
}

/// Once a game is over, no sequence of further moves changes it.
pub proof fn lemma_ended_game_stays_for_good(s: GameState, columns: Seq<int>)
    requires
        s.phase is Ended,
    ensures
        play(s, columns) == s,
    decreases columns.len(),
{
    if columns.len() > 0 {
        lemma_ended_game_stays_for_good(s, columns.drop_last());
    }
}

/// A game has an outcome exactly when nobody is to move.
pub proof fn lemma_outcome_iff_no_turn(phase: Phase)
    ensures
        phase.outcome() is Some <==> phase.turn() is None,
{
}

/// While a game is in progress some column has room: a move into it is accepted.
pub proof fn lemma_open_game_has_an_open_column(s: GameState) -> (column: int)
    requires
        well_formed(s.grid),
        coherent(s),
        s.phase is InProgress,
    ensures
        0 <= column < 7,
        refusal(s, column) is None,
{
    let column = choose|column: int|
        0 <= column < 7 && !((#[trigger] at(s.grid, column, 5)) is Some);
    lemma_full_column(s.grid, column);
    column
}

/// An accepted move either ends the game or passes the turn to the opponent; a
/// refused move changes nothing.
pub proof fn lemma_turns_alternate(s: GameState, column: int)
    requires
        s.phase is InProgress,
    ensures
        refusal(s, column) is Some ==> step(s, column) == s,
        refusal(s, column) is None ==> step(s, column).phase is Ended || step(s, column).phase
            == Phase::InProgress(s.phase->InProgress_0.opponent()),
{
}

/// Whatever moves are asked for, from the opening on, the grid respects gravity
/// and the phase agrees with it.
pub proof fn lemma_play_keeps_coherence(first_mover: Piece, columns: Seq<int>)
    ensures
        well_formed(play(opening(first_mover), columns).grid),
        coherent(play(opening(first_mover), columns)),
    decreases columns.len(),
{
    if columns.len() == 0 {
        lemma_empty_grid();
    } else {
        lemma_play_keeps_coherence(first_mover, columns.drop_last());
        lemma_step_keeps_coherence(play(opening(first_mover), columns.drop_last()), columns.last());
    }
}

/// A game whose moves have filled the board without a line of four anywhere is
/// drawn.
pub proof fn lemma_full_board_without_line_is_a_draw(first_mover: Piece, columns: Seq<int>)
    requires
        top_row_full(play(opening(first_mover), columns).grid),
        !has_line(play(opening(first_mover), columns).grid),
    ensures
        play(opening(first_mover), columns).phase == Phase::Ended(GameOutcome::Draw),
{
    lemma_play_keeps_coherence(first_mover, columns);
}

/// A game is won exactly when the board holds a line of four, and then every
/// line is the winner's; it is in progress exactly when the board has neither a
/// line nor a full top row.
pub proof fn lemma_phase_follows_the_board(first_mover: Piece, columns: Seq<int>)
    ensures
        ({
            let s = play(opening(first_mover), columns);
            &&& s.phase is InProgress <==> !has_line(s.grid) && !top_row_full(s.grid)
            &&& s.phase == Phase::Ended(GameOutcome::Draw) <==> !has_line(s.grid) && top_row_full(
                s.grid,
            )
            &&& (s.phase == Phase::Ended(GameOutcome::HumanWon) || s.phase == Phase::Ended(
                GameOutcome::ComputerWon,
            )) <==> has_line(s.grid)
        }),
{
    lemma_play_keeps_coherence(first_mover, columns);
}

} // verus!
