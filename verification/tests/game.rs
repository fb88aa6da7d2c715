use fourline::error::MoveError;
use fourline::game::{GameController, GameOutcome, MoveEffect, Phase};
use fourline::piece::Piece;
use fourline::verdict::is_game_over;

const DRAWN_GAME: [usize; 42] = [
    5, 3, 2, 3, 1, 5, 3, 1, 0, 1, 4, 1, 2, 5, 0, 5, 6, 6, 2, 0, 6, 0, 4, 2, 3, 0, 3, 4, 2, 3, 2, 6,
    1, 1, 5, 4, 6, 6, 0, 4, 4, 5,
];

const DIAGONAL_GAME: [usize; 11] = [0, 1, 1, 2, 3, 2, 2, 3, 4, 3, 3];

#[test]
fn new_game_waits_for_the_first_mover() {
    let game = GameController::new(Piece::Human);
    assert_eq!(game.turn(), Some(Piece::Human));
    assert_eq!(game.outcome(), None);
    assert_eq!(game.phase(), Phase::InProgress(Piece::Human));
    assert!(!game.board().is_board_full());
    let game = GameController::new(Piece::Computer);
    assert_eq!(game.turn(), Some(Piece::Computer));
    assert_eq!(game.phase(), Phase::InProgress(Piece::Computer));
}

#[test]
fn accepted_move_reports_the_cell_and_passes_the_turn() {
    let mut game = GameController::new(Piece::Human);
    assert_eq!(
        game.apply_move(3),
        Ok(MoveEffect {
            column: 3,
            row: 0,
            piece: Piece::Human,
            phase: Phase::InProgress(Piece::Computer),
        })
    );
    assert_eq!(game.turn(), Some(Piece::Computer));
    assert_eq!(game.board().cell(3, 0), Some(Piece::Human));
    assert_eq!(
        game.apply_move(3),
        Ok(MoveEffect {
            column: 3,
            row: 1,
            piece: Piece::Computer,
            phase: Phase::InProgress(Piece::Human),
        })
    );
    assert_eq!(game.turn(), Some(Piece::Human));
    assert_eq!(game.board().cell(3, 1), Some(Piece::Computer));
    assert_eq!(game.outcome(), None);
}

#[test]
fn column_off_the_board_is_an_invalid_selection() {
    let mut game = GameController::new(Piece::Human);
    let before = game;
    assert_eq!(game.apply_move(7), Err(MoveError::InvalidColumnSelection));
    assert_eq!(game.apply_move(usize::MAX), Err(MoveError::InvalidColumnSelection));
    assert_eq!(game, before);
}

#[test]
fn move_into_a_full_column_is_invalid_and_keeps_the_turn() {
    let mut game = GameController::new(Piece::Human);
    for _ in 0..6usize {
        game.apply_move(2).unwrap();
    }
    assert_eq!(game.turn(), Some(Piece::Human));
    let before = game;
    assert_eq!(game.apply_move(2), Err(MoveError::InvalidMove));
    assert_eq!(game, before);
    assert_eq!(game.turn(), Some(Piece::Human));
}

#[test]
fn four_on_a_diagonal_win_and_end_the_game() {
    let mut game = GameController::new(Piece::Human);
    for (n, column) in DIAGONAL_GAME.iter().enumerate() {
        assert_eq!(game.outcome(), None);
        let mover = if n % 2 == 0 { Piece::Human } else { Piece::Computer };
        assert_eq!(game.turn(), Some(mover));
        let effect = game.apply_move(*column).unwrap();
        assert_eq!(effect.piece, mover);
        assert_eq!(effect.column, *column);
        if n + 1 < DIAGONAL_GAME.len() {
            assert_eq!(effect.phase, Phase::InProgress(mover.other()));
        } else {
            assert_eq!(effect.row, 3);
            assert_eq!(effect.phase, Phase::Ended(GameOutcome::HumanWon));
        }
    }
    assert_eq!(game.phase(), Phase::Ended(GameOutcome::HumanWon));
    assert_eq!(game.outcome(), Some(GameOutcome::HumanWon));
    assert_eq!(game.turn(), None);
    for (column, row) in [(0usize, 0usize), (1, 1), (2, 2), (3, 3)] {
        assert_eq!(game.board().cell(column, row), Some(Piece::Human));
    }
}

#[test]
fn move_after_the_end_is_refused_and_changes_nothing() {
    let mut game = GameController::new(Piece::Human);
    for column in DIAGONAL_GAME {
        game.apply_move(column).unwrap();
    }
    let before = game;
    for column in 0..7usize {
        assert_eq!(game.apply_move(column), Err(MoveError::InvalidMove));
        assert_eq!(game, before);
    }
    assert_eq!(game.apply_move(9), Err(MoveError::InvalidColumnSelection));
    assert_eq!(game, before);
    assert_eq!(game.outcome(), Some(GameOutcome::HumanWon));
}

#[test]
fn computer_wins_with_a_column() {
    let mut game = GameController::new(Piece::Human);
    for column in [0usize, 6, 1, 6, 0, 6, 1] {
        assert!(matches!(game.apply_move(column).unwrap().phase, Phase::InProgress(_)));
    }
    assert_eq!(
        game.apply_move(6),
        Ok(MoveEffect {
            column: 6,
            row: 3,
            piece: Piece::Computer,
            phase: Phase::Ended(GameOutcome::ComputerWon),
        })
    );
    assert_eq!(game.outcome(), Some(GameOutcome::ComputerWon));
    assert_eq!(game.turn(), None);
}

#[test]
fn full_board_without_a_line_is_a_draw() {
    let mut game = GameController::new(Piece::Human);
    for (n, column) in DRAWN_GAME.iter().enumerate() {
        assert_eq!(game.outcome(), None);
        let effect = game.apply_move(*column).unwrap();
        if n + 1 < DRAWN_GAME.len() {
            assert!(matches!(effect.phase, Phase::InProgress(_)));
        } else {
            assert_eq!(effect.phase, Phase::Ended(GameOutcome::Draw));
        }
    }
    assert_eq!(game.phase(), Phase::Ended(GameOutcome::Draw));
    assert_eq!(game.outcome(), Some(GameOutcome::Draw));
    assert_eq!(game.turn(), None);
    assert!(game.board().is_board_full());
    for column in 0..7usize {
        assert_eq!(game.board().lowest_vacant_row(column), None);
        for row in 0..6usize {
            assert!(!game.board().is_winning_move(column, row));
        }
        assert_eq!(game.apply_move(column), Err(MoveError::InvalidMove));
    }
}

#[test]
fn last_move_of_a_drawn_game_ends_it() {
    let mut game = GameController::new(Piece::Human);
    let mut columns = DRAWN_GAME.to_vec();
    columns.truncate(41);
    for column in columns {
        game.apply_move(column).unwrap();
    }
    assert_eq!(game.turn(), Some(Piece::Computer));
    let effect = game.apply_move(5).unwrap();
    assert_eq!(effect.phase, Phase::Ended(GameOutcome::Draw));
    assert_eq!(is_game_over(game.board()), Some(GameOutcome::Draw));
}

#[test]
fn board_alone_tells_how_the_game_stands() {
    let mut game = GameController::new(Piece::Human);
    assert_eq!(is_game_over(game.board()), None);
    for column in DIAGONAL_GAME {
        assert_eq!(is_game_over(game.board()), game.outcome());
        game.apply_move(column).unwrap();
    }
    assert_eq!(is_game_over(game.board()), Some(GameOutcome::HumanWon));

    let mut game = GameController::new(Piece::Human);
    for column in DRAWN_GAME {
        assert_eq!(is_game_over(game.board()), game.outcome());
        game.apply_move(column).unwrap();
    }
    assert_eq!(is_game_over(game.board()), Some(GameOutcome::Draw));
}

#[test]
fn outcome_messages() {
    assert_eq!(GameOutcome::HumanWon.message(), "Player A wins");
    assert_eq!(GameOutcome::ComputerWon.message(), "Player B wins");
    assert_eq!(GameOutcome::Draw.message(), "Game drawn");
}

#[test]
fn winner_names_its_outcome() {
    assert_eq!(GameOutcome::win_of(Piece::Human), GameOutcome::HumanWon);
    assert_eq!(GameOutcome::win_of(Piece::Computer), GameOutcome::ComputerWon);
}
