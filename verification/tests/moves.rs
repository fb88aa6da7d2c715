use fourline::error::MoveError;
use fourline::game::{GameController, GameOutcome, MoveEffect, Phase};
use fourline::input::position_to_column;
use fourline::piece::Piece;
use fourline::random::pick_column;
use fourline::verdict::is_game_over;

#[test]
fn pointer_positions_map_to_columns() {
    assert_eq!(position_to_column(-280), Ok(0));
    assert_eq!(position_to_column(-279), Ok(0));
    assert_eq!(position_to_column(-201), Ok(0));
    assert_eq!(position_to_column(-200), Ok(1));
    assert_eq!(position_to_column(-1), Ok(3));
    assert_eq!(position_to_column(0), Ok(3));
    assert_eq!(position_to_column(39), Ok(3));
    assert_eq!(position_to_column(40), Ok(4));
    assert_eq!(position_to_column(199), Ok(5));
    assert_eq!(position_to_column(200), Ok(6));
    assert_eq!(position_to_column(279), Ok(6));
}

#[test]
fn pointer_off_the_board_is_an_invalid_selection() {
    assert_eq!(position_to_column(-281), Err(MoveError::InvalidColumnSelection));
    assert_eq!(position_to_column(280), Err(MoveError::InvalidColumnSelection));
    assert_eq!(position_to_column(350), Err(MoveError::InvalidColumnSelection));
    assert_eq!(position_to_column(i64::MAX), Err(MoveError::InvalidColumnSelection));
    assert_eq!(position_to_column(i64::MIN), Err(MoveError::InvalidColumnSelection));
}

#[test]
fn click_on_a_column_is_a_move_there() {
    let mut game = GameController::new(Piece::Human);
    assert_eq!(
        game.human_move(-100),
        Ok(MoveEffect {
            column: 2,
            row: 0,
            piece: Piece::Human,
            phase: Phase::InProgress(Piece::Computer),
        })
    );
    assert_eq!(game.board().cell(2, 0), Some(Piece::Human));
}

#[test]
fn click_off_the_board_is_ignored() {
    let mut game = GameController::new(Piece::Human);
    let before = game;
    assert_eq!(game.human_move(300), Err(MoveError::InvalidColumnSelection));
    assert_eq!(game.human_move(-300), Err(MoveError::InvalidColumnSelection));
    assert_eq!(game, before);
}

#[test]
fn click_on_a_full_column_is_an_invalid_move() {
    let mut game = GameController::new(Piece::Human);
    for _ in 0..6usize {
        game.apply_move(3).unwrap();
    }
    let before = game;
    assert_eq!(game.human_move(0), Err(MoveError::InvalidMove));
    assert_eq!(game, before);
}

#[test]
fn draw_selects_among_the_columns_not_rejected() {
    let none = [false; 7];
    for k in 0..7u8 {
        assert_eq!(pick_column(&none, k), k as usize);
    }
    let some = [true, false, true, true, false, false, true];
    assert_eq!(pick_column(&some, 0), 1);
    assert_eq!(pick_column(&some, 1), 4);
    assert_eq!(pick_column(&some, 2), 5);
    let last = [true, true, true, true, true, true, false];
    assert_eq!(pick_column(&last, 0), 6);
}

#[test]
fn computer_move_fills_one_cell_of_some_column() {
    for _ in 0..200usize {
        let mut game = GameController::new(Piece::Computer);
        let effect = game.computer_move().unwrap();
        assert!(effect.column < 7);
        assert_eq!(effect.row, 0);
        assert_eq!(effect.piece, Piece::Computer);
        assert_eq!(effect.phase, Phase::InProgress(Piece::Human));
        assert_eq!(game.turn(), Some(Piece::Human));
        for column in 0..7usize {
            let expected = if column == effect.column { Some(Piece::Computer) } else { None };
            assert_eq!(game.board().cell(column, 0), expected);
        }
    }
}

#[test]
fn computer_move_reaches_every_column() {
    let mut seen = [false; 7];
    for _ in 0..2000usize {
        let mut game = GameController::new(Piece::Computer);
        seen[game.computer_move().unwrap().column] = true;
    }
    assert_eq!(seen, [true; 7]);
}

#[test]
fn computer_move_finds_the_only_open_column() {
    for _ in 0..50usize {
        let mut game = GameController::new(Piece::Human);
        // Fill every column but the last, two columns at a time so that no line forms.
        for column in [0usize, 1, 0, 1, 0, 1, 1, 0, 1, 0, 1, 0] {
            game.apply_move(column).unwrap();
        }
        for column in [2usize, 3, 2, 3, 2, 3, 3, 2, 3, 2, 3, 2] {
            game.apply_move(column).unwrap();
        }
        for column in [4usize, 5, 4, 5, 4, 5, 5, 4, 5, 4, 5, 4] {
            game.apply_move(column).unwrap();
        }
        assert_eq!(game.outcome(), None);
        let effect = game.computer_move().unwrap();
        assert_eq!(effect.column, 6);
        assert_eq!(effect.row, 0);
    }
}

#[test]
fn computer_move_after_the_end_is_refused() {
    let mut game = GameController::new(Piece::Human);
    for column in [0usize, 1, 0, 1, 0, 1, 0] {
        game.apply_move(column).unwrap();
    }
    assert_eq!(game.outcome(), Some(GameOutcome::HumanWon));
    let before = game;
    assert_eq!(game.computer_move(), Err(MoveError::InvalidMove));
    assert_eq!(game, before);
}

#[test]
fn turn_of_the_human_waits_for_a_click() {
    let mut game = GameController::new(Piece::Human);
    let before = game;
    assert_eq!(game.game_loop(None), None);
    assert_eq!(game, before);
    assert_eq!(game.game_loop(Some(1000)), None);
    assert_eq!(game, before);
    assert_eq!(
        game.game_loop(Some(250)),
        Some(MoveEffect {
            column: 6,
            row: 0,
            piece: Piece::Human,
            phase: Phase::InProgress(Piece::Computer),
        })
    );
}

#[test]
fn turn_of_the_computer_needs_no_click() {
    let mut game = GameController::new(Piece::Computer);
    let effect = game.game_loop(None).unwrap();
    assert_eq!(effect.piece, Piece::Computer);
    assert_eq!(game.turn(), Some(Piece::Human));
    let mut game = GameController::new(Piece::Computer);
    let effect = game.game_loop(Some(0)).unwrap();
    assert_eq!(effect.piece, Piece::Computer);
    assert_eq!(effect.row, 0);
}

#[test]
fn game_loop_plays_a_game_to_its_end() {
    for round in 0..100usize {
        let mut game = GameController::new(Piece::Human);
        let mut moves: usize = 0;
        let mut ticks: usize = 0;
        while game.outcome().is_none() {
            let x = ((round * 7 + ticks * 83) % 560) as i64 - 279;
            ticks += 1;
            assert!(ticks < 10_000);
            let turn = game.turn().unwrap();
            if let Some(effect) = game.game_loop(Some(x)) {
                moves += 1;
                assert_eq!(effect.piece, turn);
                assert_eq!(game.board().cell(effect.column, effect.row), Some(turn));
                assert_eq!(effect.phase, game.phase());
            } else {
                assert_eq!(turn, Piece::Human);
            }
            assert_eq!(is_game_over(game.board()), game.outcome());
        }
        assert!(moves >= 7 && moves <= 42);
        let before = game;
        assert_eq!(game.game_loop(Some(0)), None);
        assert_eq!(game, before);
    }
}
