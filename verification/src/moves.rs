//! Where moves come from: the human's pointer and the computer's dice.

use vstd::prelude::*;
use crate::error::MoveError;
use crate::game::{effect_of, refusal, step, GameController, MoveEffect, Phase};
use crate::grid::{at, column_full, top_row_full};
use crate::grid_facts::lemma_full_column;
use crate::input::{column_at, position_to_column};
use crate::piece::Piece;
use crate::random::{candidates_below, lemma_reject_one, pick_column, random_below};

verus! {

impl GameController {
    /// Makes the move of the player whose turn it is into the column under the
    /// pointer, which stands `x` pixels to the right of the centre of the board.
    /// A pointer off the board is an invalid selection and changes nothing;
    /// otherwise this is `apply_move` on the column.
    pub fn human_move(&mut self, x: i64) -> (moved: Result<MoveEffect, MoveError>)
        requires
            old(self).wf(),
        ensures
            final(self).wf(),
            match column_at(x as int) {
                Some(column) => {
                    &&& final(self)@ == step(old(self)@, column)
                    &&& match moved {
                        Ok(effect) => refusal(old(self)@, column) is None && effect == effect_of(
                            old(self)@,
                            column,
                        ),
                        Err(e) => refusal(old(self)@, column) == Some(e),
                    }
                },
                None => moved == Err::<MoveEffect, MoveError>(MoveError::InvalidColumnSelection)
                    && final(self)@ == old(self)@,
            },
    {
        match position_to_column(x) {
            Ok(column) => self.apply_move(column),
            Err(e) => Err(e),
        }
    }

    /// Makes the move of the player whose turn it is into a column chosen at
    /// random.
    ///
    /// A column is drawn uniformly among the seven; if it turns out to be full,
    /// another is drawn among those not yet found full, until a move is accepted.
    /// While a game is in progress some column has room, so a move is always made;
    /// which one is up to chance. Once the game is over nothing is drawn and the
    /// move is refused.
    pub fn computer_move(&mut self) -> (moved: Result<MoveEffect, MoveError>)
        requires
            old(self).wf(),
        ensures
            final(self).wf(),
            match moved {
                Ok(effect) => {
                    &&& old(self)@.phase is InProgress
                    &&& effect.column < 7
                    &&& refusal(old(self)@, effect.column as int) is None
                    &&& effect == effect_of(old(self)@, effect.column as int)
                    &&& final(self)@ == step(old(self)@, effect.column as int)
                },
                Err(e) => {
                    &&& e == MoveError::InvalidMove
                    &&& old(self)@.phase is Ended
                    &&& final(self)@ == old(self)@
                },
            },
    {
        if let Phase::Ended(_) = self.phase() {
            return Err(MoveError::InvalidMove);
        }
        let mut rejected = [false; 7];
        let mut candidates: u8 = 7;
        proof {
            reveal_with_fuel(candidates_below, 8);
        }
        while candidates > 0
            invariant
                self.wf(),
                self@ == old(self)@,
                self@.phase is InProgress,
                candidates == candidates_below(rejected@, 7),
                forall|c: int| 0 <= c < 7 && #[trigger] rejected@[c] ==> column_full(self@.grid, c),
            decreases candidates,
        {
            let k = random_below(candidates);
            let column = pick_column(&rejected, k);
            match self.apply_move(column) {
                Ok(effect) => {
                    return Ok(effect);
                },
                Err(_) => {
                    proof {
                        lemma_reject_one(rejected@, column as int, 7);
                        lemma_full_column(self@.grid, column as int);
                    }
                    rejected[column] = true;
                    candidates -= 1;
                },
            }
        }
        proof {
            assert forall|c: int| 0 <= c < 7 implies (#[trigger] at(self@.grid, c, 5)) is Some by {
                reveal_with_fuel(candidates_below, 8);
                assert(rejected@[c]);
                assert(column_full(self@.grid, c));
            }
            assert(top_row_full(self@.grid));
        }
        Err(MoveError::InvalidMove)
    }

    /// One turn of the game. When it is the human's turn, a click, if there was
    /// one, is tried as a move; when it is the computer's turn, the computer
    /// moves. Returns the move that was made, if any.
    pub fn game_loop(&mut self, click: Option<i64>) -> (made: Option<MoveEffect>)
        requires
            old(self).wf(),
        ensures
            final(self).wf(),
            match old(self)@.phase {
                Phase::Ended(_) => made is None && final(self)@ == old(self)@,
                Phase::InProgress(Piece::Human) => match click {
                    Some(x) => match column_at(x as int) {
                        Some(column) => {
                            &&& final(self)@ == step(old(self)@, column)
                            &&& made == if refusal(old(self)@, column) is None {
                                Some(effect_of(old(self)@, column))
                            } else {
                                None
                            }
                        },
                        None => made is None && final(self)@ == old(self)@,
                    },
                    None => made is None && final(self)@ == old(self)@,
                },
                Phase::InProgress(Piece::Computer) => {
                    &&& made matches Some(effect)
                    &&& effect.column < 7
                    &&& refusal(old(self)@, effect.column as int) is None
                    &&& effect == effect_of(old(self)@, effect.column as int)
                    &&& final(self)@ == step(old(self)@, effect.column as int)
                },
            },
    {
        let moved = match self.phase() {
            Phase::InProgress(Piece::Human) => match click {
                Some(x) => self.human_move(x),
                None => {
                    return None;
                },
            },
            Phase::InProgress(Piece::Computer) => self.computer_move(),
            Phase::Ended(_) => {
                return None;
            },
        };
        match moved {
            Ok(effect) => Some(effect),
            Err(_) => None,
        }
    }
}

} // verus!
