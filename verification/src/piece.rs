//! The two players' tokens.

use vstd::prelude::*;

verus! {

/// The token of one of the two players.
#[derive(Clone, Copy, Debug, PartialEq, Eq, Hash, Structural)]
pub enum Piece {
    Human,
    Computer,
}

/// What a position of the board holds: nothing, or one player's piece.
pub type Cell = Option<Piece>;

impl Piece {
    /// The opponent's piece.
    pub open spec fn opponent(self) -> Piece {
        match self {
            Piece::Human => Piece::Computer,
            Piece::Computer => Piece::Human,
        }
    }

    /// The opponent's piece.
    pub fn other(self) -> (r: Piece)
        ensures
            r == self.opponent(),
    {
        match self {
            Piece::Human => Piece::Computer,
            Piece::Computer => Piece::Human,
        }
    }
}

} // verus!
