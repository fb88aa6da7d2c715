//! From a pointer position to a column of the board.

use vstd::prelude::*;
use crate::error::MoveError;

verus! {

/// The width of a column, in pixels.
pub const CELL_PITCH: i64 = 80;

/// The distance, in pixels, from the centre of the board to its left edge: half
/// of seven columns.
pub const HALF_BOARD_WIDTH: i64 = 280;

/// The column under a pointer that stands `x` pixels to the right of the centre
/// of the board: columns are 80 pixels wide and the board's left edge lies 280
/// pixels left of the centre. `None` where the pointer is on none of the seven
/// columns.
pub open spec fn column_at(x: int) -> Option<int> {
    let column = (x + 280) / 80;
    if 0 <= column < 7 {
        Some(column)
    } else {
        None
    }
}

/// The column under a pointer that stands `x` pixels to the right of the centre
/// of the board. A position that lies on no column is rejected as an invalid
/// selection.
pub fn position_to_column(x: i64) -> (selected: Result<usize, MoveError>)
    ensures
        match selected {
            Ok(column) => column_at(x as int) == Some(column as int) && column < 7,
            Err(e) => e == MoveError::InvalidColumnSelection && column_at(x as int) is None,
        },
{
    if x < -HALF_BOARD_WIDTH || x >= HALF_BOARD_WIDTH {
        return Err(MoveError::InvalidColumnSelection);
    }
    let distance = x + HALF_BOARD_WIDTH;
    let column = distance / CELL_PITCH;
    Ok(column as usize)
}

} // verus!
