//! Detection of a line of four through the cell that was just played.

use vstd::prelude::*;
use crate::board::Board;
use crate::grid::{
    at, column_offset, in_bounds, is_line, matches_at, row_offset, wins_at, Direction, Grid,
};
use crate::piece::Piece;

verus! {

/// The count that a scan along direction `d` holds when it reaches step `i`,
/// having started at step -3 with 0: a cell off the board leaves it as it is, a
/// cell that matches `(column, row)` adds one, any other cell sets it back to 0.
spec fn run_before(g: Grid, column: int, row: int, d: Direction, i: int) -> int
    decreases i + 3,
{
    if i <= -3 {
        0
    } else {
        let c = column + column_offset(d, i - 1);
        let r = row + row_offset(d, i - 1);
        if !in_bounds(c, r) {
            run_before(g, column, row, d, i - 1)
        } else if at(g, c, r) == at(g, column, row) {
            run_before(g, column, row, d, i - 1) + 1
        } else {
            0
        }
    }
}

/// Some window of four cells along `d` that contains `(column, row)` holds the
/// same as that cell throughout.
pub open spec fn line_along(g: Grid, column: int, row: int, d: Direction) -> bool {
    exists|start: int| -3 <= start <= 0 && #[trigger] is_line(g, column, row, d, start)
}

/// The column `k` steps away in direction `d`.
fn column_step(d: Direction, k: i8) -> (c: i8)
    requires
        -3 <= k <= 3,
    ensures
        c == column_offset(d, k as int),
{
    match d {
        Direction::Vertical => 0,
        _ => k,
    }
}

/// The row `k` steps away in direction `d`.
fn row_step(d: Direction, k: i8) -> (r: i8)
    requires
        -3 <= k <= 3,
    ensures
        r == row_offset(d, k as int),
{
    match d {
        Direction::Horizontal => 0,
        Direction::AntiDiagonal => -k,
        _ => k,
    }
}

proof fn lemma_run_nonnegative(g: Grid, column: int, row: int, d: Direction, i: int)
    ensures
        0 <= run_before(g, column, row, d, i),
    decreases i + 3,
{
    if i > -3 {
        lemma_run_nonnegative(g, column, row, d, i - 1);
    }
}

/// A window of four matching cells drives the count to four by its last cell.
proof fn lemma_line_is_counted(g: Grid, column: int, row: int, d: Direction, start: int)
    requires
        -3 <= start <= 0,
        is_line(g, column, row, d, start),
    ensures
        run_before(g, column, row, d, start + 4) >= 4,
{
    let run = |i: int| run_before(g, column, row, d, i);
    lemma_run_nonnegative(g, column, row, d, start);
    assert(matches_at(g, column, row, d, start));
    assert(run(start + 1) == run(start) + 1);
    assert(matches_at(g, column, row, d, start + 1));
    assert(run(start + 2) == run(start + 1) + 1);
    assert(matches_at(g, column, row, d, start + 2));
    assert(run(start + 3) == run(start + 2) + 1);
    assert(matches_at(g, column, row, d, start + 3));
    assert(run(start + 4) == run(start + 3) + 1);
}

/// The cells of a line that are on the board have no gap: between two steps that
/// stay on the board, every step does.
proof fn lemma_no_gap(column: int, row: int, d: Direction, low: int, mid: int, high: int)
    requires
        low <= mid <= high,
        in_bounds(column + column_offset(d, low), row + row_offset(d, low)),
        in_bounds(column + column_offset(d, high), row + row_offset(d, high)),
    ensures
        in_bounds(column + column_offset(d, mid), row + row_offset(d, mid)),
{
}

/// A positive count at step `i` has `run_before` matching cells right below step
/// `end`, where `end` is the last step on the board below `i`.
proof fn lemma_run_is_contiguous(g: Grid, column: int, row: int, d: Direction, i: int) -> (end: int)
    requires
        -3 <= i <= 4,
        run_before(g, column, row, d, i) > 0,
    ensures
        -3 < end <= i,
        end - run_before(g, column, row, d, i) >= -3,
        forall|k: int|
            end - run_before(g, column, row, d, i) <= k < end ==> #[trigger] matches_at(
                g,
                column,
                row,
                d,
                k,
            ),
        forall|k: int|
            end <= k < i ==> !in_bounds(
                column + #[trigger] column_offset(d, k),
                row + row_offset(d, k),
            ),
    decreases i + 3,
{
    let c = column + column_offset(d, i - 1);
    let r = row + row_offset(d, i - 1);
    if !in_bounds(c, r) {
        let end = lemma_run_is_contiguous(g, column, row, d, i - 1);
        end
    } else {
        let before = run_before(g, column, row, d, i - 1);
        lemma_run_nonnegative(g, column, row, d, i - 1);
        assert(matches_at(g, column, row, d, i - 1));
        if before > 0 {
            let end = lemma_run_is_contiguous(g, column, row, d, i - 1);
            assert(matches_at(g, column, row, d, end - 1));
            if end < i - 1 {
                lemma_no_gap(column, row, d, end - 1, end, i - 1);
                assert(!in_bounds(column + column_offset(d, end), row + row_offset(d, end)));
            }
        }
        i
    }
}

/// A count of four is a window of four matching cells that contains the cell
/// the scan started from.
proof fn lemma_count_is_line(g: Grid, column: int, row: int, d: Direction, i: int)
    requires
        -3 <= i <= 4,
        run_before(g, column, row, d, i) >= 4,
    ensures
        line_along(g, column, row, d),
{
    let end = lemma_run_is_contiguous(g, column, row, d, i);
    let start = end - 4;
    assert(matches_at(g, column, row, d, start));
    assert(matches_at(g, column, row, d, start + 1));
    assert(matches_at(g, column, row, d, start + 2));
    assert(matches_at(g, column, row, d, start + 3));
    assert(is_line(g, column, row, d, start));
}

impl Board {
    /// Whether the occupied cell `(column, row)` lies on a line of four along `d`.
    fn has_line_along(&self, column: usize, row: usize, piece: Piece, d: Direction) -> (found: bool)
        requires
            column < 7,
            row < 6,
            at(self@, column as int, row as int) == Some(piece),
        ensures
            found == line_along(self@, column as int, row as int, d),
    {
        let mut line_length: u8 = 0;
        let mut i: i8 = -3;
        while i <= 3
            invariant
                column < 7,
                row < 6,
                at(self@, column as int, row as int) == Some(piece),
                -3 <= i <= 4,
                line_length == run_before(self@, column as int, row as int, d, i as int),
                forall|k: int|
                    -3 <= k <= i ==> #[trigger] run_before(self@, column as int, row as int, d, k)
                        < 4,
            decreases 4 - i,
        {
            let c = column as i8 + column_step(d, i);
            let r = row as i8 + row_step(d, i);
            if 0 <= c && c < 7 && 0 <= r && r < 6 {
                let matches = match self.cell(c as usize, r as usize) {
                    Some(p) => p == piece,
                    None => false,
                };
                if matches {
                    line_length += 1;
                    if line_length == 4 {
                        proof {
                            lemma_count_is_line(self@, column as int, row as int, d, i + 1);
                        }
                        return true;
                    }
                } else {
                    line_length = 0;
                }
            }
            i += 1;
        }
        proof {
            assert forall|start: int| -3 <= start <= 0 implies !#[trigger] is_line(
                self@,
                column as int,
                row as int,
                d,
                start,
            ) by {
                if is_line(self@, column as int, row as int, d, start) {
                    lemma_line_is_counted(self@, column as int, row as int, d, start);
                }
            }
        }
        false
    }

    /// Whether the piece at `(column, row)` is part of a line of four pieces of
    /// the same player, in a column, a row or one of the two diagonals. An empty
    /// cell, or a position off the board, is part of none.
    pub fn is_winning_move(&self, column: usize, row: usize) -> (won: bool)
        ensures
            won == wins_at(self@, column as int, row as int),
    {
        if column >= 7 || row >= 6 {
            return false;
        }
        let piece = match self.cell(column, row) {
            Some(p) => p,
            None => {
                return false;
            },
        };
        let directions = [
            Direction::Vertical,
            Direction::Diagonal,
            Direction::Horizontal,
            Direction::AntiDiagonal,
        ];
        let mut n: usize = 0;
        while n < 4
            invariant
                column < 7,
                row < 6,
                at(self@, column as int, row as int) == Some(piece),
                n <= 4,
                directions@ == seq![
                    Direction::Vertical,
                    Direction::Diagonal,
                    Direction::Horizontal,
                    Direction::AntiDiagonal,
                ],
                forall|k: int|
                    0 <= k < n ==> !line_along(
                        self@,
                        column as int,
                        row as int,
                        #[trigger] directions@[k],
                    ),
            decreases 4 - n,
        {
            if self.has_line_along(column, row, piece, directions[n]) {
                return true;
            }
            n += 1;
        }
        proof {
            assert forall|d: Direction| !line_along(self@, column as int, row as int, d) by {
                match d {
                    Direction::Vertical => assert(directions@[0] == d),
                    Direction::Diagonal => assert(directions@[1] == d),
                    Direction::Horizontal => assert(directions@[2] == d),
                    Direction::AntiDiagonal => assert(directions@[3] == d),
                }
            }
        }
        false
    }
}

} // verus!
