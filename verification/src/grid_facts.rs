//! Facts about grids: where a piece lands, what dropping one changes, and how
//! lines of four come about.

use vstd::prelude::*;
use crate::grid::{
    at, column_full, column_offset, drop_piece, empty_grid, has_line, in_bounds, is_landing_row,
    is_line, landing_row, matches_at, row_offset, top_row_full, well_formed, wins_at, Direction,
    Grid,
};
use crate::piece::Piece;

verus! {

/// A row that is empty above occupied rows is the one that `landing_row` names.
pub proof fn lemma_landing_row(g: Grid, column: int, row: int)
    requires
        is_landing_row(g, column, row),
    ensures
        landing_row(g, column) == row,
{
    if row > 0 {
        assert(at(g, column, 0) is Some);
    }
    if row > 1 {
        assert(at(g, column, 1) is Some);
    }
    if row > 2 {
        assert(at(g, column, 2) is Some);
    }
    if row > 3 {
        assert(at(g, column, 3) is Some);
    }
    if row > 4 {
        assert(at(g, column, 4) is Some);
    }
}

/// `landing_row` is 6 exactly on a full column, and names the landing row otherwise.
pub proof fn lemma_full_column(g: Grid, column: int)
    ensures
        column_full(g, column) <==> landing_row(g, column) == 6,
        !column_full(g, column) ==> is_landing_row(g, column, landing_row(g, column)),
{
    if column_full(g, column) {
        assert(at(g, column, 0) is Some);
        assert(at(g, column, 1) is Some);
        assert(at(g, column, 2) is Some);
        assert(at(g, column, 3) is Some);
        assert(at(g, column, 4) is Some);
        assert(at(g, column, 5) is Some);
    }
}

/// Dropping a piece into a grid that respects gravity gives one that does.
pub proof fn lemma_drop_keeps_gravity(g: Grid, column: int, piece: Piece)
    requires
        well_formed(g),
        0 <= column < 7,
    ensures
        well_formed(drop_piece(g, column, piece)),
{
    let row = landing_row(g, column);
    let next = drop_piece(g, column, piece);
    if row < 6 {
        lemma_full_column(g, column);
        assert forall|c: int, r: int|
            0 <= c < 7 && 1 <= r < 6 && (#[trigger] at(next, c, r)) is Some implies at(
            next,
            c,
            r - 1,
        ) is Some by {
            if c == column && r == row {
                assert(at(g, column, r - 1) is Some);
            } else {
                assert(at(g, c, r) is Some);
                assert(at(g, c, r - 1) is Some);
            }
        }
    }
}

/// The empty grid respects gravity, has no line of four and is not full.
pub proof fn lemma_empty_grid()
    ensures
        well_formed(empty_grid()),
        !has_line(empty_grid()),
        !top_row_full(empty_grid()),
        forall|column: int, row: int| !wins_at(empty_grid(), column, row),
{
    assert(at(empty_grid(), 0, 5) is None);
}

/// A piece dropped into a grid changes the cell it lands on and no other.
pub proof fn lemma_drop_changes_one_cell(g: Grid, column: int, piece: Piece, c: int, r: int)
    requires
        g.len() == 42,
        0 <= column < 7,
        landing_row(g, column) < 6,
        in_bounds(c, r),
    ensures
        at(drop_piece(g, column, piece), c, r) == if c == column && r == landing_row(g, column) {
            Some(piece)
        } else {
            at(g, c, r)
        },
{
}

/// Seen from any of its four cells, a line of four is a line of four.
pub proof fn lemma_line_seen_from_member(
    g: Grid,
    c: int,
    r: int,
    d: Direction,
    start: int,
    k: int,
)
    requires
        is_line(g, c, r, d, start),
        start <= k < start + 4,
    ensures
        is_line(g, c + column_offset(d, k), r + row_offset(d, k), d, start - k),
{
    let c2 = c + column_offset(d, k);
    let r2 = r + row_offset(d, k);
    assert(matches_at(g, c, r, d, k));
    assert(at(g, c2, r2) == at(g, c, r));
    assert forall|j: int| 0 <= j < 4 implies #[trigger] matches_at(g, c2, r2, d, start - k + j) by {
        assert(matches_at(g, c, r, d, start + j));
        assert(c2 + column_offset(d, start - k + j) == c + column_offset(d, start + j));
        assert(r2 + row_offset(d, start - k + j) == r + row_offset(d, start + j));
    }
    assert(matches_at(g, c2, r2, d, start - k + 0));
    assert(matches_at(g, c2, r2, d, start - k + 1));
    assert(matches_at(g, c2, r2, d, start - k + 2));
    assert(matches_at(g, c2, r2, d, start - k + 3));
}

/// A line of four whose cells are the same on another grid is a line there too.
pub proof fn lemma_line_on_equal_cells(
    g: Grid,
    other: Grid,
    c: int,
    r: int,
    d: Direction,
    start: int,
)
    requires
        -3 <= start <= 0,
        is_line(g, c, r, d, start),
        forall|j: int|
            0 <= j < 4 ==> at(g, c + column_offset(d, start + j), r + row_offset(d, start + j))
                == at(
                other,
                c + #[trigger] column_offset(d, start + j),
                r + row_offset(d, start + j),
            ),
    ensures
        is_line(other, c, r, d, start),
{
    assert(at(g, c, r) == at(other, c, r)) by {
        let j = 0 - start;
        assert(at(g, c + column_offset(d, start + j), r + row_offset(d, start + j)) == at(
            other,
            c + column_offset(d, start + j),
            r + row_offset(d, start + j),
        ));
    }
    assert forall|j: int| 0 <= j < 4 implies #[trigger] matches_at(other, c, r, d, start + j) by {
        assert(matches_at(g, c, r, d, start + j));
        assert(at(g, c + column_offset(d, start + j), r + row_offset(d, start + j)) == at(
            other,
            c + column_offset(d, start + j),
            r + row_offset(d, start + j),
        ));
    }
    assert(matches_at(other, c, r, d, start + 0));
    assert(matches_at(other, c, r, d, start + 1));
    assert(matches_at(other, c, r, d, start + 2));
    assert(matches_at(other, c, r, d, start + 3));
}

/// The cell `k` steps from `(c, r)` in direction `d` is `(column, row)`.
pub open spec fn reaches(c: int, r: int, d: Direction, k: int, column: int, row: int) -> bool {
    c + column_offset(d, k) == column && r + row_offset(d, k) == row
}

/// A line of four on the grid after a piece was dropped either was there before
/// or runs through the new piece.
pub proof fn lemma_new_lines_pass_through_new_piece(
    g: Grid,
    column: int,
    piece: Piece,
    c: int,
    r: int,
)
    requires
        g.len() == 42,
        0 <= column < 7,
        landing_row(g, column) < 6,
        wins_at(drop_piece(g, column, piece), c, r),
    ensures
        wins_at(g, c, r) || (wins_at(drop_piece(g, column, piece), column, landing_row(g, column))
            && at(drop_piece(g, column, piece), c, r) == Some(piece)),
{
    let row = landing_row(g, column);
    let next = drop_piece(g, column, piece);
    let (d, start) = choose|d: Direction, start: int|
        -3 <= start <= 0 && #[trigger] is_line(next, c, r, d, start);
    lemma_drop_changes_one_cell(g, column, piece, column, row);
    if exists|k: int| start <= k < start + 4 && #[trigger] reaches(c, r, d, k, column, row) {
        let k = choose|k: int|
            start <= k < start + 4 && #[trigger] reaches(c, r, d, k, column, row);
        lemma_line_seen_from_member(next, c, r, d, start, k);
        assert(matches_at(next, c, r, d, k));
    } else {
        assert forall|j: int| 0 <= j < 4 implies at(
            next,
            c + column_offset(d, start + j),
            r + row_offset(d, start + j),
        ) == at(g, c + #[trigger] column_offset(d, start + j), r + row_offset(d, start + j)) by {
            assert(matches_at(next, c, r, d, start + j));
            assert(!reaches(c, r, d, start + j, column, row));
            lemma_drop_changes_one_cell(
                g,
                column,
                piece,
                c + column_offset(d, start + j),
                r + row_offset(d, start + j),
            );
        }
        lemma_line_on_equal_cells(next, g, c, r, d, start);
    }
}

} // verus!
