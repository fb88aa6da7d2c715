//! The source of chance for the computer's moves.

use vstd::prelude::*;

verus! {

/// How many of the columns below `n` are not yet rejected.
pub open spec fn candidates_below(rejected: Seq<bool>, n: int) -> int
    decreases n,
{
    if n <= 0 {
        0
    } else {
        candidates_below(rejected, n - 1) + if rejected[n - 1] {
            0int
        } else {
            1int
        }
    }
}

/// A number below `bound`, drawn by `fastrand::u8` from the range `0..bound` with
/// the generator of the calling thread. `fastrand::u8` panics on an empty range,
/// so `bound` must be positive; of the number nothing is known but that it lies
/// in the range.
#[verifier::external_body]
pub(crate) fn random_below(bound: u8) -> (n: u8)
    requires
        bound > 0,
    ensures
        n < bound,
{
    fastrand::u8(0..bound)
}

/// Rejecting a candidate leaves one candidate fewer.
pub proof fn lemma_reject_one(rejected: Seq<bool>, column: int, n: int)
    requires
        0 <= column < rejected.len(),
        0 <= n <= rejected.len(),
        !rejected[column],
    ensures
        candidates_below(rejected.update(column, true), n) == if column < n {
            candidates_below(rejected, n) - 1
        } else {
            candidates_below(rejected, n)
        },
    decreases n,
{
    if n > 0 {
        lemma_reject_one(rejected, column, n - 1);
    }
}

/// The column that a draw of `k` selects: the one with exactly `k` candidates to
/// its left, among the columns that are not rejected.
pub fn pick_column(rejected: &[bool; 7], k: u8) -> (column: usize)
    requires
        k < candidates_below(rejected@, 7),
    ensures
        column < 7,
        !rejected@[column as int],
        candidates_below(rejected@, column as int) == k,
{
    let mut column: usize = 0;
    let mut seen: u8 = 0;
    while rejected[column] || seen < k
        invariant
            column < 7,
            seen == candidates_below(rejected@, column as int),
            seen <= k,
            k < candidates_below(rejected@, 7),
        decreases 7 - column,
    {
        if !rejected[column] {
            seen += 1;
        }
        column += 1;
        assert(column < 7) by {
            if column == 7 {
                assert(candidates_below(rejected@, 7) == seen);
            }
        }
    }
    column
}

} // verus!
