//! The tally engine's read side: deriving the winning choice from a
//! proposal's counters.

use vstd::prelude::*;

use crate::model::{win_idx, win_idx_upto, win_power};

verus! {

/// Scans the counters left to right and returns the first index attaining
/// the maximum, together with that maximum. Only a strictly greater value
/// displaces the holder, so the lowest index among ties wins; an all-zero
/// tally yields index zero with power zero.
pub fn winner(counters: &Vec<u128>) -> (r: (u8, u128))
    requires
        1 <= counters@.len() <= u8::MAX as int,
    ensures
        r.0 as int == win_idx(counters@),
        r.1 == win_power(counters@),
{
    let n = counters.len();
    let mut win_i: usize = 0;
    let mut win_c: u128 = 0;
    let mut idx: usize = 0;
    while idx < n
        invariant
            n == counters@.len(),
            1 <= n <= u8::MAX as int,
            idx <= n,
            idx == 0 ==> win_i == 0 && win_c == 0,
            idx >= 1 ==> win_i as int == win_idx_upto(counters@, idx as int) && win_i < idx
                && win_c == counters@[win_i as int],
        decreases n - idx,
    {
        if counters[idx] > win_c {
            win_c = counters[idx];
            win_i = idx;
        }
        idx = idx + 1;
    }
    (win_i as u8, win_c)
}

} // verus!
