//! The tabular state id of a trading state, built from its three bins:
//! position (short, flat, long), last price return (five bands) and
//! drawdown from the peak (three bands).

use vstd::prelude::*;

verus! {

/// Number of position bins: short, flat, long.
pub const POSITION_BINS: u64 = 3;

/// Number of price-return bins.
pub const RETURN_BINS: u64 = 5;

/// Number of drawdown bins.
pub const DRAWDOWN_BINS: u64 = 3;

pub open spec fn state_id(pos_bin: int, ret_bin: int, dd_bin: int) -> int {
    pos_bin * 15 + ret_bin * 3 + dd_bin
}

/// Combines the three bins of a trading state into its id for the Q-table:
/// `pos_bin * 15 + ret_bin * 3 + dd_bin`, one of `0..45`.
pub fn state_index(pos_bin: u64, ret_bin: u64, dd_bin: u64) -> (r: u64)
    requires
        pos_bin < POSITION_BINS,
        ret_bin < RETURN_BINS,
        dd_bin < DRAWDOWN_BINS,
    ensures
        r == state_id(pos_bin as int, ret_bin as int, dd_bin as int),
        r == pos_bin * 15 + ret_bin * 3 + dd_bin,
        r < POSITION_BINS * RETURN_BINS * DRAWDOWN_BINS,
{
    pos_bin * 15 + ret_bin * 3 + dd_bin
}

/// Distinct bin triples give distinct state ids: each id names exactly one
/// combination of position, return band and drawdown band.
pub proof fn lemma_state_id_injective(p1: int, r1: int, d1: int, p2: int, r2: int, d2: int)
    requires
        0 <= p1 < 3,
        0 <= r1 < 5,
        0 <= d1 < 3,
        0 <= p2 < 3,
        0 <= r2 < 5,
        0 <= d2 < 3,
        state_id(p1, r1, d1) == state_id(p2, r2, d2),
    ensures
        p1 == p2,
        r1 == r2,
        d1 == d2,
{
}

/// The id is a mixed-radix number with the position bin as its most
/// significant digit: the id divided by 15 is the position bin, the remainder
/// divided by 3 is the return bin, and the id modulo 3 is the drawdown bin.
pub proof fn lemma_state_id_digits(p: int, r: int, d: int)
    requires
        0 <= p < 3,
        0 <= r < 5,
        0 <= d < 3,
    ensures
        0 <= state_id(p, r, d) < 45,
        state_id(p, r, d) / 15 == p,
        (state_id(p, r, d) % 15) / 3 == r,
        state_id(p, r, d) % 3 == d,
{
}

/// Moving one position bin up (short to flat, flat to long) adds 15 to the id;
/// one return band up adds 3; one drawdown band up adds 1.
pub proof fn lemma_state_id_steps(p: int, r: int, d: int)
    ensures
        state_id(p + 1, r, d) == state_id(p, r, d) + 15,
        state_id(p, r + 1, d) == state_id(p, r, d) + 3,
        state_id(p, r, d + 1) == state_id(p, r, d) + 1,
        state_id(0, 0, 0) == 0,
{
}

} // verus!
