//! The step clock of the trading environment, which walks through a list of
//! candles one at a time.

use vstd::prelude::*;

verus! {

/// Advances the environment's step counter past `current_step` in a run of
/// `num_candles` candles. Returns the new step and whether the episode is
/// over; while it is not, the new step is the index of the candle to read.
pub fn next_step(current_step: usize, num_candles: usize) -> (r: (usize, bool))
    requires
        current_step < usize::MAX,
    ensures
        r.0 == current_step + 1,
        r.1 == (r.0 >= num_candles),
        !r.1 ==> r.0 < num_candles,
{
    let step: usize = current_step + 1;
    (step, step >= num_candles)
}

} // verus!
