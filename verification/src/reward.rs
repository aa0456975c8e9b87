//! The base reward type, and the window of recent returns that the Sharpe
//! shaping potential is measured over.

use vstd::prelude::*;

verus! {

/// Base PnL reward: position times the relative price change.
#[derive(Debug, Clone)]
pub struct PnlReward;

impl PnlReward {
    pub fn new() -> (r: PnlReward)
        ensures
            r == PnlReward,
    {
        PnlReward
    }
}

impl Default for PnlReward {
    fn default() -> (r: PnlReward)
        ensures
            r == PnlReward,
    {
        PnlReward::new()
    }
}

/// Where the rolling window of the last `window` returns starts in a history
/// of `len` returns: the whole history when it is no longer than the window.
pub fn rolling_window_start(len: usize, window: usize) -> (r: usize)
    ensures
        r == if len > window { len - window } else { 0 },
        len - r == if len > window { window } else { len },
{
    if len > window {
        len - window
    } else {
        0
    }
}

} // verus!
