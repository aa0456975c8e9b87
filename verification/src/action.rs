//! The three trading actions and their table index.

use vstd::prelude::*;

verus! {

/// Trading action: Buy, Sell, or Hold.
#[derive(Debug, Clone, Copy, PartialEq, Eq, Hash, Structural)]
pub enum Action {
    Buy,
    Sell,
    Hold,
}

/// The column of an action in a Q-table row.
pub open spec fn action_index(a: Action) -> nat {
    match a {
        Action::Buy => 0,
        Action::Sell => 1,
        Action::Hold => 2,
    }
}

/// The action stored at a Q-table column; every column past `Sell` reads as `Hold`.
pub open spec fn action_at(i: int) -> Action {
    if i == 0 {
        Action::Buy
    } else if i == 1 {
        Action::Sell
    } else {
        Action::Hold
    }
}

impl Action {
    /// All actions, in index order.
    pub fn all() -> (r: &'static [Action])
        ensures
            r@ == seq![Action::Buy, Action::Sell, Action::Hold],
    {
        &[Action::Buy, Action::Sell, Action::Hold]
    }

    pub fn index(&self) -> (r: usize)
        ensures
            r == action_index(*self),
    {
        match self {
            Action::Buy => 0,
            Action::Sell => 1,
            Action::Hold => 2,
        }
    }

    pub fn from_index(i: usize) -> (r: Action)
        ensures
            r == action_at(i as int),
    {
        match i {
            0 => Action::Buy,
            1 => Action::Sell,
            _ => Action::Hold,
        }
    }
}

/// Reading back the column of an action gives the same action.
pub proof fn lemma_index_round_trip(a: Action)
    ensures
        action_at(action_index(a) as int) == a,
        action_index(a) < 3,
{
}

/// Every column of a Q-table row (`0`, `1`, `2`) belongs to exactly one action,
/// and that action's index is the column again.
pub proof fn lemma_column_round_trip(i: int)
    requires
        0 <= i < 3,
    ensures
        action_index(action_at(i)) == i,
{
}

/// Distinct actions occupy distinct columns.
pub proof fn lemma_index_injective(a: Action, b: Action)
    requires
        action_index(a) == action_index(b),
    ensures
        a == b,
{
}

/// `all()` lists every action at its own index.
pub proof fn lemma_all_in_index_order(a: Action)
    ensures
        seq![Action::Buy, Action::Sell, Action::Hold][action_index(a) as int] == a,
{
}

} // verus!
