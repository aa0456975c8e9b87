//! Reward shaping for trading agents: the integer and text logic of the
//! library, verified with Verus.

pub mod action;
pub mod decimal;
pub mod bybit;
pub mod reward;
pub mod state;
pub mod environment;
