use reward_shaping_trading::environment::next_step;
use reward_shaping_trading::reward::{rolling_window_start, PnlReward};

#[test]
fn test_pnl_reward_new_and_default() {
    let _a: PnlReward = PnlReward::new();
    let _b: PnlReward = PnlReward::default();
}

#[test]
fn test_rolling_window_start() {
    assert_eq!(rolling_window_start(5, 5), 0);
    assert_eq!(rolling_window_start(3, 20), 0);
    assert_eq!(rolling_window_start(30, 20), 10);
    assert_eq!(rolling_window_start(0, 0), 0);
    assert_eq!(rolling_window_start(7, 0), 7);
}

#[test]
fn test_next_step() {
    assert_eq!(next_step(0, 50), (1, false));
    assert_eq!(next_step(48, 50), (49, false));
    assert_eq!(next_step(49, 50), (50, true));
    assert_eq!(next_step(0, 0), (1, true));
    assert_eq!(next_step(0, 1), (1, true));
}
