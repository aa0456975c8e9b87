use reward_shaping_trading::state::state_index;

#[test]
fn test_state_index_flat_unchanged() {
    // flat position -> bin 1, zero return -> bin 2, no drawdown -> bin 0
    assert_eq!(state_index(1, 2, 0), 1 * 15 + 2 * 3 + 0);
}

#[test]
fn test_state_index_distinct_and_bounded() {
    let mut seen = std::collections::HashSet::new();
    for p in 0..3 {
        for r in 0..5 {
            for d in 0..3 {
                let id = state_index(p, r, d);
                assert!(id < 45);
                assert!(seen.insert(id));
            }
        }
    }
    assert_eq!(seen.len(), 45);
}
