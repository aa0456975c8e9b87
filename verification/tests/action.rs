use reward_shaping_trading::action::Action;

#[test]
fn test_action_all_in_index_order() {
    let all = Action::all();
    assert_eq!(all.len(), 3);
    assert_eq!(all, &[Action::Buy, Action::Sell, Action::Hold]);
    for a in all {
        assert_eq!(all[a.index()], *a);
    }
}

#[test]
fn test_action_index_values() {
    assert_eq!(Action::Buy.index(), 0);
    assert_eq!(Action::Sell.index(), 1);
    assert_eq!(Action::Hold.index(), 2);
}

#[test]
fn test_action_from_index() {
    assert_eq!(Action::from_index(0), Action::Buy);
    assert_eq!(Action::from_index(1), Action::Sell);
    assert_eq!(Action::from_index(2), Action::Hold);
    assert_eq!(Action::from_index(3), Action::Hold);
    assert_eq!(Action::from_index(usize::MAX), Action::Hold);
}

#[test]
fn test_action_index_round_trip() {
    for a in [Action::Buy, Action::Sell, Action::Hold] {
        assert_eq!(Action::from_index(a.index()), a);
    }
    for i in 0..3usize {
        assert_eq!(Action::from_index(i).index(), i);
    }
}
