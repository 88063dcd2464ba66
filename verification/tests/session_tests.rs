use message_lane::session::{select_validators, ShiftSessionManager};

#[test]
fn shift_session_manager_works() {
    let all_accs = vec![1, 2, 3, 4, 5];

    // at least 1 validator is selected
    assert_eq!(select_validators(0, &vec![1]), vec![1]);

    // at session#0, shift is also 0
    assert_eq!(select_validators(0, &all_accs), vec![1, 2, 3]);

    // at session#1, shift is also 1
    assert_eq!(select_validators(1, &all_accs), vec![2, 3, 4]);

    // at session#3, we're wrapping
    assert_eq!(select_validators(3, &all_accs), vec![4, 5, 1]);

    // at session#5, we're starting from the beginning again
    assert_eq!(select_validators(5, &all_accs), vec![1, 2, 3]);
}

#[test]
fn first_two_sessions_keep_genesis_validators() {
    let mut manager = ShiftSessionManager::new();
    assert_eq!(manager.new_session(0, &vec![1, 2, 3]), None);
    assert_eq!(manager.new_session(1, &vec![1, 2, 3]), None);
    assert!(manager.initial_validators.is_none());
}

#[test]
fn initial_validators_are_cached_on_first_selection() {
    let mut manager = ShiftSessionManager::new();
    let initial = vec![1, 2, 3, 4, 5];
    assert_eq!(manager.new_session(2, &initial), Some(vec![3, 4, 5]));
    assert_eq!(manager.initial_validators, Some(initial));

    // A later, different validator set does not replace the cached one.
    assert_eq!(manager.new_session(3, &vec![7, 8]), Some(vec![4, 5, 1]));
}
