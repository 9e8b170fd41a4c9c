use alacritty_macos::activation_guard::{
    suppress_next_activation_restore, take_suppression, ActivationGuard,
};

#[test]
fn new_guard_has_nothing_pending() {
    let mut guard = ActivationGuard::new();
    assert!(!guard.is_pending());
    assert!(!take_suppression(&mut guard));
}

#[test]
fn default_guard_has_nothing_pending() {
    let mut guard = ActivationGuard::default();
    assert!(!take_suppression(&mut guard));
}

#[test]
fn suppression_is_taken_once() {
    let mut guard = ActivationGuard::new();
    suppress_next_activation_restore(&mut guard);
    assert!(guard.is_pending());
    assert!(take_suppression(&mut guard));
    assert!(!guard.is_pending());
    assert!(!take_suppression(&mut guard));
}

#[test]
fn arming_twice_still_suppresses_once() {
    let mut guard = ActivationGuard::new();
    suppress_next_activation_restore(&mut guard);
    suppress_next_activation_restore(&mut guard);
    assert!(take_suppression(&mut guard));
    assert!(!take_suppression(&mut guard));
}
