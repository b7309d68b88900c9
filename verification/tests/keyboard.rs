use vbus_core::keyboard::{key_action, unbuffered_modes, KeyAction};

#[test]
fn stop_signal_goes_before_input() {
    assert_eq!(key_action(true, true, 1, b'a'), KeyAction::Stop);
    assert_eq!(key_action(true, false, 0, 0), KeyAction::Stop);
}

#[test]
fn input_counts_only_when_one_byte_was_read() {
    assert_eq!(key_action(false, false, 1, b'a'), KeyAction::Ignore);
    assert_eq!(key_action(false, true, 0, b'a'), KeyAction::Ignore);
    assert_eq!(key_action(false, true, 2, b'a'), KeyAction::Ignore);
    assert_eq!(key_action(false, true, 1, b'q'), KeyAction::Push('q'));
    assert_eq!(key_action(false, true, 1, 0xe9), KeyAction::Push('\u{e9}'));
}

#[test]
fn unbuffered_modes_clear_the_two_bits() {
    assert_eq!(unbuffered_modes(0o105073, 0o000002, 0o000010), 0o105061);
    assert_eq!(unbuffered_modes(0, 2, 8), 0);
    assert_eq!(unbuffered_modes(u32::MAX, 2, 8), u32::MAX - 10);
}
