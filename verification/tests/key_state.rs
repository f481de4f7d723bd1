use noa_app::keyboard::KeyModifierState;

const KEY_A: u64 = 30;
const KEY_B: u64 = 48;

#[test]
fn a_release_reports_what_its_press_decided() {
    let mut state = KeyModifierState::new();
    assert!(state.alt_sends_esc(KEY_A, true, false, true));
    assert!(state.alt_sends_esc(KEY_A, true, true, false), "a repeat keeps the press's classification");
    assert!(state.alt_sends_esc(KEY_A, false, false, false), "the release reports the press");
    assert!(!state.alt_sends_esc(KEY_A, false, false, false), "after the release the key is forgotten");
}

#[test]
fn keys_are_classified_independently() {
    let mut state = KeyModifierState::default();
    assert!(!state.alt_sends_esc(KEY_A, true, false, false));
    assert!(state.alt_sends_esc(KEY_B, true, false, true));
    assert!(!state.alt_sends_esc(KEY_A, false, false, true));
    assert!(state.alt_sends_esc(KEY_B, false, false, false));
}

#[test]
fn a_new_press_overrides_and_a_repeat_without_press_records() {
    let mut state = KeyModifierState::new();
    assert!(state.alt_sends_esc(KEY_A, true, true, true), "a repeat with no recorded press records it");
    assert!(state.alt_sends_esc(KEY_A, true, true, false));
    assert!(!state.alt_sends_esc(KEY_A, true, false, false), "a fresh press decides anew");
    state.clear();
    assert!(state.alt_sends_esc(KEY_A, false, false, true), "cleared state falls back to the event");
}
