use noa_app::hotkey::{
    hotkey_event_matches, parse_hotkey, HotkeyAction, HotkeyChord, CMD_KEY, CONTROL_KEY, HOTKEY_SIGNATURE,
    OPTION_KEY, SHIFT_KEY,
};
use noa_app::link::{editor_arguments, is_allowed_uri, LinkTarget};
use noa_app::menu_keys::{
    accelerator_code, accelerator_from_hotkey, accelerator_modifiers, auto_approve_menu_label,
    chord_accelerator, MenuKey, MenuModifiers,
};
use noa_app::notification::{notification_title, should_notify};

#[test]
fn allows_http_https_and_mailto() {
    assert!(is_allowed_uri("http://example.com"));
    assert!(is_allowed_uri("https://example.com/path?q=1"));
    assert!(is_allowed_uri("mailto:someone@example.com"));
}

#[test]
fn allows_scheme_case_insensitively() {
    assert!(is_allowed_uri("HTTPS://example.com"));
    assert!(is_allowed_uri("MailTo:someone@example.com"));
}

#[test]
fn rejects_disallowed_schemes() {
    assert!(!is_allowed_uri("file:///etc/passwd"));
    assert!(!is_allowed_uri("javascript:alert(1)"));
    assert!(!is_allowed_uri("ftp://example.com"));
    assert!(!is_allowed_uri("data:text/html,<script>alert(1)</script>"));
}

#[test]
fn rejects_scheme_lookalikes_without_the_colon_boundary() {
    assert!(!is_allowed_uri("httpx://evil.example.com"));
}

#[test]
fn rejects_malformed_or_empty_uris() {
    assert!(!is_allowed_uri(""));
    assert!(!is_allowed_uri("http"));
    assert!(!is_allowed_uri("not a uri at all"));
}

#[test]
fn a_bare_scheme_with_colon_and_nothing_after_is_allowed() {
    assert!(is_allowed_uri("mailto:"));
    assert!(!is_allowed_uri("mailt:"));
    assert!(!is_allowed_uri("日本:http"));
}

#[test]
fn editor_receives_exact_location_as_one_argument() {
    let path = "/tmp/日本語 project/$(touch nope);file.rs";
    assert_eq!(
        editor_arguments(path, Some(42), Some(7), true),
        vec!["--goto".to_string(), "/tmp/日本語 project/$(touch nope);file.rs:42:7".to_string()]
    );
    assert_eq!(editor_arguments(path, None, Some(7), true), vec![path.to_string()]);
    assert_eq!(
        editor_arguments(path, Some(0), Some(0), false),
        vec!["/tmp/日本語 project/$(touch nope);file.rs:1:1".to_string()]
    );
}

#[test]
fn link_targets_compare_by_value() {
    let a = LinkTarget::Path { path: "/a".to_string(), line: Some(1), column: None };
    assert_eq!(a.clone(), a);
    assert_ne!(LinkTarget::Uri("http://x".to_string()), a);
}

#[test]
fn parses_cmd_grave() {
    let chord = parse_hotkey("cmd+grave").expect("cmd+grave parses");
    assert_eq!(chord.keycode, 0x32);
    assert_eq!(chord.modifiers, CMD_KEY);
}

#[test]
fn backtick_and_grave_are_equivalent() {
    assert_eq!(parse_hotkey("cmd+`"), parse_hotkey("cmd+grave"));
}

#[test]
fn accumulates_all_modifiers_in_any_order() {
    let chord = parse_hotkey("shift+ctrl+alt+cmd+t").expect("parses");
    assert_eq!(chord.keycode, 0x11);
    assert_eq!(chord.modifiers, CMD_KEY | SHIFT_KEY | OPTION_KEY | CONTROL_KEY);
}

#[test]
fn modifier_aliases_match_the_keybind_parser() {
    assert_eq!(parse_hotkey("command+space"), parse_hotkey("cmd+space"));
    assert_eq!(parse_hotkey("super+space"), parse_hotkey("cmd+space"));
    assert_eq!(parse_hotkey("option+space"), parse_hotkey("alt+space"));
    assert_eq!(parse_hotkey("control+space"), parse_hotkey("ctrl+space"));
}

#[test]
fn rejects_missing_key_unknown_key_and_multiple_keys() {
    assert_eq!(parse_hotkey("cmd+shift"), None);
    assert_eq!(parse_hotkey(""), None);
    assert_eq!(parse_hotkey("cmd+f13"), None);
    assert_eq!(parse_hotkey("cmd+a+b"), None);
}

#[test]
fn a_bare_key_parses_with_no_modifiers() {
    let chord = parse_hotkey("f10").map(|c| c.modifiers);
    assert_eq!(chord, None);
    assert_eq!(parse_hotkey("space").map(|c| c.modifiers), Some(0));
}

#[test]
fn tokens_are_trimmed_lowered_and_empty_ones_skipped() {
    assert_eq!(
        parse_hotkey("  Cmd + SHIFT ++ Escape\t"),
        Some(HotkeyChord { keycode: 0x35, modifiers: CMD_KEY | SHIFT_KEY })
    );
    assert_eq!(parse_hotkey("\u{3000}ctrl\u{3000}+k"), Some(HotkeyChord { keycode: 0x28, modifiers: CONTROL_KEY }));
    // Non-ASCII letters are not lowered.
    assert_eq!(parse_hotkey("cmd+Ä"), None);
    assert_eq!(parse_hotkey("meta+\\"), Some(HotkeyChord { keycode: 0x2A, modifiers: CMD_KEY }));
}

#[test]
fn hotkey_actions_have_distinct_ids() {
    assert_eq!(HotkeyAction::QuickTerminal.id(), 1);
    assert_eq!(HotkeyAction::Sidebar.id(), 2);
}

#[test]
fn quick_terminal_hotkey_maps_to_menu_accelerator() {
    let (mods, key) = accelerator_from_hotkey("cmd+shift+backslash").expect("accelerator");
    assert_eq!(mods, MenuModifiers { super_key: true, shift: true, alt: false, control: false });
    assert_eq!(key, MenuKey::Backslash);
    let (mods, key) = accelerator_from_hotkey("ctrl+alt+shift+t").expect("accelerator");
    assert_eq!(mods, MenuModifiers { super_key: false, shift: true, alt: true, control: true });
    assert_eq!(key, MenuKey::KeyT);
}

#[test]
fn quick_terminal_hotkey_accelerator_ignores_disabled_or_invalid_chords() {
    assert!(chord_accelerator(None).is_none());
    assert!(chord_accelerator(Some("")).is_none());
    assert!(chord_accelerator(Some("cmd+unknown-key")).is_none());
    assert!(chord_accelerator(Some("cmd+t+x")).is_none());
}

#[test]
fn sidebar_accelerator_tracks_the_effective_engine_chord() {
    assert!(chord_accelerator(None).is_none());
    assert_eq!(
        chord_accelerator(Some("cmd+shift+s")),
        Some((MenuModifiers { super_key: true, shift: true, alt: false, control: false }, MenuKey::KeyS))
    );
    assert_eq!(chord_accelerator(Some("cmd+alt+b")), accelerator_from_hotkey("cmd+alt+b"));
    assert!(chord_accelerator(Some("cmd+unknown-key")).is_none());
}

#[test]
fn menu_keys_cover_the_intl_keys_and_reject_unknown_codes() {
    assert_eq!(accelerator_code(0x5D), Some(MenuKey::IntlYen));
    assert_eq!(accelerator_code(0x5E), Some(MenuKey::IntlRo));
    assert_eq!(accelerator_code(0x7F), None);
    assert_eq!(
        accelerator_modifiers(CONTROL_KEY | OPTION_KEY),
        MenuModifiers { super_key: false, shift: false, alt: true, control: true }
    );
}

#[test]
fn auto_approve_label_follows_its_state() {
    assert_eq!(auto_approve_menu_label(true), "Auto Approve: On");
    assert_eq!(auto_approve_menu_label(false), "Auto Approve: Off");
}

#[test]
fn suppresses_notifications_only_for_the_os_focused_window() {
    assert!(!should_notify(Some(1), 1));
    assert!(should_notify(Some(2), 1));
    assert!(should_notify(None, 1));
}

#[test]
fn falls_back_to_noa_for_a_missing_or_empty_title() {
    assert_eq!(notification_title(None), "noa");
    assert_eq!(notification_title(Some("")), "noa");
    assert_eq!(notification_title(Some("build done")), "build done");
}

#[test]
fn each_hotkey_handler_forwards_only_its_own_event() {
    assert_eq!(HOTKEY_SIGNATURE, u32::from_be_bytes(*b"noaq"));
    assert!(hotkey_event_matches(0, HOTKEY_SIGNATURE, 1, HotkeyAction::QuickTerminal));
    assert!(!hotkey_event_matches(0, HOTKEY_SIGNATURE, 1, HotkeyAction::Sidebar));
    assert!(hotkey_event_matches(0, HOTKEY_SIGNATURE, 2, HotkeyAction::Sidebar));
    assert!(!hotkey_event_matches(-1, HOTKEY_SIGNATURE, 1, HotkeyAction::QuickTerminal));
    assert!(!hotkey_event_matches(0, u32::from_be_bytes(*b"othr"), 1, HotkeyAction::QuickTerminal));
}
