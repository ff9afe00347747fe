use open2jam::input::config_key_for_character;
use open2jam::key_bind::{
    click_lane, handle_key_capture, key_display_to_storage, KeyCaptureState, KeyMap,
};

/// The default K7 key layout.
fn default_lanes() -> Vec<KeyMap> {
    ["KeyS", "KeyD", "KeyF", "Space", "KeyJ", "KeyK", "KeyL"]
        .iter()
        .map(|k| KeyMap { key: k.to_string() })
        .collect()
}

#[test]
fn test_alpha_char_becomes_key_prefix() {
    assert_eq!(key_display_to_storage("a"), "KeyA");
    assert_eq!(key_display_to_storage("Z"), "KeyZ");
    assert_eq!(key_display_to_storage("m"), "KeyM");
}

#[test]
fn test_digit_becomes_digit_prefix() {
    assert_eq!(key_display_to_storage("1"), "Digit1");
    assert_eq!(key_display_to_storage("9"), "Digit9");
}

#[test]
fn test_named_keys_preserved() {
    assert_eq!(key_display_to_storage("Space"), "Space");
    assert_eq!(key_display_to_storage("Enter"), "Enter");
    assert_eq!(key_display_to_storage("Escape"), "Escape");
    assert_eq!(key_display_to_storage("ShiftLeft"), "Shift");
    assert_eq!(key_display_to_storage("ControlRight"), "Control");
}

#[test]
fn test_punctuation_passed_through() {
    assert_eq!(key_display_to_storage("Comma"), "Comma");
    assert_eq!(key_display_to_storage("Semicolon"), "Semicolon");
    assert_eq!(key_display_to_storage("Minus"), "Minus");
}

#[test]
fn test_capture_transitions_from_idle_to_listening() {
    let mut capture = KeyCaptureState::Idle;
    let lane_to_capture = 2;
    if matches!(capture, KeyCaptureState::Idle) {
        capture = KeyCaptureState::Listening(lane_to_capture);
    }
    assert_eq!(capture, KeyCaptureState::Listening(2));
}

#[test]
fn test_capture_cancels_on_click_while_listening() {
    let mut capture = KeyCaptureState::Listening(3);
    if let KeyCaptureState::Listening(l) = capture {
        if l == 3 {
            capture = KeyCaptureState::Idle;
        }
    }
    assert_eq!(capture, KeyCaptureState::Idle);
}

#[test]
fn test_handle_key_capture_when_idle_does_nothing() {
    let mut lanes = default_lanes();
    let original = lanes[0].key.clone();
    let mut capture = KeyCaptureState::Idle;

    let consumed = handle_key_capture("a", &mut capture, &mut lanes);

    assert!(!consumed);
    assert_eq!(lanes[0].key, original);
    assert_eq!(capture, KeyCaptureState::Idle);
}

#[test]
fn test_handle_key_capture_stores_correct_key() {
    let mut lanes = default_lanes();
    let mut capture = KeyCaptureState::Listening(0);

    let consumed = handle_key_capture("a", &mut capture, &mut lanes);

    assert!(consumed);
    assert_eq!(lanes[0].key, "KeyA");
    assert_eq!(capture, KeyCaptureState::Idle);
}

#[test]
fn test_handle_key_capture_for_space() {
    let mut lanes = default_lanes();
    let mut capture = KeyCaptureState::Listening(3);

    let consumed = handle_key_capture("Space", &mut capture, &mut lanes);

    assert!(consumed);
    assert_eq!(lanes[3].key, "Space");
    assert_eq!(capture, KeyCaptureState::Idle);
}

#[test]
fn test_handle_key_capture_for_digit() {
    let mut lanes = default_lanes();
    let mut capture = KeyCaptureState::Listening(5);

    let consumed = handle_key_capture("7", &mut capture, &mut lanes);

    assert!(consumed);
    assert_eq!(lanes[5].key, "Digit7");
    assert_eq!(capture, KeyCaptureState::Idle);
}

#[test]
fn test_handle_key_capture_ignores_invalid_lane() {
    let mut lanes = default_lanes();
    let before: Vec<String> = lanes.iter().map(|k| k.key.clone()).collect();
    let mut capture = KeyCaptureState::Listening(99);

    let consumed = handle_key_capture("a", &mut capture, &mut lanes);

    assert!(consumed);
    assert_eq!(capture, KeyCaptureState::Idle);
    let after: Vec<String> = lanes.iter().map(|k| k.key.clone()).collect();
    assert_eq!(before, after);
}

#[test]
fn modifier_variants_collapse() {
    assert_eq!(key_display_to_storage("Shift"), "Shift");
    assert_eq!(key_display_to_storage("ShiftRight"), "Shift");
    assert_eq!(key_display_to_storage("ControlLeft"), "Control");
    assert_eq!(key_display_to_storage("AltLeft"), "Alt");
    assert_eq!(key_display_to_storage("AltRight"), "Alt");
    assert_eq!(key_display_to_storage("F5"), "F5");
    assert_eq!(key_display_to_storage(","), ",");
}

#[test]
fn click_toggles_capture() {
    let mut capture = KeyCaptureState::Idle;
    click_lane(&mut capture, 4);
    assert_eq!(capture, KeyCaptureState::Listening(4));
    click_lane(&mut capture, 2);
    assert_eq!(capture, KeyCaptureState::Listening(2));
    click_lane(&mut capture, 2);
    assert_eq!(capture, KeyCaptureState::Idle);
}

#[test]
fn typed_characters_map_to_key_codes() {
    assert_eq!(config_key_for_character("a"), "KeyA");
    assert_eq!(config_key_for_character("Q"), "KeyQ");
    assert_eq!(config_key_for_character("0"), "Digit0");
    assert_eq!(config_key_for_character(","), "Comma");
    assert_eq!(config_key_for_character(" "), "Space");
    assert_eq!(config_key_for_character("\\"), "Backslash");
    assert_eq!(config_key_for_character("`"), "Backquote");
    assert_eq!(config_key_for_character("!"), "!");
    assert_eq!(config_key_for_character("Enter"), "Enter");
    assert_eq!(config_key_for_character("é"), "é");
}
