//! Key binding capture: the press-to-bind flow of the key binding editor and
//! the storage names of captured keys.
use vstd::prelude::*;
use crate::text::str_eq;
use crate::input::{
    config_key_for_character, spec_config_key_for_character, spec_is_ascii_alpha,
    spec_is_ascii_digit,
};

verus! {

/// State of the key capture flow.
#[derive(Debug, Clone, Copy, PartialEq, Eq, Structural)]
pub enum KeyCaptureState {
    /// Not capturing any key.
    Idle,
    /// Waiting for a key press for the given lane index.
    Listening(usize),
}

/// The key bound to one lane.
#[derive(Debug, Clone)]
pub struct KeyMap {
    pub key: String,
}

/// The named keys whose storage name is their display name.
pub open spec fn spec_is_plain_named_key(t: Seq<char>) -> bool {
    t == "Space"@ || t == "Enter"@ || t == "Escape"@ || t == "Tab"@ || t == "Backspace"@ || t
        == "Delete"@ || t == "Insert"@ || t == "ArrowUp"@ || t == "ArrowDown"@ || t
        == "ArrowLeft"@ || t == "ArrowRight"@ || t == "Home"@ || t == "End"@ || t == "PageUp"@
        || t == "PageDown"@
}

/// Storage name of a key as the window system describes it: plain named keys
/// keep their name, the left/right modifier variants collapse to "Shift",
/// "Control" and "Alt", a single letter becomes "Key" and its upper case, a
/// digit "Digit" and the digit; any other name is kept.
pub open spec fn spec_key_display_to_storage(t: Seq<char>) -> Seq<char> {
    if spec_is_plain_named_key(t) {
        t
    } else if t == "Shift"@ || t == "ShiftLeft"@ || t == "ShiftRight"@ {
        "Shift"@
    } else if t == "Control"@ || t == "ControlLeft"@ || t == "ControlRight"@ {
        "Control"@
    } else if t == "Alt"@ || t == "AltLeft"@ || t == "AltRight"@ {
        "Alt"@
    } else if t.len() == 1 && (spec_is_ascii_alpha(t[0]) || spec_is_ascii_digit(t[0])) {
        spec_config_key_for_character(t)
    } else {
        t
    }
}

/// Convert a key description as the window system displays it into the
/// canonical storage string used by `KeyMap::key`.
pub fn key_display_to_storage(key_text: &str) -> (r: String)
    ensures
        r@ == spec_key_display_to_storage(key_text@),
{
    if str_eq(key_text, "Space") || str_eq(key_text, "Enter") || str_eq(key_text, "Escape")
        || str_eq(key_text, "Tab") || str_eq(key_text, "Backspace") || str_eq(key_text, "Delete")
        || str_eq(key_text, "Insert") || str_eq(key_text, "ArrowUp") || str_eq(
        key_text,
        "ArrowDown",
    ) || str_eq(key_text, "ArrowLeft") || str_eq(key_text, "ArrowRight") || str_eq(
        key_text,
        "Home",
    ) || str_eq(key_text, "End") || str_eq(key_text, "PageUp") || str_eq(key_text, "PageDown") {
        return key_text.to_owned();
    }
    if str_eq(key_text, "Shift") || str_eq(key_text, "ShiftLeft") || str_eq(key_text, "ShiftRight") {
        return "Shift".to_owned();
    }
    if str_eq(key_text, "Control") || str_eq(key_text, "ControlLeft") || str_eq(
        key_text,
        "ControlRight",
    ) {
        return "Control".to_owned();
    }
    if str_eq(key_text, "Alt") || str_eq(key_text, "AltLeft") || str_eq(key_text, "AltRight") {
        return "Alt".to_owned();
    }
    if key_text.unicode_len() == 1 {
        let ch = key_text.get_char(0);
        if ('a' <= ch && ch <= 'z') || ('A' <= ch && ch <= 'Z') || ('0' <= ch && ch <= '9') {
            return config_key_for_character(key_text).to_owned();
        }
    }
    key_text.to_owned()
}

/// Process a key press while the editor may be capturing: when listening
/// for a lane, store the key's name for that lane (if the lane exists) and
/// stop listening. Returns whether the press was consumed.
pub fn handle_key_capture(
    key_text: &str,
    capture: &mut KeyCaptureState,
    lanes: &mut Vec<KeyMap>,
) -> (consumed: bool)
    ensures
        consumed == (*old(capture) is Listening),
        *final(capture) == KeyCaptureState::Idle,
        final(lanes)@.len() == old(lanes)@.len(),
        forall|i: int|
            0 <= i < old(lanes)@.len() ==> #[trigger] final(lanes)@[i].key@ == (if *old(
                capture,
            ) == KeyCaptureState::Listening(i as usize) {
                spec_key_display_to_storage(key_text@)
            } else {
                old(lanes)@[i].key@
            }),
{
    let lane = match *capture {
        KeyCaptureState::Listening(l) => l,
        KeyCaptureState::Idle => {
            return false;
        },
    };
    let storage_key = key_display_to_storage(key_text);
    if lane < lanes.len() {
        lanes[lane] = KeyMap { key: storage_key };
    }
    *capture = KeyCaptureState::Idle;
    true
}

/// The editor's reaction to a click on the button of `lane`: a click on the
/// lane being captured cancels the capture, any other click starts
/// capturing that lane.
pub fn click_lane(capture: &mut KeyCaptureState, lane: usize)
    ensures
        *final(capture) == (if *old(capture) == KeyCaptureState::Listening(lane) {
            KeyCaptureState::Idle
        } else {
            KeyCaptureState::Listening(lane)
        }),
{
    let is_listening = match *capture {
        KeyCaptureState::Listening(l) => l == lane,
        KeyCaptureState::Idle => false,
    };
    if is_listening {
        *capture = KeyCaptureState::Idle;
    } else {
        *capture = KeyCaptureState::Listening(lane);
    }
}

} // verus!
