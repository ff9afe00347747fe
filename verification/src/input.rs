//! Key names: from a typed character to the key-code name stored in the key
//! bindings.
use vstd::prelude::*;
use vstd::string::StrSliceExecFns;

verus! {

/// An ASCII letter.
pub open spec fn spec_is_ascii_alpha(ch: char) -> bool {
    ('a' <= ch && ch <= 'z') || ('A' <= ch && ch <= 'Z')
}

/// An ASCII digit.
pub open spec fn spec_is_ascii_digit(ch: char) -> bool {
    '0' <= ch && ch <= '9'
}

/// The ASCII upper case of a letter (other characters are kept).
pub open spec fn spec_ascii_upper(ch: char) -> char {
    if 'a' <= ch && ch <= 'z' {
        ((ch as u32) - 32) as char
    } else {
        ch
    }
}

/// Name of the key that types an ASCII punctuation character or space.
pub open spec fn spec_punctuation_name(ch: char) -> Option<Seq<char>> {
    if ch == ',' {
        Some("Comma"@)
    } else if ch == '.' {
        Some("Period"@)
    } else if ch == ';' {
        Some("Semicolon"@)
    } else if ch == '\'' {
        Some("Quote"@)
    } else if ch == '/' {
        Some("Slash"@)
    } else if ch == '\\' {
        Some("Backslash"@)
    } else if ch == '[' {
        Some("BracketLeft"@)
    } else if ch == ']' {
        Some("BracketRight"@)
    } else if ch == '-' {
        Some("Minus"@)
    } else if ch == '=' {
        Some("Equal"@)
    } else if ch == '`' {
        Some("Backquote"@)
    } else if ch == ' ' {
        Some("Space"@)
    } else {
        None
    }
}

/// The key-code name for a typed string: a single ASCII letter becomes
/// "Key" and its upper case, a digit "Digit" and the digit, punctuation its
/// key name; anything else is kept as it is.
pub open spec fn spec_config_key_for_character(c: Seq<char>) -> Seq<char> {
    if c.len() == 1 && (c[0] as u32) < 128 {
        let ch = c[0];
        if spec_is_ascii_alpha(ch) {
            seq!['K', 'e', 'y', spec_ascii_upper(ch)]
        } else if spec_is_ascii_digit(ch) {
            seq!['D', 'i', 'g', 'i', 't', ch]
        } else {
            match spec_punctuation_name(ch) {
                Some(name) => name,
                None => c,
            }
        }
    } else {
        c
    }
}

/// Map a typed character to the key-code name used in the key bindings
/// ("a" to "KeyA", "1" to "Digit1", "," to "Comma"); other input is returned
/// unchanged.
pub fn config_key_for_character(c: &str) -> (r: &str)
    ensures
        r@ == spec_config_key_for_character(c@),
{
    proof {
        reveal_strlit("KeyA");
        reveal_strlit("KeyB");
        reveal_strlit("KeyC");
        reveal_strlit("KeyD");
        reveal_strlit("KeyE");
        reveal_strlit("KeyF");
        reveal_strlit("KeyG");
        reveal_strlit("KeyH");
        reveal_strlit("KeyI");
        reveal_strlit("KeyJ");
        reveal_strlit("KeyK");
        reveal_strlit("KeyL");
        reveal_strlit("KeyM");
        reveal_strlit("KeyN");
        reveal_strlit("KeyO");
        reveal_strlit("KeyP");
        reveal_strlit("KeyQ");
        reveal_strlit("KeyR");
        reveal_strlit("KeyS");
        reveal_strlit("KeyT");
        reveal_strlit("KeyU");
        reveal_strlit("KeyV");
        reveal_strlit("KeyW");
        reveal_strlit("KeyX");
        reveal_strlit("KeyY");
        reveal_strlit("KeyZ");
        reveal_strlit("Digit0");
        reveal_strlit("Digit1");
        reveal_strlit("Digit2");
        reveal_strlit("Digit3");
        reveal_strlit("Digit4");
        reveal_strlit("Digit5");
        reveal_strlit("Digit6");
        reveal_strlit("Digit7");
        reveal_strlit("Digit8");
        reveal_strlit("Digit9");
    }
    if c.unicode_len() == 1 && (c.get_char(0) as u32) < 128 {
        let ch = c.get_char(0);
        if ('a' <= ch && ch <= 'z') || ('A' <= ch && ch <= 'Z') {
            return match ch {
                'A' | 'a' => "KeyA",
                'B' | 'b' => "KeyB",
                'C' | 'c' => "KeyC",
                'D' | 'd' => "KeyD",
                'E' | 'e' => "KeyE",
                'F' | 'f' => "KeyF",
                'G' | 'g' => "KeyG",
                'H' | 'h' => "KeyH",
                'I' | 'i' => "KeyI",
                'J' | 'j' => "KeyJ",
                'K' | 'k' => "KeyK",
                'L' | 'l' => "KeyL",
                'M' | 'm' => "KeyM",
                'N' | 'n' => "KeyN",
                'O' | 'o' => "KeyO",
                'P' | 'p' => "KeyP",
                'Q' | 'q' => "KeyQ",
                'R' | 'r' => "KeyR",
                'S' | 's' => "KeyS",
                'T' | 't' => "KeyT",
                'U' | 'u' => "KeyU",
                'V' | 'v' => "KeyV",
                'W' | 'w' => "KeyW",
                'X' | 'x' => "KeyX",
                'Y' | 'y' => "KeyY",
                'Z' | 'z' => "KeyZ",
                _ => c,
            };
        }
        if '0' <= ch && ch <= '9' {
            return match ch {
                '0' => "Digit0",
                '1' => "Digit1",
                '2' => "Digit2",
                '3' => "Digit3",
                '4' => "Digit4",
                '5' => "Digit5",
                '6' => "Digit6",
                '7' => "Digit7",
                '8' => "Digit8",
                '9' => "Digit9",
                _ => c,
            };
        }
        return match ch {
            ',' => "Comma",
            '.' => "Period",
            ';' => "Semicolon",
            '\'' => "Quote",
            '/' => "Slash",
            '\\' => "Backslash",
            '[' => "BracketLeft",
            ']' => "BracketRight",
            '-' => "Minus",
            '=' => "Equal",
            '`' => "Backquote",
            ' ' => "Space",
            _ => c,
        };
    }
    c
}

} // verus!
