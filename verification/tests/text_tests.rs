use open2jam::text::{accept_euc_kr, decode_c_string, decode_sample_name, str_eq};

#[test]
fn c_string_stops_at_nul() {
    let mut field = [0u8; 16];
    field[..4].copy_from_slice(b"HWAN");
    field[5] = b'x';
    assert_eq!(decode_c_string(&field), "HWAN");
    assert_eq!(decode_c_string(&[0u8; 8]), "");
    assert_eq!(decode_c_string(b""), "");
}

#[test]
fn c_string_reads_euc_kr() {
    // "한국" in EUC-KR
    assert_eq!(decode_c_string(&[0xC7, 0xD1, 0xB1, 0xB9, 0]), "한국");
    assert_eq!(decode_sample_name(&[0xC7, 0xD1, 0xB1, 0xB9]), "한국");
}

#[test]
fn c_string_falls_back_to_lossy_utf8() {
    // Malformed in EUC-KR: decoded as lossy UTF-8 instead.
    assert_eq!(decode_c_string(&[0xFF, 0x41]), "\u{FFFD}A");
    assert_eq!(decode_sample_name(&[0xFF, 0x41]), "\u{FFFD}A");
}

#[test]
fn string_equality() {
    assert!(str_eq("Space", "Space"));
    assert!(!str_eq("Space", "Spac"));
    assert!(!str_eq("한", "Space"));
    assert!(str_eq("", ""));
}

#[test]
fn euc_kr_reading_is_kept_only_when_clean() {
    assert_eq!(accept_euc_kr("한".to_string(), false, true), Some("한".to_string()));
    assert_eq!(accept_euc_kr("한".to_string(), true, true), None);
    assert_eq!(accept_euc_kr(String::new(), false, true), None);
    assert_eq!(accept_euc_kr(String::new(), false, false), Some(String::new()));
}
