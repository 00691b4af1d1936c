use lora_e5::{AppEui, AppKey, Credentials, DevEui, HexError, ParseError};
use std::str::FromStr;

#[test]
fn identifiers_are_written_in_upper_case() {
    assert_eq!(DevEui::from([0x60, 0x81, 0xF9, 0xA7, 0x75, 0x27, 0x85, 0x64]).to_string(), "6081F9A775278564");
    assert_eq!(AppEui::from([0, 1, 2, 10, 11, 0xab, 0xcd, 0xff]).to_string(), "0001020A0BABCDFF");
    assert_eq!(
        AppKey::from([0x72, 0xF3, 0x6B, 0x99, 0x61, 0x79, 0xE6, 0x34, 0x53, 0x7F, 0xCA, 0x76, 0x04, 0x7D, 0x0B, 0x51])
            .to_string(),
        "72F36B996179E634537FCA76047D0B51"
    );
}

#[test]
fn identifiers_are_read_from_hex_digits() {
    let dev_eui = DevEui::from_str("6081F9A775278564").unwrap();
    assert_eq!(dev_eui.as_bytes(), &[0x60, 0x81, 0xF9, 0xA7, 0x75, 0x27, 0x85, 0x64]);
    let app_eui = AppEui::from_str("0123456789ABCDEF").unwrap();
    assert_eq!(app_eui.as_bytes(), &[0x01, 0x23, 0x45, 0x67, 0x89, 0xAB, 0xCD, 0xEF]);
    let app_key = AppKey::from_str("111111111111111A111111111111111A").unwrap();
    assert_eq!(
        app_key.as_bytes(),
        &[0x11, 0x11, 0x11, 0x11, 0x11, 0x11, 0x11, 0x1A, 0x11, 0x11, 0x11, 0x11, 0x11, 0x11, 0x11, 0x1A]
    );
}

#[test]
fn digits_may_be_in_either_case() {
    let lower = DevEui::from_str("6081f9a775278564").unwrap();
    let mixed = DevEui::from_str("6081F9a775278564").unwrap();
    let upper = DevEui::from_str("6081F9A775278564").unwrap();
    assert_eq!(lower, upper);
    assert_eq!(mixed, upper);
    assert_eq!(lower.to_string(), "6081F9A775278564");
}

#[test]
fn colons_may_stand_among_the_digits() {
    let plain = AppEui::from_str("6081F9A498856DCC").unwrap();
    assert_eq!(AppEui::from_str("60:81:F9:A4:98:85:6D:CC").unwrap(), plain);
    assert_eq!(AppEui::from_str(":6081F9A4:98856DC:C:").unwrap(), plain);
    assert_eq!(AppEui::from_str("60:81:f9:a4:98:85:6d:cc").unwrap().to_string(), "6081F9A498856DCC");
}

#[test]
fn reading_and_writing_round_trip() {
    for text in ["0000000000000000", "ffffffffffffffff", "0123456789abcdef", "FE:DC:BA:98:76:54:32:10"] {
        let id = DevEui::from_str(text).unwrap();
        let written = id.to_string();
        let canonical: String = text.chars().filter(|c| *c != ':').collect::<String>().to_uppercase();
        assert_eq!(written, canonical);
        let again = DevEui::from_str(&written).unwrap();
        assert_eq!(again, id);
        assert_eq!(again.to_string(), written);
    }
    let key = AppKey::from_str("72f36b996179e634537fca76047d0b51").unwrap();
    assert_eq!(key.to_string(), "72F36B996179E634537FCA76047D0B51");
    assert_eq!(AppKey::from_str(&key.to_string()).unwrap(), key);
}

#[test]
fn wrong_length_is_an_error() {
    assert_eq!(DevEui::from_str("6081F9A7752785"), Err(ParseError::VecWrongSize(7)));
    assert_eq!(DevEui::from_str("6081F9A77527856400"), Err(ParseError::VecWrongSize(9)));
    assert_eq!(DevEui::from_str(""), Err(ParseError::VecWrongSize(0)));
    assert_eq!(AppEui::from_str("72F36B996179E634537FCA76047D0B51"), Err(ParseError::VecWrongSize(16)));
    assert_eq!(AppKey::from_str("6081F9A775278564"), Err(ParseError::VecWrongSize(8)));
    assert_eq!(AppKey::from_str("::"), Err(ParseError::VecWrongSize(0)));
}

#[test]
fn odd_number_of_digits_is_an_error() {
    assert_eq!(DevEui::from_str("6081F9A77527856"), Err(ParseError::FromHex(HexError::OddLength)));
    assert_eq!(AppKey::from_str("1"), Err(ParseError::FromHex(HexError::OddLength)));
    // The number of digits is looked at before the digits are.
    assert_eq!(AppEui::from_str("xyz"), Err(ParseError::FromHex(HexError::OddLength)));
}

#[test]
fn first_bad_digit_is_reported() {
    assert_eq!(
        DevEui::from_str("6081F9G77527856Z"),
        Err(ParseError::FromHex(HexError::InvalidHexCharacter { c: 'G', index: 6 }))
    );
    assert_eq!(
        DevEui::from_str("6081F9A77527856 "),
        Err(ParseError::FromHex(HexError::InvalidHexCharacter { c: ' ', index: 15 }))
    );
    // The offset counts the digits without the colons.
    assert_eq!(
        AppEui::from_str("60:81:f9:x4"),
        Err(ParseError::FromHex(HexError::InvalidHexCharacter { c: 'x', index: 6 }))
    );
    // A bad digit is reported before a wrong length.
    assert_eq!(
        AppKey::from_str("0g"),
        Err(ParseError::FromHex(HexError::InvalidHexCharacter { c: 'g', index: 1 }))
    );
}

#[test]
fn identifiers_compare_by_their_bytes() {
    let a = DevEui::from([1, 2, 3, 4, 5, 6, 7, 8]);
    let b = DevEui::from_str("0102030405060708").unwrap();
    let c = DevEui::from([1, 2, 3, 4, 5, 6, 7, 9]);
    assert_eq!(a, b);
    assert_ne!(a, c);
    assert!(AppKey::from([0; 16]) == AppKey::from_str("00000000000000000000000000000000").unwrap());
    assert!(AppEui::from([0; 8]) != AppEui::from([0, 0, 0, 0, 0, 0, 0, 1]));
}

#[test]
fn credentials_hold_what_they_were_made_of() {
    let dev_eui = DevEui::from_str("6081F9A775278564").unwrap();
    let app_eui = AppEui::from_str("6081F9A498856DCC").unwrap();
    let app_key = AppKey::from_str("72F36B996179E634537FCA76047D0B51").unwrap();
    let credentials = Credentials::new(dev_eui, app_eui, app_key);
    assert_eq!(credentials.dev_eui, dev_eui);
    assert_eq!(credentials.app_eui, app_eui);
    assert_eq!(credentials.app_key, app_key);
}
