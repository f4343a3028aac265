use secret_message_store::error::Error;
use secret_message_store::message::SecretMessagePayload;
use secret_message_store::policy::{
    _validate_secret_key, is_decimal_digit, secret_key_verdict, validate, MIN_KEY_LEN,
};

fn weak() -> Result<(), Error> {
    Err(Error::InvalidInput { msg: "Password validation failed".to_string() })
}

fn payload(content: &str, key: &str) -> SecretMessagePayload {
    SecretMessagePayload { encrypted_message: content.to_string(), secret_key: key.to_string() }
}

#[test]
fn strong_key_passes() {
    assert_eq!(_validate_secret_key("Str0ngPwd"), Ok(()));
    assert_eq!(_validate_secret_key("aB3defgh"), Ok(()));
}

#[test]
fn key_without_uppercase_fails() {
    assert_eq!(_validate_secret_key("short1"), weak());
    assert_eq!(_validate_secret_key("str0ngpwd"), weak());
}

#[test]
fn key_without_lowercase_fails() {
    assert_eq!(_validate_secret_key("STR0NGPWD"), weak());
}

#[test]
fn key_without_digit_fails() {
    assert_eq!(_validate_secret_key("StrongPwd"), weak());
}

#[test]
fn key_with_whitespace_fails() {
    assert_eq!(_validate_secret_key("Str0ng Pwd"), weak());
    assert_eq!(_validate_secret_key("Str0ngPwd\n"), weak());
    assert_eq!(_validate_secret_key("\tStr0ngPwd"), weak());
    assert_eq!(_validate_secret_key("Str0ng\u{a0}Pwd"), weak());
    assert_eq!(_validate_secret_key("Str0ng\u{3000}Pwd"), weak());
}

#[test]
fn key_shorter_than_eight_bytes_fails() {
    assert_eq!(MIN_KEY_LEN, 8);
    assert_eq!(_validate_secret_key("Str0ngP"), weak());
    assert_eq!(_validate_secret_key("Str0ngPw"), Ok(()));
    assert_eq!(_validate_secret_key(""), weak());
}

#[test]
fn key_length_counts_bytes() {
    assert_eq!(_validate_secret_key("Aa1é"), weak());
    assert_eq!(_validate_secret_key("Aa1éé"), weak());
    assert_eq!(_validate_secret_key("Aa1ééé"), Ok(()));
}

#[test]
fn key_letters_beyond_ascii_count() {
    assert_eq!(_validate_secret_key("éééé1ÉÉÉÉ"), Ok(()));
    assert_eq!(_validate_secret_key("éééé1éééé"), weak());
}

#[test]
fn key_digit_is_decimal_only() {
    assert_eq!(_validate_secret_key("StrongPwd\u{0663}"), weak());
    assert_eq!(_validate_secret_key("StrongPwd\u{0663}4"), Ok(()));
}

#[test]
fn decimal_digits_are_zero_to_nine() {
    for c in '0'..='9' {
        assert!(is_decimal_digit(c));
    }
    assert!(!is_decimal_digit('/'));
    assert!(!is_decimal_digit(':'));
    assert!(!is_decimal_digit('a'));
    assert!(!is_decimal_digit('\u{0663}'));
}

#[test]
fn verdict_follows_the_findings() {
    assert_eq!(secret_key_verdict(false, true, true, true, 8), Ok(()));
    assert_eq!(secret_key_verdict(false, true, true, true, usize::MAX), Ok(()));
    assert_eq!(secret_key_verdict(true, true, true, true, 8), weak());
    assert_eq!(secret_key_verdict(false, false, true, true, 8), weak());
    assert_eq!(secret_key_verdict(false, true, false, true, 8), weak());
    assert_eq!(secret_key_verdict(false, true, true, false, 8), weak());
    assert_eq!(secret_key_verdict(false, true, true, true, 7), weak());
    assert_eq!(secret_key_verdict(false, true, true, true, 0), weak());
}

#[test]
fn valid_payload_passes_the_gate() {
    assert_eq!(validate(&payload("abc", "Str0ngPwd")), Ok(()));
}

#[test]
fn empty_field_fails_the_gate() {
    let empty = Err(Error::InvalidInput {
        msg: "Both encrypted_message and secret_key must be non-empty".to_string(),
    });
    assert_eq!(validate(&payload("", "")), empty);
    assert_eq!(validate(&payload("", "Str0ngPwd")), empty);
    assert_eq!(validate(&payload("abc", "")), empty);
}

#[test]
fn weak_key_fails_the_gate() {
    assert_eq!(validate(&payload("abc", "short1")), weak());
}

#[test]
fn oversized_payload_fails_the_gate() {
    let key = "Str0ngPwd";
    let room = 1024 - 21 - key.len();
    assert_eq!(validate(&payload(&"m".repeat(room), key)), Ok(()));
    assert_eq!(
        validate(&payload(&"m".repeat(room + 1), key)),
        Err(Error::InvalidInput { msg: "The message does not fit into 1024 bytes".to_string() })
    );
    assert!(validate(&payload(&"m".repeat(5000), key)).is_err());
    assert!(validate(&payload("abc", &"Aa1".repeat(400))).is_err());
}

fn counted_as_whitespace(c: char) -> bool {
    matches!(
        c,
        '\u{9}'..='\u{d}'
            | ' '
            | '\u{85}'
            | '\u{a0}'
            | '\u{1680}'
            | '\u{2000}'..='\u{200a}'
            | '\u{2028}'
            | '\u{2029}'
            | '\u{202f}'
            | '\u{205f}'
            | '\u{3000}'
    )
}

#[test]
fn whitespace_is_what_unicode_counts_as_such() {
    let mut found = 0;
    for c in '\0'..=char::MAX {
        let key = format!("Str0ngPwd{}", c);
        let refused = _validate_secret_key(&key).is_err();
        assert_eq!(refused, counted_as_whitespace(c), "{:?}", c);
        if refused {
            found += 1;
        }
    }
    assert_eq!(found, 25);
}

#[test]
fn whitespace_at_the_edges_of_its_ranges() {
    for c in ['\u{9}', '\u{d}', ' ', '\u{85}', '\u{2000}', '\u{200a}', '\u{3000}'] {
        assert_eq!(_validate_secret_key(&format!("Str0ngPwd{}", c)), weak());
    }
    for c in ['\u{8}', '\u{e}', '\u{1f}', '!', '\u{84}', '\u{86}', '\u{180e}', '\u{1fff}'] {
        assert_eq!(_validate_secret_key(&format!("Str0ngPwd{}", c)), Ok(()));
    }
    for c in ['\u{200b}', '\u{2027}', '\u{202a}', '\u{2060}', '\u{2fff}', '\u{3001}', '\u{feff}'] {
        assert_eq!(_validate_secret_key(&format!("Str0ngPwd{}", c)), Ok(()));
    }
}
