use crate::codec::{too_large_text, MAX_SIZE};
use crate::error::Error;
use crate::message::{PayloadView, SecretMessagePayload};
use vstd::prelude::*;
use vstd::utf8::encode_utf8;

verus! {

/// Whether Unicode counts `c` as `White_Space`: the controls from tab to carriage return,
/// the space, next line, the no-break spaces, the spaces of fixed widths, and the line and
/// paragraph separators.
pub open spec fn unicode_whitespace(c: char) -> bool {
    ||| '\u{9}' <= c <= '\u{d}'
    ||| c == ' '
    ||| c == '\u{85}'
    ||| c == '\u{a0}'
    ||| c == '\u{1680}'
    ||| '\u{2000}' <= c <= '\u{200a}'
    ||| c == '\u{2028}'
    ||| c == '\u{2029}'
    ||| c == '\u{202f}'
    ||| c == '\u{205f}'
    ||| c == '\u{3000}'
}

/// Whether Unicode counts `c` as `Lowercase`: what `char::is_lowercase` returns.
pub uninterp spec fn unicode_lowercase(c: char) -> bool;

/// Whether Unicode counts `c` as `Uppercase`: what `char::is_uppercase` returns.
pub uninterp spec fn unicode_uppercase(c: char) -> bool;

/// `char::is_whitespace` of std: whether the character is one of those that Unicode counts
/// as `White_Space`.
pub assume_specification[ char::is_whitespace ](c: char) -> (r: bool)
    ensures
        r == unicode_whitespace(c),
;

/// `char::is_lowercase` of std depends on the character alone; its result is named, the
/// table of Unicode being too long to state.
pub assume_specification[ char::is_lowercase ](c: char) -> (r: bool)
    ensures
        r == unicode_lowercase(c),
;

/// `char::is_uppercase` of std depends on the character alone; its result is named, the
/// table of Unicode being too long to state.
pub assume_specification[ char::is_uppercase ](c: char) -> (r: bool)
    ensures
        r == unicode_uppercase(c),
;

/// The least number of bytes of a secret key.
pub const MIN_KEY_LEN: usize = 8;

/// Whether `c` is one of the ten digits `0` to `9`.
pub open spec fn decimal_digit(c: char) -> bool {
    '0' <= c <= '9'
}

pub open spec fn contains_whitespace(s: Seq<char>) -> bool {
    exists|i: int| 0 <= i < s.len() && unicode_whitespace(s[i])
}

pub open spec fn contains_lowercase(s: Seq<char>) -> bool {
    exists|i: int| 0 <= i < s.len() && unicode_lowercase(s[i])
}

pub open spec fn contains_uppercase(s: Seq<char>) -> bool {
    exists|i: int| 0 <= i < s.len() && unicode_uppercase(s[i])
}

pub open spec fn contains_digit(s: Seq<char>) -> bool {
    exists|i: int| 0 <= i < s.len() && decimal_digit(s[i])
}

/// The rule on what was found in a key: no whitespace, an uppercase letter, a lowercase
/// letter, a digit, and at least [`MIN_KEY_LEN`] bytes.
pub open spec fn policy_met(
    has_whitespace: bool,
    has_upper: bool,
    has_lower: bool,
    has_digit: bool,
    len: nat,
) -> bool {
    !has_whitespace && has_upper && has_lower && has_digit && len >= MIN_KEY_LEN
}

/// Whether a text may serve as a secret key. Its length counts the bytes of its UTF-8 form.
pub open spec fn strong_secret_key(s: Seq<char>) -> bool {
    policy_met(
        contains_whitespace(s),
        contains_uppercase(s),
        contains_lowercase(s),
        contains_digit(s),
        encode_utf8(s).len(),
    )
}

/// The text of the error for a key that breaks the policy.
pub open spec fn weak_key_text() -> Seq<char> {
    "Password validation failed"@
}

/// The text of the error for a payload with an empty field.
pub open spec fn empty_field_text() -> Seq<char> {
    "Both encrypted_message and secret_key must be non-empty"@
}

/// Whether a message made of this content and key stays within [`MAX_SIZE`] once stored:
/// its stored form takes 21 bytes besides the two texts.
pub open spec fn payload_fits(p: PayloadView) -> bool {
    21 + encode_utf8(p.encrypted_message).len() + encode_utf8(p.secret_key).len() <= MAX_SIZE
}

/// The text of the first rule of the validation gate that the payload breaks, if any:
/// both fields non-empty, the key strong, the stored message within the size bound.
pub open spec fn validation_error(p: PayloadView) -> Option<Seq<char>> {
    if p.encrypted_message.len() == 0 || p.secret_key.len() == 0 {
        Some(empty_field_text())
    } else if !strong_secret_key(p.secret_key) {
        Some(weak_key_text())
    } else if !payload_fits(p) {
        Some(too_large_text())
    } else {
        None
    }
}

/// Whether `c` is one of the ten digits `0` to `9`.
pub fn is_decimal_digit(c: char) -> (r: bool)
    ensures
        r == decimal_digit(c),
{
    '0' <= c && c <= '9'
}

/// Judges a key by what a scan of it found.
pub fn secret_key_verdict(
    has_whitespace: bool,
    has_upper: bool,
    has_lower: bool,
    has_digit: bool,
    len: usize,
) -> (r: Result<(), Error>)
    ensures
        match r {
            Ok(()) => policy_met(has_whitespace, has_upper, has_lower, has_digit, len as nat),
            Err(Error::InvalidInput { msg }) => !policy_met(
                has_whitespace,
                has_upper,
                has_lower,
                has_digit,
                len as nat,
            ) && msg@ == weak_key_text(),
            Err(_) => false,
        },
{
    if !has_whitespace && has_upper && has_lower && has_digit && len >= MIN_KEY_LEN {
        Ok(())
    } else {
        Err(Error::InvalidInput { msg: "Password validation failed".to_string() })
    }
}

/// Checks that a secret key holds no whitespace, at least one uppercase letter, one
/// lowercase letter and one digit, and is at least [`MIN_KEY_LEN`] bytes long.
pub fn _validate_secret_key(password: &str) -> (r: Result<(), Error>)
    ensures
        match r {
            Ok(()) => strong_secret_key(password@),
            Err(Error::InvalidInput { msg }) => !strong_secret_key(password@) && msg@
                == weak_key_text(),
            Err(_) => false,
        },
{
    broadcast use vstd::string::group_string_axioms;

    let mut has_whitespace = false;
    let mut has_upper = false;
    let mut has_lower = false;
    let mut has_digit = false;

    for c in it: password.chars()
        invariant
            it.seq() == password@,
            has_whitespace == (exists|i: int|
                0 <= i < it.index() && unicode_whitespace(password@[i])),
            has_lower == (exists|i: int| 0 <= i < it.index() && unicode_lowercase(password@[i])),
            has_upper == (exists|i: int| 0 <= i < it.index() && unicode_uppercase(password@[i])),
            has_digit == (exists|i: int| 0 <= i < it.index() && decimal_digit(password@[i])),
    {
        has_whitespace = has_whitespace || c.is_whitespace();
        has_lower = has_lower || c.is_lowercase();
        has_upper = has_upper || c.is_uppercase();
        has_digit = has_digit || is_decimal_digit(c);
    }
    secret_key_verdict(has_whitespace, has_upper, has_lower, has_digit, password.as_bytes().len())
}

/// The validation gate: both fields non-empty, the key strong, the stored message within
/// the size bound. The first rule broken gives the error.
pub fn validate(payload: &SecretMessagePayload) -> (r: Result<(), Error>)
    ensures
        match r {
            Ok(()) => validation_error(payload@) is None,
            Err(Error::InvalidInput { msg }) => validation_error(payload@) == Some(msg@),
            Err(_) => false,
        },
{
    if payload.encrypted_message.as_str().is_empty() || payload.secret_key.as_str().is_empty() {
        return Err(
            Error::InvalidInput {
                msg: "Both encrypted_message and secret_key must be non-empty".to_string(),
            },
        );
    }
    _validate_secret_key(payload.secret_key.as_str())?;
    let content_len = payload.encrypted_message.as_str().as_bytes().len();
    let key_len = payload.secret_key.as_str().as_bytes().len();
    if content_len > MAX_SIZE - 21 || key_len > MAX_SIZE - 21 - content_len {
        return Err(
            Error::InvalidInput { msg: "The message does not fit into 1024 bytes".to_string() },
        );
    }
    Ok(())
}

} // verus!
