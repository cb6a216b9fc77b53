use phc_value::ParseError;
use phc_value::Value;

// Invalid value examples
const INVALID_CHAR: &str = "x;y";
const INVALID_TOO_LONG: &str = "0123456789112345678921234567893123456789412345678";
const INVALID_CHAR_AND_TOO_LONG: &str = "0!23456789112345678921234567893123456789412345678";

//
// Decimal parsing tests
//

#[test]
fn decimal_value() {
    let valid_decimals = &[("0", 0u32), ("1", 1u32), ("4294967295", u32::MAX)];

    for &(s, i) in valid_decimals {
        let value = Value::new(s).unwrap();
        assert!(value.is_decimal());
        assert_eq!(value.decimal().unwrap(), i)
    }
}

#[test]
fn reject_decimal_with_leading_zero() {
    let value = Value::new("01").unwrap();
    let err = value.decimal().err().unwrap();
    assert!(matches!(err, ParseError::InvalidChar('0')));
}

#[test]
fn reject_overlong_decimal() {
    let value = Value::new("4294967296").unwrap();
    let err = value.decimal().err().unwrap();
    assert_eq!(err, ParseError::TooLong);
}

#[test]
fn reject_negative() {
    let value = Value::new("-1").unwrap();
    let err = value.decimal().err().unwrap();
    assert!(matches!(err, ParseError::InvalidChar('-')));
}

#[test]
fn reject_empty_decimal() {
    let value = Value::new("").unwrap();
    let err = value.decimal().err().unwrap();
    assert_eq!(err, ParseError::Empty);
}

//
// String parsing tests
//

#[test]
fn string_value() {
    let valid_examples = [
        "",
        "X",
        "x",
        "xXx",
        "a+b.c-d",
        "1/2",
        "01234567891123456789212345678931",
    ];

    for &example in &valid_examples {
        let value = Value::new(example).unwrap();
        assert_eq!(value.as_str(), example);
    }
}

#[test]
fn reject_invalid_char() {
    let err = Value::new(INVALID_CHAR).err().unwrap();
    assert!(matches!(err, ParseError::InvalidChar(';')));
}

#[test]
fn reject_too_long() {
    let err = Value::new(INVALID_TOO_LONG).err().unwrap();
    assert_eq!(err, ParseError::TooLong);
}

#[test]
fn reject_invalid_char_and_too_long() {
    let err = Value::new(INVALID_CHAR_AND_TOO_LONG).err().unwrap();
    assert_eq!(err, ParseError::TooLong);
}

#[test]
fn max_length_is_forty_eight() {
    assert_eq!(Value::max_len(), 48);
    assert_eq!(phc_value::MAX_LENGTH, 48);
    let at_limit = "012345678911234567892123456789312345678941234567";
    assert_eq!(at_limit.len(), 48);
    assert!(Value::new(at_limit).is_ok());
}

#[test]
fn accessors_project_the_span() {
    let value = Value::new("a+b.c-d").unwrap();
    assert_eq!(value.len(), 7);
    assert!(!value.is_empty());
    assert_eq!(value.as_bytes(), b"a+b.c-d");
    assert!(!value.is_decimal());

    let empty = Value::new("").unwrap();
    assert_eq!(empty.len(), 0);
    assert!(empty.is_empty());
    assert_eq!(empty.as_str(), "");
}

#[test]
fn length_precedence_over_character_validity() {
    // 51 characters drawn from the alphabet alone: rejected for length.
    let all_alphabet = "abcdefghijklmnopqrstuvwxyzABCDEFGHIJKLMNOPQRS/+.-01";
    assert_eq!(all_alphabet.len(), 51);
    assert_eq!(Value::new(all_alphabet).err().unwrap(), ParseError::TooLong);

    // 51 characters with a disallowed '!' as well: still rejected for length.
    let with_bang = "abcdefghijklmnopqrstuvwxyzABCDEFGHIJKLMNOPQRS/+.!01";
    assert_eq!(with_bang.len(), 51);
    assert_eq!(Value::new(with_bang).err().unwrap(), ParseError::TooLong);
}

#[test]
fn repeated_calls_agree() {
    let value = Value::new("4294967295").unwrap();
    assert_eq!(value.as_str(), value.as_str());
    assert_eq!(value.as_bytes(), value.as_bytes());
    assert_eq!(value.len(), value.len());
    assert_eq!(value.is_empty(), value.is_empty());
    assert_eq!(value.decimal(), value.decimal());
    assert_eq!(value.is_decimal(), value.is_decimal());
}

#[test]
fn first_invalid_character_is_reported() {
    let err = Value::new("ab?cd;e").err().unwrap();
    assert!(matches!(err, ParseError::InvalidChar('?')));
}

#[test]
fn character_validator() {
    for c in ('A'..='Z').chain('a'..='z').chain('0'..='9') {
        assert!(phc_value::is_char_valid(c));
    }
    for c in ['/', '+', '.', '-'] {
        assert!(phc_value::is_char_valid(c));
    }
    for c in [';', '!', ' ', '=', '$', '\u{e9}'] {
        assert!(!phc_value::is_char_valid(c));
    }
}
