use rust_ffi_exercises::text::i64_to_string;
use rust_ffi_exercises::ex09_errors::{
    ffi_clear_error, ffi_divide, ffi_last_error, ffi_parse_int, parse_i64, IntErrorKind, LastError, FFI_ERR_NULL,
    FFI_ERR_OVERFLOW, FFI_ERR_UNKNOWN, FFI_ERR_UTF8,
};

#[test]
fn test_ex09_divide_ok() {
    let mut last = LastError::new();
    let code = ffi_divide(&mut last, 10, 3, false);
    assert_eq!(code, Ok(3)); // integer division
}

#[test]
fn test_ex09_divide_by_zero() {
    let mut last = LastError::new();
    let code = ffi_divide(&mut last, 10, 0, false);
    assert!(code.unwrap_err() < 0);
    let msg = ffi_last_error(&last);
    assert!(msg.is_some());
    let s = msg.unwrap();
    assert!(s.contains("zero") || s.contains("Zero"), "error message should mention zero, got: {s}");
}

#[test]
fn test_ex09_divide_null_out() {
    let mut last = LastError::new();
    let code = ffi_divide(&mut last, 1, 1, true);
    assert!(code.unwrap_err() < 0);
}

#[test]
fn test_ex09_parse_int_ok() {
    let mut last = LastError::new();
    let code = ffi_parse_int(&mut last, Some(b"42"), false);
    assert_eq!(code, Ok(42));
}

#[test]
fn test_ex09_parse_int_negative() {
    let mut last = LastError::new();
    let code = ffi_parse_int(&mut last, Some(b"-7"), false);
    assert_eq!(code, Ok(-7));
}

#[test]
fn test_ex09_parse_int_invalid() {
    let mut last = LastError::new();
    let code = ffi_parse_int(&mut last, Some(b"not_a_number"), false);
    assert!(code.unwrap_err() < 0);
    assert!(ffi_last_error(&last).is_some());
}

#[test]
fn test_ex09_parse_int_null() {
    let mut last = LastError::new();
    let code = ffi_parse_int(&mut last, None, false);
    assert!(code.unwrap_err() < 0);
}

#[test]
fn test_ex09_clear_error() {
    let mut last = LastError::new();
    // Force an error
    let code = ffi_divide(&mut last, 1, 0, false);
    assert!(code.unwrap_err() < 0);
    assert!(ffi_last_error(&last).is_some());
    // Clear it
    ffi_clear_error(&mut last);
    assert!(ffi_last_error(&last).is_none());
}

#[test]
fn divide_error_codes_and_messages() {
    let mut last = LastError::new();
    assert_eq!(ffi_divide(&mut last, 10, 0, false), Err(FFI_ERR_OVERFLOW));
    assert_eq!(ffi_last_error(&last).unwrap(), "division by zero");
    assert_eq!(ffi_divide(&mut last, 1, 1, true), Err(FFI_ERR_NULL));
    assert_eq!(ffi_last_error(&last).unwrap(), "output pointer is null");
    assert_eq!(ffi_divide(&mut last, i32::MIN, -1, false), Err(FFI_ERR_OVERFLOW));
    assert_eq!(ffi_divide(&mut last, -7, 2, false), Ok(-3));
}

#[test]
fn parse_int_error_codes() {
    let mut last = LastError::new();
    assert_eq!(ffi_parse_int(&mut last, None, false), Err(FFI_ERR_NULL));
    assert_eq!(ffi_parse_int(&mut last, Some(b"1"), true), Err(FFI_ERR_NULL));
    assert_eq!(ffi_parse_int(&mut last, Some(&[0xff, 0x31]), false), Err(FFI_ERR_UTF8));
    assert_eq!(ffi_parse_int(&mut last, Some(b"12x"), false), Err(FFI_ERR_UNKNOWN));
    assert_eq!(ffi_last_error(&last).unwrap(), "invalid digit found in string");
}

#[test]
fn parse_i64_matches_std() {
    for s in ["0", "+5", "-0", "9223372036854775807", "-9223372036854775808", "007"] {
        assert_eq!(parse_i64(s), Ok(s.parse::<i64>().unwrap()), "{s}");
    }
    assert_eq!(parse_i64(""), Err(IntErrorKind::Empty));
    assert_eq!(parse_i64("-"), Err(IntErrorKind::InvalidDigit));
    assert_eq!(parse_i64("+"), Err(IntErrorKind::InvalidDigit));
    assert_eq!(parse_i64(" 1"), Err(IntErrorKind::InvalidDigit));
    assert_eq!(parse_i64("9223372036854775808"), Err(IntErrorKind::PosOverflow));
    assert_eq!(parse_i64("-9223372036854775809"), Err(IntErrorKind::NegOverflow));
}

#[test]
fn int_error_messages() {
    assert_eq!(IntErrorKind::Empty.message(), "cannot parse integer from empty string");
    assert_eq!(IntErrorKind::PosOverflow.message(), "number too large to fit in target type");
}

#[test]
fn parse_undoes_rendering() {
    for n in [0i64, 7, -7, 10, -100, 1234567890, i64::MAX, i64::MIN] {
        let text = i64_to_string(n);
        assert_eq!(text, n.to_string());
        assert_eq!(parse_i64(&text), Ok(n));
    }
}
