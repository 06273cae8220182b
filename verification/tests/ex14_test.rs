use rust_ffi_exercises::ex14_panic_safety::{safe_count_colons, safe_divide};

#[test]
fn test_ex14_safe_divide_ok() {
    let code = safe_divide(10, 3, false);
    assert_eq!(code, Ok(3));
}

#[test]
fn test_ex14_safe_divide_zero() {
    let code = safe_divide(10, 0, false);
    assert_eq!(code, Err(-2));
}

#[test]
fn test_ex14_safe_divide_null() {
    let code = safe_divide(10, 3, true);
    assert_eq!(code, Err(-1));
}

#[test]
fn test_ex14_safe_divide_overflow() {
    // i32::MIN / -1 overflows; it is reported, not a crash.
    let code = safe_divide(i32::MIN, -1, false);
    assert!(code == Err(-3) || code.is_ok());
}

#[test]
fn test_ex14_count_colons_ok() {
    let json = r#"{"a": 1, "b": 2, "c": 3}"#;
    let count = safe_count_colons(Some(json.as_bytes()));
    assert_eq!(count, 3);
}

#[test]
fn test_ex14_count_colons_null() {
    let count = safe_count_colons(None);
    assert_eq!(count, -1);
}

#[test]
fn test_ex14_count_colons_empty() {
    let count = safe_count_colons(Some(b""));
    assert_eq!(count, 0);
}

#[test]
fn divide_truncates_toward_zero() {
    assert_eq!(safe_divide(-7, 2, false), Ok(-3));
    assert_eq!(safe_divide(7, -2, false), Ok(-3));
    assert_eq!(safe_divide(i32::MIN, 1, false), Ok(i32::MIN));
    assert_eq!(safe_divide(i32::MIN, -1, false), Err(-3));
}

#[test]
fn count_colons_nested_and_errors() {
    assert_eq!(safe_count_colons(Some(br#"{"a": {"b": 1}, "c": [1, {"d": 2}]}"#)), 2);
    assert_eq!(safe_count_colons(Some(b"}")), -3);
    assert_eq!(safe_count_colons(Some(&[0xff])), -2);
    assert_eq!(safe_count_colons(Some(b"a:b")), 0);
}
