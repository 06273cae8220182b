use rust_ffi_exercises::ex26_cpp_exceptions::{
    check, exception_from_buffers, make_cstring, CppException, CPP_EX_ERR_DOMAIN, CPP_EX_ERR_INVALID, CPP_EX_OK,
};

#[test]
fn exception_display_format() {
    let e = CppException {
        message: "division by zero".to_string(),
        exception_type: "std::domain_error".to_string(),
        code: CPP_EX_ERR_DOMAIN,
    };
    let s = e.describe();
    assert!(s.contains("C++ exception"), "display = {s}");
    assert!(s.contains("division by zero"), "display = {s}");
    assert_eq!(s, "C++ exception [std::domain_error] (code -1): division by zero");
}

#[test]
fn check_passes_only_success() {
    assert_eq!(check(CPP_EX_OK), Ok(()));
    assert_eq!(check(-99), Err(-99));
    assert_eq!(check(5), Err(5));
}

#[test]
fn buffers_are_read_up_to_the_first_nul() {
    let mut msg = [0u8; 32];
    msg[..5].copy_from_slice(b"oops!");
    msg[6] = b'x'; // after the terminator: ignored
    let mut ty = [0u8; 16];
    ty[..3].copy_from_slice(b"int");
    let e = exception_from_buffers(&msg, &ty, -99);
    assert_eq!(e.message, "oops!");
    assert_eq!(e.exception_type, "int");
    assert_eq!(e.code, -99);
}

#[test]
fn empty_buffers_give_empty_texts() {
    let e = exception_from_buffers(&[0u8; 4], &[], 0);
    assert!(e.message.is_empty());
    assert!(e.exception_type.is_empty());
    // A buffer without a terminator is read whole.
    let e = exception_from_buffers(b"abc", b"T", 1);
    assert_eq!(e.message, "abc");
    assert_eq!(e.exception_type, "T");
}

#[test]
fn ill_formed_utf8_is_replaced() {
    let e = exception_from_buffers(&[b'a', 0xff, b'b', 0], &[0xc3, 0xa9, 0], 2);
    assert_eq!(e.message, "a\u{fffd}b");
    assert_eq!(e.exception_type, "é");
}

#[test]
fn make_cstring_appends_terminator_or_refuses_nul() {
    assert_eq!(make_cstring("hi").unwrap(), b"hi\0".to_vec());
    assert_eq!(make_cstring("").unwrap(), vec![0u8]);
    let e = make_cstring("a\0b").unwrap_err();
    assert_eq!(e.message, "interior NUL byte");
    assert_eq!(e.exception_type, "Rust");
    assert_eq!(e.code, CPP_EX_ERR_INVALID);
}
