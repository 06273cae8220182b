use rust_ffi_exercises::ex25_cpp_virtual::label_from_out_params;

#[test]
fn label_is_the_reported_prefix() {
    let mut buf = [0u8; 128];
    buf[..9].copy_from_slice(b"my-rect!!");
    assert_eq!(label_from_out_params(0, &buf, 7), "my-rect");
    assert_eq!(label_from_out_params(0, &buf, 0), "");
}

#[test]
fn label_error_status() {
    let buf = [b'x'; 4];
    assert_eq!(label_from_out_params(-1, &buf, 99), "<error>");
    assert_eq!(label_from_out_params(3, &buf, 2), "<error>");
}

#[test]
fn label_with_ill_formed_utf8() {
    let buf = [b'o', 0xc3, b'k'];
    assert_eq!(label_from_out_params(0, &buf, 3), "o\u{fffd}k");
    let buf = "Ñ".as_bytes();
    assert_eq!(label_from_out_params(0, buf, 2), "Ñ");
}
