use rust_ffi_exercises::ex15_miri_ub::{
    fixed1_dangling_vec_pointer, fixed2_aliased_mutable_refs, fixed3_read_uninit, fixed4_oob_access,
    fixed5_use_after_free, fixed6_shared_to_mut, fixed7_stacked_borrows_violation, fixed8_unaligned_read,
};

#[test]
fn test_ex15_fixed1() {
    assert_eq!(fixed1_dangling_vec_pointer(), 3); // 1 + 2
}

#[test]
fn test_ex15_fixed2() {
    assert_eq!(fixed2_aliased_mutable_refs(), (11, 13));
}

#[test]
fn test_ex15_fixed3() {
    let val = fixed3_read_uninit();
    assert_eq!(val, val);
}

#[test]
fn test_ex15_fixed4() {
    assert_eq!(fixed4_oob_access(), 60); // 10 + 20 + 30
}

#[test]
fn test_ex15_fixed5() {
    assert_eq!(fixed5_use_after_free(), 42);
}

#[test]
fn test_ex15_fixed6() {
    let val = 10;
    // Fixed version should return val + 1 = 11 (or work on a copy)
    assert_eq!(fixed6_shared_to_mut(&val), 11);
}

#[test]
fn test_ex15_fixed7() {
    assert_eq!(fixed7_stacked_borrows_violation(), [11, 20]);
}

/// What the unaligned read should produce.
fn bug8_expected_value() -> u32 {
    let data: [u8; 8] = [0x01, 0x02, 0x03, 0x04, 0x05, 0x06, 0x07, 0x08];
    let mut bytes = [0u8; 4];
    bytes.copy_from_slice(&data[1..5]);
    u32::from_ne_bytes(bytes)
}

#[test]
fn test_ex15_fixed8() {
    // Same bytes read from offset 1, just done safely.
    let result = fixed8_unaligned_read();
    let expected = bug8_expected_value();
    assert_eq!(result, expected);
}

#[test]
fn fixed3_value_and_fixed6_leaves_input() {
    assert_eq!(fixed3_read_uninit(), 42);
    let v = -1;
    assert_eq!(fixed6_shared_to_mut(&v), 0);
    assert_eq!(v, -1);
}

#[test]
fn fixed8_is_a_byte_order_reading() {
    let r = fixed8_unaligned_read();
    assert!(r == 0x0504_0302 || r == 0x0203_0405);
    assert_ne!(r, 0x0102_0304);
}
