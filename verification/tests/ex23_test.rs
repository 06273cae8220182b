use rust_ffi_exercises::ex23_transmute::{
    decode_packet, encode_packet, i32_to_u32, invoke_optional_callback, packet_from_bytes_safe, packet_from_bytes_transmute, packet_to_bytes,
    status_from_int_safe, status_from_int_transmute, PacketHeader, Status, PACKET_HEADER_LEN,
};

fn add_ten(x: i32) -> i32 {
    x + 10
}

#[test]
fn test_ex23_invoke_optional_some() {
    let result = invoke_optional_callback(Some(add_ten), 7);
    assert_eq!(result, Some(17));
}

#[test]
fn test_ex23_invoke_optional_none() {
    let result = invoke_optional_callback(None::<fn(i32) -> i32>, 7);
    assert_eq!(result, None);
}

#[test]
fn test_ex23_status_transmute_valid() {
    assert_eq!(status_from_int_transmute(0), Status::Success);
    assert_eq!(status_from_int_transmute(-1), Status::NotFound);
    assert_eq!(status_from_int_transmute(-2), Status::PermissionDenied);
    assert_eq!(status_from_int_transmute(-3), Status::IoError);
}

#[test]
fn test_ex23_status_safe_valid() {
    assert_eq!(status_from_int_safe(0), Ok(Status::Success));
    assert_eq!(status_from_int_safe(-1), Ok(Status::NotFound));
    assert_eq!(status_from_int_safe(-3), Ok(Status::IoError));
}

#[test]
fn test_ex23_status_safe_invalid() {
    assert_eq!(status_from_int_safe(42), Err(42));
    assert_eq!(status_from_int_safe(-99), Err(-99));
}

#[test]
fn test_ex23_status_try_from() {
    assert_eq!(Status::try_from(0), Ok(Status::Success));
    assert_eq!(Status::try_from(-2), Ok(Status::PermissionDenied));
    assert!(Status::try_from(999).is_err());
}

#[test]
fn test_ex23_packet_roundtrip_transmute() {
    let header = PacketHeader { magic: 0xCAFE, version: 1, msg_type: 42, length: 1024 };
    let bytes = packet_to_bytes(&header);
    assert_eq!(bytes.len(), PACKET_HEADER_LEN);
    let recovered = packet_from_bytes_transmute(&bytes);
    assert_eq!(recovered, Some(header));
}

#[test]
fn test_ex23_packet_roundtrip_safe() {
    let header = PacketHeader { magic: 0xBEEF, version: 2, msg_type: 7, length: 512 };
    let bytes = packet_to_bytes(&header);
    let recovered = packet_from_bytes_safe(&bytes);
    assert_eq!(recovered, Some(header));
}

#[test]
fn test_ex23_packet_too_short() {
    let short = [0u8; 2];
    assert_eq!(packet_from_bytes_transmute(&short), None);
    assert_eq!(packet_from_bytes_safe(&short), None);
}

#[test]
fn test_ex23_packet_to_bytes_content() {
    let header = PacketHeader { magic: 0x0102, version: 3, msg_type: 4, length: 0x05060708 };
    let bytes = packet_to_bytes(&header);
    // Verify we can read back the exact same fields.
    let h2 = packet_from_bytes_safe(&bytes).unwrap();
    let magic = h2.magic;
    assert_eq!(magic, 0x0102);
    assert_eq!(h2.version, 3);
    assert_eq!(h2.msg_type, 4);
    let length = h2.length;
    assert_eq!(length, 0x05060708);
}

#[test]
fn test_ex23_i32_to_u32() {
    assert_eq!(i32_to_u32(0), 0u32);
    assert_eq!(i32_to_u32(-1), u32::MAX); // two's complement
    assert_eq!(i32_to_u32(42), 42u32);
}

#[test]
fn packet_byte_layouts() {
    let header = PacketHeader { magic: 0x0102, version: 3, msg_type: 4, length: 0x05060708 };
    let le = encode_packet(&header, true);
    let be = encode_packet(&header, false);
    assert_eq!(le, vec![0x02, 0x01, 3, 4, 0x08, 0x07, 0x06, 0x05]);
    assert_eq!(be, vec![0x01, 0x02, 3, 4, 0x05, 0x06, 0x07, 0x08]);
    assert_eq!(decode_packet(&le, true), header);
    assert_eq!(decode_packet(&be, false), header);
    assert_ne!(decode_packet(&le, false), header);
}

#[test]
fn packet_uses_the_machine_byte_order() {
    let header = PacketHeader { magic: 0x0102, version: 3, msg_type: 4, length: 0x05060708 };
    let little = u16::from_ne_bytes([1, 0]) == 1;
    let mut expected = Vec::new();
    expected.extend_from_slice(&header.magic.to_ne_bytes());
    expected.push(3);
    expected.push(4);
    expected.extend_from_slice(&header.length.to_ne_bytes());
    assert_eq!(packet_to_bytes(&header), expected);
    assert_eq!(packet_to_bytes(&header), encode_packet(&header, little));
    let mut longer = packet_to_bytes(&header);
    longer.push(0xff);
    assert_eq!(packet_from_bytes_safe(&longer), Some(header));
    assert_eq!(packet_from_bytes_transmute(&longer), None);
}

#[test]
fn status_codes_round_trip() {
    for s in [Status::Success, Status::NotFound, Status::PermissionDenied, Status::IoError] {
        assert_eq!(status_from_int_safe(s.code()), Ok(s));
    }
    assert_eq!(Status::try_from(-4), Err(-4));
    assert_eq!(i32_to_u32(i32::MIN), 0x8000_0000);
}
