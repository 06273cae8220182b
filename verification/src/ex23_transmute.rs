//! Conversions that are often written with `transmute`, done by checked
//! matches and explicit byte layouts: status codes to an enum, a packet
//! header to and from bytes, optional callbacks, and integer reinterpretation.

use vstd::prelude::*;
use vstd::std_specs::convert::TryFromSpecImpl;

verus! {

/// Status codes of a C API.
#[derive(Debug, Clone, Copy, PartialEq, Eq, Structural)]
pub enum Status {
    Success,
    NotFound,
    PermissionDenied,
    IoError,
}

/// The C code of a status: 0, -1, -2, -3.
pub open spec fn status_code(s: Status) -> i32 {
    match s {
        Status::Success => 0i32,
        Status::NotFound => -1i32,
        Status::PermissionDenied => -2i32,
        Status::IoError => -3i32,
    }
}

/// The status of a code, or the code itself when it is not one.
pub open spec fn status_of(code: i32) -> Result<Status, i32> {
    if code == 0 {
        Ok(Status::Success)
    } else if code == -1 {
        Ok(Status::NotFound)
    } else if code == -2 {
        Ok(Status::PermissionDenied)
    } else if code == -3 {
        Ok(Status::IoError)
    } else {
        Err(code)
    }
}

impl Status {
    /// The C code of this status.
    pub fn code(&self) -> (r: i32)
        ensures
            r == status_code(*self),
    {
        match self {
            Status::Success => 0,
            Status::NotFound => -1,
            Status::PermissionDenied => -2,
            Status::IoError => -3,
        }
    }
}

/// The status of `code`; the caller guarantees it is one of 0, -1, -2, -3.
pub fn status_from_int_transmute(code: i32) -> (r: Status)
    requires
        -3 <= code <= 0,
    ensures
        status_code(r) == code,
{
    if code == 0 {
        Status::Success
    } else if code == -1 {
        Status::NotFound
    } else if code == -2 {
        Status::PermissionDenied
    } else {
        Status::IoError
    }
}

/// The status of `code`, or `Err(code)` for an unknown code.
pub fn status_from_int_safe(code: i32) -> (r: Result<Status, i32>)
    ensures
        r == status_of(code),
{
    if code == 0 {
        Ok(Status::Success)
    } else if code == -1 {
        Ok(Status::NotFound)
    } else if code == -2 {
        Ok(Status::PermissionDenied)
    } else if code == -3 {
        Ok(Status::IoError)
    } else {
        Err(code)
    }
}

impl TryFrom<i32> for Status {
    type Error = i32;

    fn try_from(code: i32) -> (r: Result<Self, i32>) {
        status_from_int_safe(code)
    }
}

impl TryFromSpecImpl<i32> for Status {
    open spec fn obeys_try_from_spec() -> bool {
        true
    }

    open spec fn try_from_spec(code: i32) -> Result<Self, i32> {
        status_of(code)
    }
}

/// Every status code converts back to its status.
pub proof fn law_status_code_roundtrip(s: Status)
    ensures
        status_of(status_code(s)) == Ok::<Status, i32>(s),
{
}

/// A network packet header.
#[derive(Debug, Clone, Copy, PartialEq, Eq, Structural)]
pub struct PacketHeader {
    pub magic: u16,
    pub version: u8,
    pub msg_type: u8,
    pub length: u32,
}

/// Size of an encoded header in bytes.
pub const PACKET_HEADER_LEN: usize = 8;

/// The in-memory bytes of a header: `magic` (2 bytes), `version`,
/// `msg_type`, and `length` (4 bytes), each multi-byte field least
/// significant byte first when `little_endian`, most significant first
/// otherwise.
pub open spec fn packet_bytes(h: PacketHeader, little_endian: bool) -> Seq<u8> {
    if little_endian {
        seq![
            (h.magic % 256) as u8,
            (h.magic / 256) as u8,
            h.version,
            h.msg_type,
            (h.length % 256) as u8,
            ((h.length / 256) % 256) as u8,
            ((h.length / 65536) % 256) as u8,
            (h.length / 16777216) as u8,
        ]
    } else {
        seq![
            (h.magic / 256) as u8,
            (h.magic % 256) as u8,
            h.version,
            h.msg_type,
            (h.length / 16777216) as u8,
            ((h.length / 65536) % 256) as u8,
            ((h.length / 256) % 256) as u8,
            (h.length % 256) as u8,
        ]
    }
}

/// The header that the first eight bytes of `b` hold, in the given byte
/// order.
pub open spec fn packet_of_bytes(b: Seq<u8>, little_endian: bool) -> PacketHeader {
    if little_endian {
        PacketHeader {
            magic: (b[0] + 256 * b[1]) as u16,
            version: b[2],
            msg_type: b[3],
            length: (b[4] + 256 * b[5] + 65536 * b[6] + 16777216 * b[7]) as u32,
        }
    } else {
        PacketHeader {
            magic: (256 * b[0] + b[1]) as u16,
            version: b[2],
            msg_type: b[3],
            length: (16777216 * b[4] + 65536 * b[5] + 256 * b[6] + b[7]) as u32,
        }
    }
}

/// The bytes of the number 1 as a `u16` in the machine's byte order.
///
/// Trusted: `u16::to_ne_bytes` of std, which gives the little-endian bytes
/// `[1, 0]` or the big-endian bytes `[0, 1]` depending on the target; which
/// one is left open.
#[verifier::external_body]
fn native_bytes_of_one() -> (r: [u8; 2])
    ensures
        (r[0] == 1 && r[1] == 0) || (r[0] == 0 && r[1] == 1),
{
    1u16.to_ne_bytes()
}

/// Whether the machine stores multi-byte integers least significant byte
/// first; which answer comes back depends on the target.
fn native_little_endian() -> bool {
    let b = native_bytes_of_one();
    b[0] == 1
}

/// The bytes of `header` in the given byte order.
pub fn encode_packet(header: &PacketHeader, little_endian: bool) -> (r: Vec<u8>)
    ensures
        r@ == packet_bytes(*header, little_endian),
{
    let m = header.magic;
    let l = header.length;
    let mut v: Vec<u8> = Vec::new();
    if little_endian {
        v.push((m % 256) as u8);
        v.push((m / 256) as u8);
        v.push(header.version);
        v.push(header.msg_type);
        v.push((l % 256) as u8);
        v.push(((l / 256) % 256) as u8);
        v.push(((l / 65536) % 256) as u8);
        v.push((l / 16777216) as u8);
    } else {
        v.push((m / 256) as u8);
        v.push((m % 256) as u8);
        v.push(header.version);
        v.push(header.msg_type);
        v.push((l / 16777216) as u8);
        v.push(((l / 65536) % 256) as u8);
        v.push(((l / 256) % 256) as u8);
        v.push((l % 256) as u8);
    }
    assert(v@ =~= packet_bytes(*header, little_endian));
    v
}

/// The header in the first eight bytes of `bytes`, in the given byte order.
pub fn decode_packet(bytes: &[u8], little_endian: bool) -> (r: PacketHeader)
    requires
        bytes@.len() >= PACKET_HEADER_LEN,
    ensures
        r == packet_of_bytes(bytes@, little_endian),
{
    if little_endian {
        let magic: u16 = (bytes[0] as u16) + 256 * (bytes[1] as u16);
        let length: u32 = (bytes[4] as u32) + 256 * (bytes[5] as u32) + 65536 * (bytes[6] as u32)
            + 16777216 * (bytes[7] as u32);
        PacketHeader { magic, version: bytes[2], msg_type: bytes[3], length }
    } else {
        let magic: u16 = 256 * (bytes[0] as u16) + (bytes[1] as u16);
        let length: u32 = 16777216 * (bytes[4] as u32) + 65536 * (bytes[5] as u32) + 256 * (bytes[6] as u32)
            + (bytes[7] as u32);
        PacketHeader { magic, version: bytes[2], msg_type: bytes[3], length }
    }
}

/// The in-memory bytes of `header`, in the machine's byte order.
pub fn packet_to_bytes(header: &PacketHeader) -> (r: Vec<u8>)
    ensures
        r@ == packet_bytes(*header, true) || r@ == packet_bytes(*header, false),
{
    let little = native_little_endian();
    encode_packet(header, little)
}

/// The header in the first eight bytes, read in the machine's byte order,
/// or `None` when there are fewer.
pub fn packet_from_bytes_safe(bytes: &[u8]) -> (r: Option<PacketHeader>)
    ensures
        bytes@.len() < PACKET_HEADER_LEN ==> r is None,
        bytes@.len() >= PACKET_HEADER_LEN ==> (r == Some(packet_of_bytes(bytes@, true)) || r == Some(
            packet_of_bytes(bytes@, false),
        )),
{
    if bytes.len() < PACKET_HEADER_LEN {
        None
    } else {
        let little = native_little_endian();
        Some(decode_packet(bytes, little))
    }
}

/// The header in `bytes`, which must be exactly one encoded header long,
/// read in the machine's byte order; `None` otherwise.
pub fn packet_from_bytes_transmute(bytes: &[u8]) -> (r: Option<PacketHeader>)
    ensures
        bytes@.len() != PACKET_HEADER_LEN ==> r is None,
        bytes@.len() == PACKET_HEADER_LEN ==> (r == Some(packet_of_bytes(bytes@, true)) || r == Some(
            packet_of_bytes(bytes@, false),
        )),
{
    if bytes.len() != PACKET_HEADER_LEN {
        None
    } else {
        let little = native_little_endian();
        Some(decode_packet(bytes, little))
    }
}

/// Decoding the encoding of a header in one byte order gives the header
/// back.
pub proof fn law_packet_roundtrip(h: PacketHeader, little_endian: bool)
    ensures
        packet_bytes(h, little_endian).len() == PACKET_HEADER_LEN,
        packet_of_bytes(packet_bytes(h, little_endian), little_endian) == h,
{
    let b = packet_bytes(h, little_endian);
    if little_endian {
        assert(b[0] + 256 * b[1] == h.magic);
        assert(b[4] + 256 * b[5] + 65536 * b[6] + 16777216 * b[7] == h.length);
    } else {
        assert(256 * b[0] + b[1] == h.magic);
        assert(16777216 * b[4] + 65536 * b[5] + 256 * b[6] + b[7] == h.length);
    }
}

/// `cb(arg)` when there is a callback, `None` otherwise.
pub fn invoke_optional_callback<F: Fn(i32) -> i32>(cb: Option<F>, arg: i32) -> (r: Option<i32>)
    requires
        cb matches Some(f) ==> call_requires(f, (arg,)),
    ensures
        cb is None ==> r is None,
        cb matches Some(f) ==> (r matches Some(v) && call_ensures(f, (arg,), v)),
{
    match cb {
        Some(f) => Some(f(arg)),
        None => None,
    }
}

/// The `u32` with the same bits as `x` (two's complement).
pub fn i32_to_u32(x: i32) -> (r: u32)
    ensures
        r == (if x >= 0 { x as int } else { x + 0x1_0000_0000 }),
{
    if x >= 0 {
        x as u32
    } else {
        let w: i64 = (x as i64) + 0x1_0000_0000i64;
        w as u32
    }
}

} // verus!
