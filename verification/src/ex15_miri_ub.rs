//! Safe versions of classic undefined-behaviour patterns: each computes
//! what the faulty pattern meant to compute, without the fault.

use vstd::prelude::*;

verus! {

/// The sum of the first two elements of `[1, 2, 3]` after pushing 4, 5, 6,
/// read after all pushes are done.
pub fn fixed1_dangling_vec_pointer() -> (r: i32)
    ensures
        r == 3,
{
    let mut v: Vec<i32> = Vec::new();
    v.push(1);
    v.push(2);
    v.push(3);
    v.push(4);
    v.push(5);
    v.push(6);
    v[0] + v[1]
}

/// Adds 1 and then 2 to a value of 10 through one mutable borrow at a
/// time, reporting the value after each step.
pub fn fixed2_aliased_mutable_refs() -> (r: (i32, i32))
    ensures
        r == (11i32, 13i32),
{
    let mut value: i32 = 10;
    {
        let a = &mut value;
        *a = *a + 1;
    }
    let first = value;
    {
        let b = &mut value;
        *b = *b + 2;
    }
    (first, value)
}

/// Writes a known value into a fresh allocation before reading it back.
pub fn fixed3_read_uninit() -> (r: i32)
    ensures
        r == 42,
{
    let cell: Box<i32> = Box::new(42);
    *cell
}

/// The sum of all three elements of `[10, 20, 30]`, by in-bounds indices.
pub fn fixed4_oob_access() -> (r: i32)
    ensures
        r == 60,
{
    let data: [i32; 3] = [10, 20, 30];
    data[0] + data[1] + data[2]
}

/// Reads a boxed 42 before the box is dropped.
pub fn fixed5_use_after_free() -> (r: i32)
    ensures
        r == 42,
{
    let v = {
        let b: Box<i32> = Box::new(42);
        *b
    };
    v
}

/// One more than `*value`, computed on a copy; the shared value is not
/// written.
pub fn fixed6_shared_to_mut(value: &i32) -> (r: i32)
    requires
        *value < i32::MAX,
    ensures
        r == *value + 1,
{
    let mut copy = *value;
    copy = copy + 1;
    copy
}

/// Writes 10 and 20 through a mutable borrow, then 11 into the first slot
/// through a fresh borrow.
pub fn fixed7_stacked_borrows_violation() -> (r: [i32; 2])
    ensures
        r@ == seq![11i32, 20i32],
{
    let mut array: [i32; 2] = [1, 2];
    array[0] = 10;
    array[1] = 20;
    array[0] = 11;
    assert(array@ =~= seq![11i32, 20i32]);
    array
}

/// The `u32` whose little-endian bytes are `b0, b1, b2, b3`.
pub open spec fn u32_from_le(b0: u8, b1: u8, b2: u8, b3: u8) -> int {
    b0 + 256 * b1 + 65536 * b2 + 16777216 * b3
}

/// The `u32` whose big-endian bytes are `b0, b1, b2, b3`.
pub open spec fn u32_from_be(b0: u8, b1: u8, b2: u8, b3: u8) -> int {
    u32_from_le(b3, b2, b1, b0)
}

/// The `u32` of four bytes in the machine's byte order.
///
/// Trusted: `u32::from_ne_bytes` of std, which is the little-endian or the
/// big-endian reading depending on the target; which one is left open.
#[verifier::external_body]
fn u32_from_native_bytes(b: [u8; 4]) -> (r: u32)
    ensures
        r == u32_from_le(b[0], b[1], b[2], b[3]) || r == u32_from_be(b[0], b[1], b[2], b[3]),
{
    u32::from_ne_bytes(b)
}

/// The four bytes at offset 1 of `[1, 2, ..., 8]`, copied out before they
/// are read as a `u32` in the machine's byte order.
pub fn fixed8_unaligned_read() -> (r: u32)
    ensures
        r == u32_from_le(2, 3, 4, 5) || r == u32_from_be(2, 3, 4, 5),
{
    let data: [u8; 8] = [0x01, 0x02, 0x03, 0x04, 0x05, 0x06, 0x07, 0x08];
    let bytes: [u8; 4] = [data[1], data[2], data[3], data[4]];
    u32_from_native_bytes(bytes)
}

} // verus!
