//! Buffers that cross the boundary: a zero-filled allocation, and an opaque
//! byte-buffer builder that is pushed to, appended to, read, and finally
//! consumed into its bytes.

use vstd::prelude::*;

verus! {

/// A zero-filled buffer of `size` bytes.
pub fn ffi_alloc_buffer(size: usize) -> (r: Vec<u8>)
    ensures
        r@.len() == size,
        forall|i: int| 0 <= i < size ==> r@[i] == 0,
{
    let mut v: Vec<u8> = Vec::new();
    let mut i: usize = 0;
    while i < size
        invariant
            i <= size,
            v@.len() == i,
            forall|j: int| 0 <= j < i ==> v@[j] == 0,
        decreases size - i,
    {
        v.push(0u8);
        i = i + 1;
    }
    v
}

/// A growable byte buffer behind an opaque handle.
pub struct ByteBuffer {
    data: Vec<u8>,
}

impl View for ByteBuffer {
    type V = Seq<u8>;

    closed spec fn view(&self) -> Seq<u8> {
        self.data@
    }
}

/// A new, empty builder.
pub fn byte_buffer_new() -> (r: ByteBuffer)
    ensures
        r@ == Seq::<u8>::empty(),
{
    ByteBuffer { data: Vec::new() }
}

/// Appends one byte.
pub fn byte_buffer_push(bb: &mut ByteBuffer, byte: u8)
    ensures
        final(bb)@ == old(bb)@.push(byte),
{
    bb.data.push(byte);
}

/// Appends the bytes of `data`.
pub fn byte_buffer_append(bb: &mut ByteBuffer, data: &[u8])
    ensures
        final(bb)@ == old(bb)@ + data@,
{
    let mut i: usize = 0;
    while i < data.len()
        invariant
            i <= data@.len(),
            bb@ == old(bb)@ + data@.take(i as int),
        decreases data@.len() - i,
    {
        bb.data.push(data[i]);
        assert(data@.take(i as int + 1) =~= data@.take(i as int).push(data@[i as int]));
        i = i + 1;
    }
    assert(data@.take(data@.len() as int) =~= data@);
}

/// Read-only access to the current bytes.
pub fn byte_buffer_data(bb: &ByteBuffer) -> (r: &[u8])
    ensures
        r@ == bb@,
{
    bb.data.as_slice()
}

/// Number of bytes held.
pub fn byte_buffer_len(bb: &ByteBuffer) -> (r: usize)
    ensures
        r == bb@.len(),
{
    bb.data.len()
}

/// Consumes the builder and hands out its bytes.
pub fn byte_buffer_finish(bb: ByteBuffer) -> (r: Vec<u8>)
    ensures
        r@ == bb@,
{
    bb.data
}

/// Pushing bytes one by one and appending them as a slice build the same
/// contents.
pub proof fn law_push_then_append(start: Seq<u8>, a: u8, more: Seq<u8>)
    ensures
        start.push(a) + more == start + (seq![a] + more),
{
    assert(start.push(a) + more =~= start + (seq![a] + more));
}

} // verus!
