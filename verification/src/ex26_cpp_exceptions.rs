//! Exceptions raised on the C++ side come back as a status code; the
//! details (message, exception type, code) are read from NUL-terminated
//! buffers the C++ side fills. This module holds the codes, the error
//! value built from those buffers, and its one-line description.

use vstd::prelude::*;
use crate::text::{int_to_decimal, push_i64, push_str, spec_utf8_lossy, utf8_lossy};

verus! {

pub const CPP_EX_OK: i32 = 0;
pub const CPP_EX_ERR_DOMAIN: i32 = -1;
pub const CPP_EX_ERR_INVALID: i32 = -2;
pub const CPP_EX_ERR_CUSTOM: i32 = -3;
pub const CPP_EX_ERR_UNKNOWN: i32 = -99;

/// What a C++ exception carried across the boundary.
#[derive(Debug, Clone)]
pub struct CppException {
    pub message: String,
    pub exception_type: String,
    pub code: i32,
}

/// The description of an exception:
/// `"C++ exception [TYPE] (code N): MESSAGE"`.
pub open spec fn exception_text(exception_type: Seq<char>, code: int, message: Seq<char>) -> Seq<char> {
    "C++ exception ["@ + exception_type + "] (code "@ + int_to_decimal(code) + "): "@ + message
}

impl CppException {
    /// The one-line description, e.g.
    /// `"C++ exception [std::domain_error] (code -1): division by zero"`.
    pub fn describe(&self) -> (r: String)
        ensures
            r@ == exception_text(self.exception_type@, self.code as int, self.message@),
    {
        let mut s = String::new();
        push_str(&mut s, "C++ exception [");
        push_str(&mut s, self.exception_type.as_str());
        push_str(&mut s, "] (code ");
        push_i64(&mut s, self.code as i64);
        push_str(&mut s, "): ");
        push_str(&mut s, self.message.as_str());
        proof {
            reveal_strlit("C++ exception [");
        }
        assert(s@ =~= exception_text(self.exception_type@, self.code as int, self.message@));
        s
    }
}

/// `Ok` for the success code, otherwise the code as the error.
pub fn check(rc: i32) -> (r: Result<(), i32>)
    ensures
        rc == CPP_EX_OK <==> r is Ok,
        r is Err ==> r == Err::<(), i32>(rc),
{
    if rc == CPP_EX_OK {
        Ok(())
    } else {
        Err(rc)
    }
}

/// The bytes of a C buffer before its first NUL (all of them when there is
/// none).
pub open spec fn c_string_bytes(buf: Seq<u8>) -> Seq<u8>
    decreases buf.len(),
{
    if buf.len() == 0 {
        buf
    } else if buf[0] == 0 {
        Seq::empty()
    } else {
        seq![buf[0]] + c_string_bytes(buf.drop_first())
    }
}

/// The bytes of `buf` before its first NUL.
fn c_string_prefix(buf: &[u8]) -> (r: Vec<u8>)
    ensures
        r@ == c_string_bytes(buf@),
{
    let mut out: Vec<u8> = Vec::new();
    let mut i: usize = 0;
    assert(buf@.skip(0) =~= buf@);
    assert(out@ + c_string_bytes(buf@) =~= c_string_bytes(buf@));
    while i < buf.len()
        invariant
            i <= buf@.len(),
            c_string_bytes(buf@) == out@ + c_string_bytes(buf@.skip(i as int)),
        decreases buf@.len() - i,
    {
        let ghost rest = buf@.skip(i as int);
        assert(rest.drop_first() =~= buf@.skip(i as int + 1));
        if buf[i] == 0 {
            assert(c_string_bytes(rest) == Seq::<u8>::empty());
            assert(out@ + Seq::<u8>::empty() =~= out@);
            return out;
        }
        out.push(buf[i]);
        assert(c_string_bytes(rest) == seq![buf@[i as int]] + c_string_bytes(rest.drop_first()));
        let ghost tail = c_string_bytes(buf@.skip(i as int + 1));
        assert(out@ + tail =~= (out@.drop_last() + seq![buf@[i as int]]) + tail);
        i = i + 1;
    }
    assert(buf@.skip(i as int) =~= Seq::<u8>::empty());
    assert(out@ + Seq::<u8>::empty() =~= out@);
    out
}

/// The exception described by the buffers the C++ side filled: the message
/// and type name are the text before each buffer's first NUL, decoded as
/// UTF-8 with ill-formed sequences replaced.
pub fn exception_from_buffers(msg_buf: &[u8], type_buf: &[u8], code: i32) -> (r: CppException)
    ensures
        r.message@ == spec_utf8_lossy(c_string_bytes(msg_buf@)),
        r.exception_type@ == spec_utf8_lossy(c_string_bytes(type_buf@)),
        vstd::utf8::valid_utf8(c_string_bytes(msg_buf@)) ==> r.message@ == vstd::utf8::decode_utf8(
            c_string_bytes(msg_buf@),
        ),
        vstd::utf8::valid_utf8(c_string_bytes(type_buf@)) ==> r.exception_type@ == vstd::utf8::decode_utf8(
            c_string_bytes(type_buf@),
        ),
        r.code == code,
{
    let msg = c_string_prefix(msg_buf);
    let ty = c_string_prefix(type_buf);
    CppException { message: utf8_lossy(msg.as_slice()), exception_type: utf8_lossy(ty.as_slice()), code }
}

/// The error for a string that cannot become a C string.
pub open spec fn interior_nul_error(e: CppException) -> bool {
    &&& e.message@ == "interior NUL byte"@
    &&& e.exception_type@ == "Rust"@
    &&& e.code == CPP_EX_ERR_INVALID
}

/// The UTF-8 encoding of a character holds a zero byte exactly when the
/// character is NUL.
proof fn lemma_scalar_nul(c: char)
    ensures
        vstd::utf8::encode_scalar(c as u32).contains(0u8) <==> c == '\0',
{
    let v = c as u32;
    let e = vstd::utf8::encode_scalar(v);
    assert(forall|x: u32| (#[trigger] (0x80u8 | (x & 0x3F) as u8)) != 0u8) by (bit_vector);
    assert(forall|x: u32| (#[trigger] (0xC0u8 | (x & 0x1F) as u8)) != 0u8) by (bit_vector);
    assert(forall|x: u32| (#[trigger] (0xE0u8 | (x & 0x0F) as u8)) != 0u8) by (bit_vector);
    assert(forall|x: u32| (#[trigger] (0xF0u8 | (x & 0x7) as u8)) != 0u8) by (bit_vector);
    assert(forall|x: u32| x <= 0x7F ==> ((#[trigger] ((x & 0x7F) as u8)) == 0u8 <==> x == 0)) by (bit_vector);
    if vstd::utf8::has_width_1_encoding(v) {
        assert(e[0] == (v & 0x7F) as u8);
        if c == '\0' {
            assert(e[0] == 0u8);
        }
    } else if c == '\0' {
        assert(false);
    } else {
        assert forall|j: int| 0 <= j < e.len() implies e[j] != 0u8 by {
        }
    }
}

/// A UTF-8 encoding holds a zero byte exactly when the text holds NUL.
proof fn lemma_nul_byte_iff_nul_char(chars: Seq<char>)
    ensures
        vstd::utf8::encode_utf8(chars).contains(0u8) <==> chars.contains('\0'),
    decreases chars.len(),
{
    if chars.len() > 0 {
        let head = vstd::utf8::encode_scalar(chars[0] as u32);
        let rest = vstd::utf8::encode_utf8(chars.drop_first());
        lemma_scalar_nul(chars[0]);
        lemma_nul_byte_iff_nul_char(chars.drop_first());
        let all = head + rest;
        if all.contains(0u8) {
            let j = choose|j: int| 0 <= j < all.len() && all[j] == 0u8;
            if j < head.len() {
                assert(head[j] == 0u8);
            } else {
                assert(rest[j - head.len()] == 0u8);
                let k = choose|k: int| 0 <= k < chars.drop_first().len() && chars.drop_first()[k] == '\0';
                assert(chars[k + 1] == '\0');
            }
        }
        if chars.contains('\0') {
            let k = choose|k: int| 0 <= k < chars.len() && chars[k] == '\0';
            if k == 0 {
                let j = choose|j: int| 0 <= j < head.len() && head[j] == 0u8;
                assert(all[j] == 0u8);
            } else {
                assert(chars.drop_first()[k - 1] == '\0');
                let j = choose|j: int| 0 <= j < rest.len() && rest[j] == 0u8;
                assert(all[j + head.len()] == 0u8);
            }
        }
    }
}

/// The bytes of `s` followed by a terminating NUL, as C reads a string;
/// an error when `s` itself holds a NUL byte.
pub fn make_cstring(s: &str) -> (r: Result<Vec<u8>, CppException>)
    ensures
        r is Ok <==> !s@.contains('\0'),
        r matches Ok(b) ==> b@ == vstd::utf8::encode_utf8(s@).push(0u8),
        r matches Err(e) ==> interior_nul_error(e),
{
    let bytes = s.as_bytes();
    let mut out: Vec<u8> = Vec::new();
    let mut i: usize = 0;
    while i < bytes.len()
        invariant
            i <= bytes@.len(),
            bytes@ == vstd::utf8::encode_utf8(s@),
            out@ == bytes@.take(i as int),
            forall|j: int| 0 <= j < i ==> bytes@[j] != 0u8,
        decreases bytes@.len() - i,
    {
        if bytes[i] == 0 {
            proof {
                lemma_nul_byte_iff_nul_char(s@);
                assert(bytes@.contains(0u8));
            }
            return Err(
                CppException {
                    message: String::from_str("interior NUL byte"),
                    exception_type: String::from_str("Rust"),
                    code: CPP_EX_ERR_INVALID,
                },
            );
        }
        out.push(bytes[i]);
        assert(out@ =~= bytes@.take(i as int + 1));
        i = i + 1;
    }
    proof {
        lemma_nul_byte_iff_nul_char(s@);
    }
    out.push(0u8);
    assert(bytes@.take(bytes@.len() as int) =~= bytes@);
    Ok(out)
}

} // verus!
