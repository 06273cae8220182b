//! C strings handed across the boundary: measuring, building greetings,
//! uppercasing into a caller buffer, and concatenating. A C string is given
//! by its bytes before the terminating NUL, or `None` for a null pointer.

use vstd::prelude::*;

verus! {

/// Byte length of a C string; 0 for a null pointer.
pub fn ffi_string_length(s: Option<&[u8]>) -> (r: usize)
    ensures
        r == match s {
            Some(b) => b@.len(),
            None => 0,
        },
{
    match s {
        Some(b) => b.len(),
        None => 0,
    }
}

fn append_bytes(out: &mut Vec<u8>, b: &[u8])
    ensures
        final(out)@ == old(out)@ + b@,
{
    let mut i: usize = 0;
    while i < b.len()
        invariant
            i <= b@.len(),
            out@ == old(out)@ + b@.take(i as int),
        decreases b@.len() - i,
    {
        out.push(b[i]);
        assert(b@.take(i as int + 1) =~= b@.take(i as int).push(b@[i as int]));
        i = i + 1;
    }
    assert(b@.take(b@.len() as int) =~= b@);
}

/// The bytes of `"Hello, "`.
pub open spec fn hello_prefix() -> Seq<u8> {
    seq![72u8, 101u8, 108u8, 108u8, 111u8, 44u8, 32u8]
}

/// The greeting `"Hello, {name}!"`, or `None` for a null name.
pub fn ffi_hello(name: Option<&[u8]>) -> (r: Option<Vec<u8>>)
    ensures
        name is None ==> r is None,
        name matches Some(n) ==> (r matches Some(g) && g@ == hello_prefix() + n@ + seq![33u8]),
{
    match name {
        None => None,
        Some(n) => {
            let mut g: Vec<u8> = Vec::new();
            g.push(72u8);
            g.push(101u8);
            g.push(108u8);
            g.push(108u8);
            g.push(111u8);
            g.push(44u8);
            g.push(32u8);
            assert(g@ =~= hello_prefix());
            append_bytes(&mut g, n);
            g.push(33u8);
            Some(g)
        },
    }
}

/// What `str::to_uppercase` gives for a text.
pub uninterp spec fn spec_to_uppercase(s: Seq<char>) -> Seq<char>;

/// The uppercase form of `s`.
///
/// Trusted: `str::to_uppercase` of std; its result depends only on the text.
#[verifier::external_body]
fn str_to_uppercase(s: &str) -> (r: String)
    ensures
        r@ == spec_to_uppercase(s@),
{
    s.to_uppercase()
}

/// The UTF-8 bytes of the uppercase form of the text `b` encodes.
pub open spec fn uppercase_bytes(b: Seq<u8>) -> Seq<u8> {
    vstd::utf8::encode_utf8(spec_to_uppercase(vstd::utf8::decode_utf8(b)))
}

/// Writes the uppercase form of `input` and a NUL into `buf`, returning the
/// number of bytes before the NUL; `-1` for a null input, input that is
/// not UTF-8, or a buffer too small (the buffer is then unchanged).
pub fn ffi_to_uppercase(input: Option<&[u8]>, buf: &mut [u8]) -> (r: isize)
    requires
        old(buf)@.len() <= isize::MAX,
    ensures
        final(buf)@.len() == old(buf)@.len(),
        input is None ==> r == -1 && final(buf)@ == old(buf)@,
        input matches Some(b) && !vstd::utf8::valid_utf8(b@) ==> r == -1 && final(buf)@ == old(buf)@,
        input is Some && vstd::utf8::valid_utf8(input.unwrap()@) && uppercase_bytes(input.unwrap()@).len()
            + 1 > old(buf)@.len() ==> r == -1 && final(buf)@ == old(buf)@,
        input is Some && vstd::utf8::valid_utf8(input.unwrap()@) && uppercase_bytes(input.unwrap()@).len()
            + 1 <= old(buf)@.len() ==> r == uppercase_bytes(input.unwrap()@).len() && final(buf)@
            == uppercase_bytes(input.unwrap()@) + seq![0u8] + old(buf)@.skip(
            uppercase_bytes(input.unwrap()@).len() as int + 1,
        ),
{
    let bytes = match input {
        Some(b) => b,
        None => return -1,
    };
    let text = match crate::text::utf8_to_string(bytes) {
        Some(t) => t,
        None => return -1,
    };
    let upper = str_to_uppercase(text.as_str());
    write_c_string(upper.as_str().as_bytes(), buf)
}

/// Writes `text` and a terminating NUL to the front of `buf`, returning the
/// number of bytes before the NUL; `-1`, with the buffer unchanged, when
/// they do not fit.
pub fn write_c_string(text: &[u8], buf: &mut [u8]) -> (r: isize)
    requires
        old(buf)@.len() <= isize::MAX,
    ensures
        final(buf)@.len() == old(buf)@.len(),
        text@.len() + 1 > old(buf)@.len() ==> r == -1 && final(buf)@ == old(buf)@,
        text@.len() + 1 <= old(buf)@.len() ==> r == text@.len() && final(buf)@ == text@ + seq![0u8]
            + old(buf)@.skip(text@.len() as int + 1),
{
    let n = text.len();
    if n >= buf.len() {
        return -1;
    }
    let mut i: usize = 0;
    while i < n
        invariant
            n == text@.len(),
            n < buf@.len(),
            buf@.len() == old(buf)@.len(),
            i <= n,
            forall|j: int| 0 <= j < i ==> buf@[j] == text@[j],
            forall|j: int| i <= j < buf@.len() ==> buf@[j] == old(buf)@[j],
        decreases n - i,
    {
        buf[i] = text[i];
        i = i + 1;
    }
    buf[n] = 0u8;
    assert(buf@ =~= text@ + seq![0u8] + old(buf)@.skip(n as int + 1));
    n as isize
}

/// `a`, then `sep`, then `b`; `None` when `a` or `b` is null (a null
/// separator counts as empty).
pub fn ffi_concat(a: Option<&[u8]>, b: Option<&[u8]>, sep: Option<&[u8]>) -> (r: Option<Vec<u8>>)
    ensures
        (a is None || b is None) ==> r is None,
        a is Some && b is Some ==> (r matches Some(v) && v@ == a.unwrap()@ + match sep {
            Some(s) => s@,
            None => Seq::<u8>::empty(),
        } + b.unwrap()@),
{
    if a.is_none() || b.is_none() {
        return None;
    }
    let x = a.unwrap();
    let y = b.unwrap();
    let mut v: Vec<u8> = Vec::new();
    append_bytes(&mut v, x);
    match sep {
        Some(s) => append_bytes(&mut v, s),
        None => {},
    }
    append_bytes(&mut v, y);
    assert(v@ =~= x@ + match sep {
        Some(s) => s@,
        None => Seq::<u8>::empty(),
    } + y@);
    Some(v)
}

} // verus!
