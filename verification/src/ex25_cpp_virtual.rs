//! Objects with two C++ interfaces, reached through their vtables. The
//! virtual calls themselves go through raw vtable pointers; what the
//! library decides is how the label that `get_label` writes into
//! out-parameters becomes a string.

use vstd::prelude::*;
use crate::text::{spec_utf8_lossy, utf8_lossy};

verus! {

/// The label text reported when `get_label` fails.
pub open spec fn label_error_text() -> Seq<char> {
    "<error>"@
}

/// The label read back from `get_label`'s out-parameters: on status 0, the
/// first `len` bytes of `buf` decoded as UTF-8 with ill-formed sequences
/// replaced; on any other status, `"<error>"`.
pub fn label_from_out_params(rc: i32, buf: &[u8], len: usize) -> (r: String)
    requires
        rc == 0 ==> len <= buf@.len(),
    ensures
        rc == 0 ==> r@ == spec_utf8_lossy(buf@.take(len as int)),
        rc == 0 && vstd::utf8::valid_utf8(buf@.take(len as int)) ==> r@ == vstd::utf8::decode_utf8(
            buf@.take(len as int),
        ),
        rc != 0 ==> r@ == label_error_text(),
{
    if rc == 0 {
        let mut bytes: Vec<u8> = Vec::new();
        let mut i: usize = 0;
        while i < len
            invariant
                i <= len <= buf@.len(),
                bytes@ == buf@.take(i as int),
            decreases len - i,
        {
            bytes.push(buf[i]);
            assert(bytes@ =~= buf@.take(i as int + 1));
            i = i + 1;
        }
        utf8_lossy(bytes.as_slice())
    } else {
        let r = String::from_str("<error>");
        r
    }
}

} // verus!
