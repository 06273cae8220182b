//! Error codes in place of panics at the C boundary: a division that
//! reports every failure as a code, and a key counter for JSON-like text.

use vstd::prelude::*;
use crate::ex09_errors::trunc_div;

verus! {

/// `a / b` (rounding toward zero), or an error code: `-1` when the output
/// pointer is null, `-2` when `b == 0`, `-3` for the overflowing
/// `i32::MIN / -1` (the case that panics in plain Rust).
pub fn safe_divide(a: i32, b: i32, out_is_null: bool) -> (r: Result<i32, i32>)
    ensures
        out_is_null ==> r == Err::<i32, i32>(-1i32),
        !out_is_null && b == 0 ==> r == Err::<i32, i32>(-2i32),
        !out_is_null && b == -1 && a == i32::MIN ==> r == Err::<i32, i32>(-3i32),
        !out_is_null && b != 0 && !(b == -1 && a == i32::MIN) ==> r == Ok::<i32, i32>(
            trunc_div(a as int, b as int) as i32,
        ),
{
    if out_is_null {
        return Err(-1);
    }
    if b == 0 {
        return Err(-2);
    }
    if a == i32::MIN && b == -1 {
        return Err(-3);
    }
    let ua: i64 = if a < 0 { -(a as i64) } else { a as i64 };
    let ub: i64 = if b < 0 { -(b as i64) } else { b as i64 };
    let q: i64 = ua / ub;
    assert(0 <= q <= ua) by (nonlinear_arith)
        requires q == ua / ub, ua >= 0, ub >= 1;
    assert(q < ua || ub == 1 || ua == 0) by (nonlinear_arith)
        requires q == ua / ub, ua >= 0, ub >= 1;
    let signed: i64 = if (a < 0) == (b < 0) { q } else { -q };
    Ok(signed as i32)
}

/// Counts `:` at nesting depth one, where `{` and `[` open a level and `}`
/// and `]` close one; `None` when a closer has no opener or the count
/// leaves the `i32` range (the inputs on which the plain count panics).
pub open spec fn colon_scan(s: Seq<char>, depth: nat, count: int) -> Option<int>
    decreases s.len(),
{
    if s.len() == 0 {
        Some(count)
    } else {
        let c = s[0];
        if c == '{' || c == '[' {
            colon_scan(s.drop_first(), depth + 1, count)
        } else if c == '}' || c == ']' {
            if depth == 0 {
                None
            } else {
                colon_scan(s.drop_first(), (depth - 1) as nat, count)
            }
        } else if c == ':' && depth == 1 {
            if count + 1 > i32::MAX {
                None
            } else {
                colon_scan(s.drop_first(), depth, count + 1)
            }
        } else {
            colon_scan(s.drop_first(), depth, count)
        }
    }
}

/// The number of top-level keys of a JSON-like text, or an error code:
/// `-1` for a null input, `-2` for bytes that are not UTF-8, `-3` when the
/// count fails (see `colon_scan`).
pub fn safe_count_colons(json: Option<&[u8]>) -> (r: i32)
    ensures
        json is None ==> r == -1i32,
        json matches Some(b) && !vstd::utf8::valid_utf8(b@) ==> r == -2i32,
        json is Some && vstd::utf8::valid_utf8(json.unwrap()@) ==> r == match colon_scan(
            vstd::utf8::decode_utf8(json.unwrap()@),
            0,
            0,
        ) {
            Some(n) => n as i32,
            None => -3i32,
        },
{
    let bytes = match json {
        Some(b) => b,
        None => return -1,
    };
    let text = match crate::text::utf8_to_string(bytes) {
        Some(t) => t,
        None => return -2,
    };
    let cs = crate::text::str_to_chars(text.as_str());
    let ghost target = colon_scan(cs@, 0, 0);
    assert(cs@.skip(0) =~= cs@);
    let mut depth: u64 = 0;
    let mut count: i32 = 0;
    let mut i: usize = 0;
    while i < cs.len()
        invariant
            i <= cs@.len(),
            depth <= i,
            0 <= count,
            colon_scan(cs@.skip(i as int), depth as nat, count as int) == target,
            json is Some,
            vstd::utf8::valid_utf8(json.unwrap()@),
            target == colon_scan(vstd::utf8::decode_utf8(json.unwrap()@), 0, 0),
        decreases cs@.len() - i,
    {
        let c = cs[i];
        assert(cs@.skip(i as int)[0] == c);
        assert(cs@.skip(i as int).drop_first() =~= cs@.skip(i as int + 1));
        if c == '{' || c == '[' {
            depth = depth + 1;
        } else if c == '}' || c == ']' {
            if depth == 0 {
                return -3;
            }
            depth = depth - 1;
        } else if c == ':' && depth == 1 {
            if count == i32::MAX {
                return -3;
            }
            count = count + 1;
        }
        i = i + 1;
    }
    assert(cs@.skip(i as int).len() == 0);
    count
}

} // verus!
