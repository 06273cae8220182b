//! Text helpers shared by the exercises: decimal rendering of integers,
//! separator joins, and character-level string building.

use vstd::prelude::*;
use vstd::std_specs::iter::IteratorSpec;

verus! {

/// The character of a decimal digit `0..=9`.
pub open spec fn digit_char(d: nat) -> char {
    (48 + d) as char
}

/// Decimal digits of a natural number, most significant first, no leading zeros.
pub open spec fn nat_digits(n: nat) -> Seq<char>
    decreases n,
{
    if n < 10 {
        seq![digit_char(n)]
    } else {
        nat_digits(n / 10).push(digit_char(n % 10))
    }
}

/// Decimal rendering of an integer: a `-` for negative values, then the digits.
pub open spec fn int_to_decimal(n: int) -> Seq<char> {
    if n < 0 {
        seq!['-'] + nat_digits((-n) as nat)
    } else {
        nat_digits(n as nat)
    }
}

/// The items of `list` with `sep` between consecutive items.
pub open spec fn seq_join(list: Seq<Seq<char>>, sep: Seq<char>) -> Seq<char>
    decreases list.len(),
{
    if list.len() == 0 {
        Seq::empty()
    } else if list.len() == 1 {
        list[0]
    } else {
        seq_join(list.drop_last(), sep) + sep + list.last()
    }
}

/// Appends one character to a string.
///
/// Trusted: `String::push` of std, which appends the character at the end.
#[verifier::external_body]
pub(crate) fn push_char(s: &mut String, c: char)
    ensures
        final(s)@ == old(s)@.push(c),
{
    s.push(c);
}

/// The character of the decimal digit `d`.
pub fn digit_to_char(d: u64) -> (c: char)
    requires
        d < 10,
    ensures
        c == digit_char(d as nat),
{
    let b: u8 = 48u8 + (d as u8);
    b as char
}

/// Appends the decimal digits of `n` to `s`.
pub fn push_nat_digits(s: &mut String, n: u64)
    ensures
        final(s)@ == old(s)@ + nat_digits(n as nat),
    decreases n,
{
    if n >= 10 {
        push_nat_digits(s, n / 10);
    }
    let c = digit_to_char(n % 10);
    push_char(s, c);
    proof {
        if n >= 10 {
            assert(nat_digits(n as nat) == nat_digits((n / 10) as nat).push(digit_char((n % 10) as nat)));
        }
    }
}

/// Appends the decimal rendering of `n` to `s`.
pub fn push_i64(s: &mut String, n: i64)
    ensures
        final(s)@ == old(s)@ + int_to_decimal(n as int),
{
    if n < 0 {
        push_char(s, '-');
        let wide: i128 = n as i128;
        let mag: u64 = (-wide) as u64;
        push_nat_digits(s, mag);
        assert(old(s)@.push('-') + nat_digits(mag as nat) =~= old(s)@ + (seq!['-'] + nat_digits(mag as nat)));
    } else {
        push_nat_digits(s, n as u64);
    }
}

/// The decimal rendering of `n`, e.g. `-7` gives `"-7"`.
pub fn i64_to_string(n: i64) -> (r: String)
    ensures
        r@ == int_to_decimal(n as int),
{
    let mut s = String::new();
    push_i64(&mut s, n);
    assert(s@ =~= int_to_decimal(n as int));
    s
}

/// Appends every character of `t` to `s`.
pub fn push_str(s: &mut String, t: &str)
    ensures
        final(s)@ == old(s)@ + t@,
{
    s.append(t);
}

/// The characters of `s`, in order.
pub fn str_to_chars(s: &str) -> (r: Vec<char>)
    ensures
        r@ == s@,
{
    broadcast use vstd::string::group_string_axioms;

    let ghost all = s@;
    let mut it = s.chars();
    let mut out: Vec<char> = Vec::new();
    loop
        invariant
            it.obeys_prophetic_iter_laws(),
            out@.len() <= all.len(),
            it.remaining() == all.skip(out@.len() as int),
            out@ == all.take(out@.len() as int),
        ensures
            out@ == all,
        decreases all.len() - out@.len(),
    {
        let ghost k = out@.len();
        match it.next() {
            Some(c) => {
                assert(all.skip(k as int).len() > 0);
                assert(all.take(k as int + 1) =~= all.take(k as int).push(c));
                assert(all.skip(k as int).drop_first() =~= all.skip(k as int + 1));
                out.push(c);
            },
            None => {
                assert(all.take(k as int) =~= all);
                break;
            },
        }
    }
    out
}

/// The text that UTF-8 `bytes` encode, or `None` when they are not valid UTF-8.
///
/// Trusted: `std::str::from_utf8`, which accepts exactly the valid UTF-8
/// byte sequences and decodes them.
#[verifier::external_body]
pub(crate) fn utf8_to_string(bytes: &[u8]) -> (r: Option<String>)
    ensures
        r is Some <==> vstd::utf8::valid_utf8(bytes@),
        r matches Some(s) ==> s@ == vstd::utf8::decode_utf8(bytes@),
{
    match std::str::from_utf8(bytes) {
        Ok(s) => Some(s.to_owned()),
        Err(_) => None,
    }
}

/// The text that `bytes` decode to when every ill-formed UTF-8 sequence is
/// replaced by U+FFFD.
pub uninterp spec fn spec_utf8_lossy(bytes: Seq<u8>) -> Seq<char>;

/// Decodes `bytes` as UTF-8, replacing ill-formed sequences.
///
/// Trusted: `String::from_utf8_lossy` of std. Its result depends on the
/// bytes alone; on valid UTF-8 it is the decoded text unchanged.
#[verifier::external_body]
pub(crate) fn utf8_lossy(bytes: &[u8]) -> (r: String)
    ensures
        r@ == spec_utf8_lossy(bytes@),
        vstd::utf8::valid_utf8(bytes@) ==> r@ == vstd::utf8::decode_utf8(bytes@),
{
    String::from_utf8_lossy(bytes).into_owned()
}

} // verus!
