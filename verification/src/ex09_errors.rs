//! Integer error codes plus a "last error" message, as C libraries report
//! failures (like `errno`): checked division and decimal integer parsing.

use vstd::prelude::*;

verus! {

/// Success.
pub const FFI_OK: i32 = 0;
/// A required pointer was null.
pub const FFI_ERR_NULL: i32 = -1;
/// The input was not valid UTF-8.
pub const FFI_ERR_UTF8: i32 = -2;
/// Arithmetic failure (division by zero or overflow).
pub const FFI_ERR_OVERFLOW: i32 = -3;
/// Any other failure.
pub const FFI_ERR_UNKNOWN: i32 = -99;

/// Why a decimal integer could not be parsed.
#[derive(Debug, Clone, Copy, PartialEq, Eq)]
pub enum IntErrorKind {
    Empty,
    InvalidDigit,
    PosOverflow,
    NegOverflow,
}

/// An ASCII decimal digit.
pub open spec fn is_digit(c: char) -> bool {
    '0' <= c && c <= '9'
}

/// The value of a decimal digit.
pub open spec fn digit_value(c: char) -> int {
    c as int - 48
}

/// Reads the digits `ds` left to right onto `acc` (subtracting when `neg`),
/// stopping at the first non-digit or at the first step that leaves the
/// `i64` range.
pub open spec fn scan_digits(ds: Seq<char>, acc: int, neg: bool) -> Result<int, IntErrorKind>
    decreases ds.len(),
{
    if ds.len() == 0 {
        Ok(acc)
    } else if !is_digit(ds[0]) {
        Err(IntErrorKind::InvalidDigit)
    } else {
        let v = if neg {
            acc * 10 - digit_value(ds[0])
        } else {
            acc * 10 + digit_value(ds[0])
        };
        if v < i64::MIN || v > i64::MAX {
            Err(if neg { IntErrorKind::NegOverflow } else { IntErrorKind::PosOverflow })
        } else {
            scan_digits(ds.drop_first(), v, neg)
        }
    }
}

/// The result of parsing `s` as a decimal `i64`: an optional `+` or `-`,
/// then one or more digits and nothing else.
pub open spec fn parse_i64_spec(s: Seq<char>) -> Result<int, IntErrorKind> {
    if s.len() == 0 {
        Err(IntErrorKind::Empty)
    } else if (s[0] == '+' || s[0] == '-') && s.len() == 1 {
        Err(IntErrorKind::InvalidDigit)
    } else if s[0] == '-' {
        scan_digits(s.drop_first(), 0, true)
    } else if s[0] == '+' {
        scan_digits(s.drop_first(), 0, false)
    } else {
        scan_digits(s, 0, false)
    }
}

/// The message of a parse error.
pub open spec fn int_error_message(k: IntErrorKind) -> Seq<char> {
    match k {
        IntErrorKind::Empty => "cannot parse integer from empty string"@,
        IntErrorKind::InvalidDigit => "invalid digit found in string"@,
        IntErrorKind::PosOverflow => "number too large to fit in target type"@,
        IntErrorKind::NegOverflow => "number too small to fit in target type"@,
    }
}

impl IntErrorKind {
    /// The message of the error, e.g. `"invalid digit found in string"`.
    pub fn message(&self) -> (r: String)
        ensures
            r@ == int_error_message(*self),
    {
        match self {
            IntErrorKind::Empty => String::from_str("cannot parse integer from empty string"),
            IntErrorKind::InvalidDigit => String::from_str("invalid digit found in string"),
            IntErrorKind::PosOverflow => String::from_str("number too large to fit in target type"),
            IntErrorKind::NegOverflow => String::from_str("number too small to fit in target type"),
        }
    }
}

/// Parses `s` as a decimal `i64` (optional sign, then digits).
pub fn parse_i64(s: &str) -> (r: Result<i64, IntErrorKind>)
    ensures
        match parse_i64_spec(s@) {
            Ok(v) => r == Ok::<i64, IntErrorKind>(v as i64),
            Err(k) => r == Err::<i64, IntErrorKind>(k),
        },
{
    let cs = crate::text::str_to_chars(s);
    let n = cs.len();
    if n == 0 {
        return Err(IntErrorKind::Empty);
    }
    let first = cs[0];
    if (first == '+' || first == '-') && n == 1 {
        return Err(IntErrorKind::InvalidDigit);
    }
    let neg = first == '-';
    let start: usize = if first == '+' || first == '-' { 1 } else { 0 };
    proof {
        assert(cs@.skip(0) =~= cs@);
        assert(cs@.skip(1) =~= cs@.drop_first());
    }
    let ghost target = scan_digits(cs@.skip(start as int), 0, neg);
    assert(parse_i64_spec(s@) == target);
    let mut acc: i64 = 0;
    let mut i: usize = start;
    while i < n
        invariant
            n == cs@.len(),
            start <= i <= n,
            scan_digits(cs@.skip(i as int), acc as int, neg) == target,
            parse_i64_spec(s@) == target,
        decreases n - i,
    {
        let c = cs[i];
        assert(cs@.skip(i as int)[0] == c);
        assert(cs@.skip(i as int).drop_first() =~= cs@.skip(i as int + 1));
        if !(c >= '0' && c <= '9') {
            assert(scan_digits(cs@.skip(i as int), acc as int, neg) == Err::<int, IntErrorKind>(
                IntErrorKind::InvalidDigit,
            ));
            return Err(IntErrorKind::InvalidDigit);
        }
        assert(digit_value(c) == c as u32 - 48);
        let d: i128 = (c as u32 - 48) as i128;
        let v: i128 = if neg {
            (acc as i128) * 10 - d
        } else {
            (acc as i128) * 10 + d
        };
        if v < i64::MIN as i128 || v > i64::MAX as i128 {
            assert(scan_digits(cs@.skip(i as int), acc as int, neg) == Err::<int, IntErrorKind>(
                if neg { IntErrorKind::NegOverflow } else { IntErrorKind::PosOverflow },
            ));
            return if neg {
                Err(IntErrorKind::NegOverflow)
            } else {
                Err(IntErrorKind::PosOverflow)
            };
        }
        acc = v as i64;
        i = i + 1;
    }
    assert(cs@.skip(n as int).len() == 0);
    Ok(acc)
}

/// The most recent error message, if any.
pub struct LastError {
    message: Option<String>,
}

impl View for LastError {
    type V = Option<Seq<char>>;

    closed spec fn view(&self) -> Option<Seq<char>> {
        match self.message {
            Some(m) => Some(m@),
            None => None,
        }
    }
}

impl LastError {
    /// No error recorded.
    pub fn new() -> (r: Self)
        ensures
            r@ is None,
    {
        LastError { message: None }
    }

    /// Records `msg` as the last error.
    pub fn set(&mut self, msg: &str)
        ensures
            final(self)@ == Some(msg@),
    {
        self.message = Some(msg.to_owned());
    }

    /// Forgets the last error.
    pub fn clear(&mut self)
        ensures
            final(self)@ is None,
    {
        self.message = None;
    }
}

/// A copy of the last error message, or `None` when there is none.
pub fn ffi_last_error(last: &LastError) -> (r: Option<String>)
    ensures
        r is None <==> last@ is None,
        r matches Some(m) ==> last@ == Some(m@),
{
    match &last.message {
        Some(m) => Some(m.clone()),
        None => None,
    }
}

/// Clears the last error.
pub fn ffi_clear_error(last: &mut LastError)
    ensures
        final(last)@ is None,
{
    last.clear();
}

/// `|x|`.
pub open spec fn abs(x: int) -> int {
    if x < 0 { -x } else { x }
}

/// Division rounding toward zero, as Rust's `/` on integers.
pub open spec fn trunc_div(a: int, b: int) -> int {
    if (a < 0) == (b < 0) {
        abs(a) / abs(b)
    } else {
        -(abs(a) / abs(b))
    }
}

/// `a / b` (rounding toward zero), or an error code with the last error set:
/// `FFI_ERR_OVERFLOW` for `b == 0` ("division by zero") and for the one
/// overflowing quotient `i32::MIN / -1`, `FFI_ERR_NULL` when the output
/// pointer is null. On success the last error is left as it was.
pub fn ffi_divide(last: &mut LastError, a: i32, b: i32, out_is_null: bool) -> (r: Result<i32, i32>)
    ensures
        b == 0 ==> r == Err::<i32, i32>(FFI_ERR_OVERFLOW) && final(last)@ == Some(
            "division by zero"@,
        ),
        b != 0 && out_is_null ==> r == Err::<i32, i32>(FFI_ERR_NULL) && final(last)@ == Some(
            "output pointer is null"@,
        ),
        b != 0 && !out_is_null && a == i32::MIN && b == -1 ==> r == Err::<i32, i32>(FFI_ERR_OVERFLOW)
            && final(last)@ == Some("integer overflow"@),
        b != 0 && !out_is_null && !(a == i32::MIN && b == -1) ==> r == Ok::<i32, i32>(
            trunc_div(a as int, b as int) as i32,
        ) && final(last)@ == old(last)@,
{
    if b == 0 {
        last.set("division by zero");
        return Err(FFI_ERR_OVERFLOW);
    }
    if out_is_null {
        last.set("output pointer is null");
        return Err(FFI_ERR_NULL);
    }
    if a == i32::MIN && b == -1 {
        last.set("integer overflow");
        return Err(FFI_ERR_OVERFLOW);
    }
    let ua: i64 = if a < 0 { -(a as i64) } else { a as i64 };
    let ub: i64 = if b < 0 { -(b as i64) } else { b as i64 };
    let q: i64 = ua / ub;
    assert(0 <= q <= ua) by (nonlinear_arith)
        requires q == ua / ub, ua >= 0, ub >= 1;
    assert(q < ua || ub == 1 || ua == 0) by (nonlinear_arith)
        requires q == ua / ub, ua >= 0, ub >= 1;
    let signed: i64 = if (a < 0) == (b < 0) { q } else { -q };
    assert(i32::MIN <= signed <= i32::MAX);
    Ok(signed as i32)
}

/// Parses the C string `input` (its bytes without the NUL) as a decimal
/// `i64`. Errors set the last error: `FFI_ERR_NULL` for a null input or
/// output pointer, `FFI_ERR_UTF8` for bytes that are not UTF-8, and
/// `FFI_ERR_UNKNOWN` with the parse error's message when parsing fails.
pub fn ffi_parse_int(last: &mut LastError, input: Option<&[u8]>, out_is_null: bool) -> (r: Result<i64, i32>)
    ensures
        input is None ==> r == Err::<i64, i32>(FFI_ERR_NULL) && final(last)@ == Some(
            "input pointer is null"@,
        ),
        input is Some && out_is_null ==> r == Err::<i64, i32>(FFI_ERR_NULL) && final(last)@ == Some(
            "output pointer is null"@,
        ),
        input matches Some(b) && !out_is_null && !vstd::utf8::valid_utf8(b@) ==> r == Err::<i64, i32>(
            FFI_ERR_UTF8,
        ) && final(last)@ == Some("input is not valid UTF-8"@),
        input is Some && !out_is_null && vstd::utf8::valid_utf8(input.unwrap()@) ==> match parse_i64_spec(
            vstd::utf8::decode_utf8(input.unwrap()@),
        ) {
            Ok(v) => r == Ok::<i64, i32>(v as i64) && final(last)@ == old(last)@,
            Err(k) => r == Err::<i64, i32>(FFI_ERR_UNKNOWN) && final(last)@ == Some(
                int_error_message(k),
            ),
        },
{
    let bytes = match input {
        Some(b) => b,
        None => {
            last.set("input pointer is null");
            return Err(FFI_ERR_NULL);
        },
    };
    if out_is_null {
        last.set("output pointer is null");
        return Err(FFI_ERR_NULL);
    }
    let text = match crate::text::utf8_to_string(bytes) {
        Some(t) => t,
        None => {
            last.set("input is not valid UTF-8");
            return Err(FFI_ERR_UTF8);
        },
    };
    match parse_i64(text.as_str()) {
        Ok(v) => Ok(v),
        Err(k) => {
            let msg = k.message();
            last.set(msg.as_str());
            Err(FFI_ERR_UNKNOWN)
        },
    }
}

/// Scanning a concatenation scans the first part, then the second from
/// where the first left off.
proof fn lemma_scan_append(p: Seq<char>, q: Seq<char>, acc: int, neg: bool)
    ensures
        scan_digits(p + q, acc, neg) == match scan_digits(p, acc, neg) {
            Ok(a) => scan_digits(q, a, neg),
            Err(e) => Err(e),
        },
    decreases p.len(),
{
    if p.len() > 0 {
        assert((p + q).drop_first() =~= p.drop_first() + q);
        assert((p + q)[0] == p[0]);
        let v = if neg { acc * 10 - digit_value(p[0]) } else { acc * 10 + digit_value(p[0]) };
        lemma_scan_append(p.drop_first(), q, v, neg);
    } else {
        assert(p + q =~= q);
    }
}

/// Every character of a decimal rendering is a digit, and the first one
/// exists.
proof fn lemma_digits_are_digits(n: nat)
    ensures
        crate::text::nat_digits(n).len() >= 1,
        forall|i: int|
            0 <= i < crate::text::nat_digits(n).len() ==> is_digit(#[trigger] crate::text::nat_digits(n)[i]),
    decreases n,
{
    if n >= 10 {
        lemma_digits_are_digits(n / 10);
    }
}

/// Scanning the decimal digits of `n` gives `n` (or `-n` when negating),
/// as long as that stays in the `i64` range.
proof fn lemma_scan_nat_digits(n: nat, neg: bool)
    requires
        neg ==> n <= 0x8000_0000_0000_0000,
        !neg ==> n <= 0x7fff_ffff_ffff_ffff,
    ensures
        scan_digits(crate::text::nat_digits(n), 0, neg) == Ok::<int, IntErrorKind>(if neg { -n } else { n as int }),
    decreases n,
{
    let ds = crate::text::nat_digits(n);
    if n < 10 {
        assert(ds == seq![crate::text::digit_char(n)]);
        assert(ds.drop_first() =~= Seq::<char>::empty());
        assert(digit_value(ds[0]) == n);
        assert(is_digit(ds[0]));
        let v: int = if neg { 0 * 10 - digit_value(ds[0]) } else { 0 * 10 + digit_value(ds[0]) };
        assert(scan_digits(ds.drop_first(), v, neg) == Ok::<int, IntErrorKind>(v));
    } else {
        let hi = crate::text::nat_digits(n / 10);
        let d = crate::text::digit_char(n % 10);
        assert(ds =~= hi + seq![d]);
        lemma_scan_nat_digits(n / 10, neg);
        lemma_scan_append(hi, seq![d], 0, neg);
        let a: int = if neg { -((n / 10) as int) } else { (n / 10) as int };
        assert(digit_value(d) == n % 10);
        assert((n / 10) * 10 + n % 10 == n);
        assert(seq![d].drop_first() =~= Seq::<char>::empty());
        if neg {
            assert(a * 10 - digit_value(d) == -(n as int));
        } else {
            assert(a * 10 + digit_value(d) == n as int);
        }
        assert(is_digit(d));
        let v: int = if neg { a * 10 - digit_value(d) } else { a * 10 + digit_value(d) };
        assert(scan_digits(seq![d].drop_first(), v, neg) == Ok::<int, IntErrorKind>(v));
        assert(scan_digits(seq![d], a, neg) == Ok::<int, IntErrorKind>(v));
    }
}

/// Parsing undoes rendering: the decimal rendering of any `i64` parses
/// back to the same value.
pub proof fn law_parse_rendered(n: i64)
    ensures
        parse_i64_spec(crate::text::int_to_decimal(n as int)) == Ok::<int, IntErrorKind>(n as int),
{
    let s = crate::text::int_to_decimal(n as int);
    if n >= 0 {
        lemma_digits_are_digits(n as nat);
        lemma_scan_nat_digits(n as nat, false);
        assert(is_digit(s[0]));
    } else {
        let m: nat = (-(n as int)) as nat;
        lemma_digits_are_digits(m);
        lemma_scan_nat_digits(m, true);
        assert(s.drop_first() =~= crate::text::nat_digits(m));
        assert(s[0] == '-');
        assert(s.len() >= 2);
    }
}

} // verus!
