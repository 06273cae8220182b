//! A stack of strings (bottom to top) with push / pop / peek, joining,
//! batch insertion, iteration into a `Vec`, and a CSV factory.

use vstd::prelude::*;
use crate::text::{push_char, push_nat_digits, seq_join, str_to_chars};

verus! {

/// Success.
pub const CPP_STK_OK: i32 = 0;
/// The stack is empty.
pub const CPP_STK_ERR_EMPTY: i32 = -1;
/// A caller buffer is too small.
pub const CPP_STK_ERR_BUF: i32 = -2;
/// A null pointer was passed.
pub const CPP_STK_ERR_NULL: i32 = -3;
/// Allocation failed.
pub const CPP_STK_ERR_OOM: i32 = -4;
/// Any other failure.
pub const CPP_STK_ERR_OTHER: i32 = -99;

/// Errors of stack operations.
#[derive(Debug, Clone)]
pub enum StackError {
    Empty,
    BufferTooSmall { needed: usize },
    NullPointer,
    OutOfMemory,
    Other(i32),
}

/// The error that a status code stands for.
pub open spec fn spec_map_err(code: i32) -> StackError {
    if code == CPP_STK_ERR_EMPTY {
        StackError::Empty
    } else if code == CPP_STK_ERR_BUF {
        StackError::BufferTooSmall { needed: 0 }
    } else if code == CPP_STK_ERR_NULL {
        StackError::NullPointer
    } else if code == CPP_STK_ERR_OOM {
        StackError::OutOfMemory
    } else {
        StackError::Other(code)
    }
}

/// Maps a status code to its error.
pub fn map_err(code: i32) -> (e: StackError)
    ensures
        e == spec_map_err(code),
{
    if code == CPP_STK_ERR_EMPTY {
        StackError::Empty
    } else if code == CPP_STK_ERR_BUF {
        StackError::BufferTooSmall { needed: 0 }
    } else if code == CPP_STK_ERR_NULL {
        StackError::NullPointer
    } else if code == CPP_STK_ERR_OOM {
        StackError::OutOfMemory
    } else {
        StackError::Other(code)
    }
}

/// The human-readable message of an error.
pub open spec fn error_message(e: StackError) -> Seq<char> {
    match e {
        StackError::Empty => "stack is empty"@,
        StackError::BufferTooSmall { needed } => "buffer too small (need "@ + crate::text::nat_digits(
            needed as nat,
        ) + " bytes)"@,
        StackError::NullPointer => "null pointer"@,
        StackError::OutOfMemory => "out of memory"@,
        StackError::Other(code) => "unknown error (code "@ + crate::text::int_to_decimal(code as int)
            + ")"@,
    }
}

impl StackError {
    /// The human-readable message, e.g. `"stack is empty"`.
    pub fn message(&self) -> (r: String)
        ensures
            r@ == error_message(*self),
    {
        match self {
            StackError::Empty => String::from_str("stack is empty"),
            StackError::BufferTooSmall { needed } => {
                let mut s = String::from_str("buffer too small (need ");
                push_nat_digits(&mut s, *needed as u64);
                s.append(" bytes)");
                s
            },
            StackError::NullPointer => String::from_str("null pointer"),
            StackError::OutOfMemory => String::from_str("out of memory"),
            StackError::Other(code) => {
                let mut s = String::from_str("unknown error (code ");
                crate::text::push_i64(&mut s, *code as i64);
                s.append(")");
                s
            },
        }
    }
}

/// The storage of a stack: its items, bottom first.
#[derive(Clone)]
pub struct CppStringStack {
    items: Vec<String>,
}

/// A stack of strings, bottom to top.
#[derive(Clone)]
pub struct StringStack {
    inner: CppStringStack,
}

/// The characters of each string.
pub open spec fn string_views(v: Seq<String>) -> Seq<Seq<char>> {
    v.map_values(|s: String| s@)
}

impl View for StringStack {
    type V = Seq<Seq<char>>;

    closed spec fn view(&self) -> Seq<Seq<char>> {
        string_views(self.inner.items@)
    }
}

/// ASCII whitespace that CSV items are trimmed of.
pub open spec fn is_blank(c: char) -> bool {
    c == ' ' || c == '\t' || c == '\n' || c == '\r'
}

/// `s` without its leading blanks.
pub open spec fn trim_start(s: Seq<char>) -> Seq<char>
    decreases s.len(),
{
    if s.len() > 0 && is_blank(s[0]) {
        trim_start(s.drop_first())
    } else {
        s
    }
}

/// `s` without its trailing blanks.
pub open spec fn trim_end(s: Seq<char>) -> Seq<char>
    decreases s.len(),
{
    if s.len() > 0 && is_blank(s.last()) {
        trim_end(s.drop_last())
    } else {
        s
    }
}

/// `s` without leading and trailing blanks.
pub open spec fn trim(s: Seq<char>) -> Seq<char> {
    trim_end(trim_start(s))
}

/// The fields of `s` between the separators `sep` (at least one field).
pub open spec fn split_on(s: Seq<char>, sep: char) -> Seq<Seq<char>>
    decreases s.len(),
{
    if s.len() == 0 {
        seq![Seq::empty()]
    } else {
        let prev = split_on(s.drop_last(), sep);
        if s.last() == sep {
            prev.push(Seq::empty())
        } else {
            prev.update(prev.len() - 1, prev.last().push(s.last()))
        }
    }
}

/// Each field trimmed of blanks.
pub open spec fn trim_all(fields: Seq<Seq<char>>) -> Seq<Seq<char>> {
    fields.map_values(|f: Seq<char>| trim(f))
}

/// The items that a CSV text gives: none for the empty text, else its
/// comma-separated fields, each trimmed of blanks.
pub open spec fn csv_items(s: Seq<char>) -> Seq<Seq<char>> {
    if s.len() == 0 {
        Seq::empty()
    } else {
        trim_all(split_on(s, ','))
    }
}

fn is_blank_char(c: char) -> (r: bool)
    ensures
        r == is_blank(c),
{
    c == ' ' || c == '\t' || c == '\n' || c == '\r'
}

/// A string of the characters `cs[lo..hi]` without leading and trailing blanks.
fn trimmed_string(cs: &Vec<char>, lo: usize, hi: usize) -> (r: String)
    requires
        lo <= hi <= cs@.len(),
    ensures
        r@ == trim(cs@.subrange(lo as int, hi as int)),
{
    let ghost whole = cs@.subrange(lo as int, hi as int);
    let mut a = lo;
    while a < hi && is_blank_char(cs[a])
        invariant
            lo <= a <= hi <= cs@.len(),
            trim_start(whole) == trim_start(cs@.subrange(a as int, hi as int)),
        decreases hi - a,
    {
        assert(cs@.subrange(a as int, hi as int).drop_first() =~= cs@.subrange(a as int + 1, hi as int));
        a = a + 1;
    }
    assert(trim_start(cs@.subrange(a as int, hi as int)) == cs@.subrange(a as int, hi as int));
    let mut b = hi;
    while b > a && is_blank_char(cs[b - 1])
        invariant
            lo <= a <= b <= hi <= cs@.len(),
            trim(whole) == trim_end(cs@.subrange(a as int, b as int)),
        decreases b - a,
    {
        assert(cs@.subrange(a as int, b as int).drop_last() =~= cs@.subrange(a as int, b as int - 1));
        b = b - 1;
    }
    let mut s = String::new();
    let mut i = a;
    while i < b
        invariant
            a <= i <= b <= cs@.len(),
            s@ == cs@.subrange(a as int, i as int),
        decreases b - i,
    {
        assert(cs@.subrange(a as int, i as int + 1) =~= cs@.subrange(a as int, i as int).push(cs@[i as int]));
        push_char(&mut s, cs[i]);
        i = i + 1;
    }
    s
}

impl StringStack {
    /// A new, empty stack.
    pub fn new() -> (r: Self)
        ensures
            r@ == Seq::<Seq<char>>::empty(),
    {
        let r = StringStack { inner: CppStringStack { items: Vec::new() } };
        assert(r@ =~= Seq::<Seq<char>>::empty());
        r
    }

    /// A stack of the items of a CSV text, bottom to top in text order:
    /// `"alpha, bravo, charlie"` gives three items.
    pub fn from_csv(csv: &str) -> (r: Self)
        ensures
            r@ == csv_items(csv@),
    {
        let cs = str_to_chars(csv);
        let mut items: Vec<String> = Vec::new();
        if cs.len() == 0 {
            let r = StringStack { inner: CppStringStack { items } };
            assert(r@ =~= csv_items(csv@));
            return r;
        }
        let mut start: usize = 0;
        let mut k: usize = 0;
        while k < cs.len()
            invariant
                cs@ == csv@,
                start <= k <= cs@.len(),
                split_on(cs@.take(k as int), ',').len() >= 1,
                string_views(items@) == trim_all(split_on(cs@.take(k as int), ',').drop_last()),
                split_on(cs@.take(k as int), ',').last() == cs@.subrange(start as int, k as int),
            decreases cs@.len() - k,
        {
            let ghost prev = split_on(cs@.take(k as int), ',');
            assert(cs@.take(k as int + 1).drop_last() =~= cs@.take(k as int));
            assert(cs@.take(k as int + 1).last() == cs@[k as int]);
            if cs[k] == ',' {
                let field = trimmed_string(&cs, start, k);
                let ghost old_items = items@;
                items.push(field);
                proof {
                    let next = split_on(cs@.take(k as int + 1), ',');
                    assert(next == prev.push(Seq::empty()));
                    assert(next.drop_last() =~= prev);
                    assert(string_views(items@) =~= string_views(old_items).push(field@));
                    assert(trim_all(prev) =~= trim_all(prev.drop_last()).push(trim(prev.last())));
                    assert(cs@.subrange(k as int + 1, k as int + 1) =~= Seq::<char>::empty());
                }
                start = k + 1;
            } else {
                proof {
                    let next = split_on(cs@.take(k as int + 1), ',');
                    assert(next == prev.update(prev.len() - 1, prev.last().push(cs@[k as int])));
                    assert(next.drop_last() =~= prev.drop_last());
                    assert(cs@.subrange(start as int, k as int + 1) =~= cs@.subrange(start as int, k as int).push(cs@[k as int]));
                }
            }
            k = k + 1;
        }
        let last = trimmed_string(&cs, start, k);
        let ghost old_items = items@;
        items.push(last);
        let r = StringStack { inner: CppStringStack { items } };
        proof {
            let all = split_on(cs@.take(k as int), ',');
            assert(cs@.take(k as int) =~= cs@);
            assert(string_views(items@) =~= string_views(old_items).push(last@));
            assert(trim_all(all) =~= trim_all(all.drop_last()).push(trim(all.last())));
            assert(r@ =~= csv_items(csv@));
        }
        r
    }

    /// Pushes a copy of `s` on top.
    pub fn push(&mut self, s: &str)
        ensures
            final(self)@ == old(self)@.push(s@),
    {
        let owned = s.to_owned();
        self.inner.items.push(owned);
        assert(self@ =~= old(self)@.push(s@));
    }

    /// Pops the top item; `Err(StackError::Empty)` when there is none, and
    /// then the stack is unchanged.
    pub fn pop(&mut self) -> (r: Result<String, StackError>)
        ensures
            old(self)@.len() == 0 ==> (r matches Err(StackError::Empty) && final(self)@ == old(self)@),
            old(self)@.len() > 0 ==> (r matches Ok(t) && t@ == old(self)@.last() && final(self)@
                == old(self)@.drop_last()),
    {
        match self.inner.items.pop() {
            Some(t) => {
                assert(self@ =~= old(self)@.drop_last());
                Ok(t)
            },
            None => Err(StackError::Empty),
        }
    }

    /// Number of items.
    pub fn len(&self) -> (r: usize)
        ensures
            r == self@.len(),
    {
        self.inner.items.len()
    }

    /// `true` when there are no items.
    pub fn is_empty(&self) -> (r: bool)
        ensures
            r == (self@.len() == 0),
    {
        self.len() == 0
    }

    /// A view of the top item without copying it; `Err(StackError::Empty)`
    /// when there is none.
    pub fn peek(&self) -> (r: Result<PeekGuard<'_>, StackError>)
        ensures
            self@.len() == 0 ==> r matches Err(StackError::Empty),
            self@.len() > 0 ==> (r matches Ok(g) && g@ == self@.last()),
    {
        let n = self.inner.items.len();
        if n == 0 {
            Err(StackError::Empty)
        } else {
            Ok(PeekGuard { top: &self.inner.items[n - 1] })
        }
    }

    /// All items joined by `sep`, bottom first: `"a, b, c"`.
    pub fn join(&self, sep: &str) -> (r: String)
        ensures
            r@ == seq_join(self@, sep@),
    {
        let mut res = String::new();
        let n = self.inner.items.len();
        let ghost all = self@;
        let mut i: usize = 0;
        while i < n
            invariant
                n == self.inner.items@.len(),
                all == self@,
                i <= n,
                res@ == seq_join(all.take(i as int), sep@),
            decreases n - i,
        {
            assert(all.take(i as int + 1).drop_last() =~= all.take(i as int));
            if i != 0 {
                res.append(sep);
            } else {
                assert(seq_join(all.take(0), sep@) =~= Seq::<char>::empty());
            }
            res.append(self.inner.items[i].as_str());
            proof {
                if i == 0 {
                    assert(res@ =~= all.take(1)[0]);
                }
            }
            i = i + 1;
        }
        assert(all.take(n as int) =~= all);
        res
    }

    /// Pushes every item of `items`, in order.
    pub fn push_many(&mut self, items: &[&str])
        ensures
            final(self)@ == old(self)@ + items@.map_values(|s: &str| s@),
    {
        let mut i: usize = 0;
        while i < items.len()
            invariant
                i <= items@.len(),
                self@ == old(self)@ + items@.take(i as int).map_values(|s: &str| s@),
            decreases items@.len() - i,
        {
            let ghost before = self@;
            self.push(items[i]);
            assert(items@.take(i as int + 1).map_values(|s: &str| s@) =~= items@.take(i as int).map_values(
                |s: &str| s@,
            ).push(items@[i as int]@));
            assert(self@ =~= old(self)@ + items@.take(i as int + 1).map_values(|s: &str| s@));
            i = i + 1;
        }
        assert(items@.take(items@.len() as int) =~= items@);
    }

    /// Copies of all items, bottom to top.
    pub fn to_vec(&self) -> (r: Vec<String>)
        ensures
            string_views(r@) == self@,
    {
        let mut out: Vec<String> = Vec::new();
        let n = self.inner.items.len();
        let mut i: usize = 0;
        while i < n
            invariant
                n == self.inner.items@.len(),
                i <= n,
                string_views(out@) == self@.take(i as int),
            decreases n - i,
        {
            let s = self.inner.items[i].clone();
            assert(s@ == self.inner.items@[i as int]@);
            let ghost old_out = out@;
            out.push(s);
            assert(string_views(out@) =~= string_views(old_out).push(s@));
            assert(self@.take(i as int + 1) =~= self@.take(i as int).push(self@[i as int]));
            assert(string_views(out@) =~= self@.take(i as int + 1));
            i = i + 1;
        }
        assert(self@.take(n as int) =~= self@);
        out
    }
}

impl Default for StringStack {
    fn default() -> (r: Self)
        ensures
            r@ == Seq::<Seq<char>>::empty(),
    {
        StringStack::new()
    }
}

/// A borrowed view of the top item of a `StringStack`; the stack cannot
/// change while the guard lives.
pub struct PeekGuard<'a> {
    top: &'a String,
}

impl<'a> View for PeekGuard<'a> {
    type V = Seq<char>;

    closed spec fn view(&self) -> Seq<char> {
        self.top@
    }
}

impl<'a> PeekGuard<'a> {
    /// The peeked item.
    pub fn as_str(&self) -> (r: &str)
        ensures
            r@ == self@,
    {
        self.top.as_str()
    }

    /// Length of the peeked item in UTF-8 bytes.
    pub fn len(&self) -> (r: usize)
        ensures
            r == vstd::utf8::encode_utf8(self@).len(),
    {
        self.top.as_str().as_bytes().len()
    }

    /// `true` when the peeked item is the empty string.
    pub fn is_empty(&self) -> (r: bool)
        ensures
            r == (self@.len() == 0),
    {
        self.top.as_str().is_empty()
    }
}

/// Last in, first out: popping right after pushing `item` gives `item`
/// back and leaves the stack as it was before the push.
pub proof fn law_push_then_pop(before: Seq<Seq<char>>, item: Seq<char>)
    ensures
        before.push(item).len() > 0,
        before.push(item).last() == item,
        before.push(item).drop_last() == before,
{
    assert(before.push(item).drop_last() =~= before);
}

} // verus!
