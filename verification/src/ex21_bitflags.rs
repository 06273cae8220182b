//! Bit flags shared with C (`OpenFlags`), an in-memory file whose
//! operations are allowed or refused by those flags, and a C-style
//! permission enum that converts into flags.

use vstd::prelude::*;
use vstd::std_specs::ops::{BitOrSpecImpl, BitAndSpecImpl};
use vstd::std_specs::convert::FromSpecImpl;
use crate::text::seq_join;

verus! {

/// Open for reading.
pub const OPEN_READ: u32 = 0x01;
/// Open for writing.
pub const OPEN_WRITE: u32 = 0x02;
/// Create if it does not exist.
pub const OPEN_CREATE: u32 = 0x04;
/// Truncate existing content.
pub const OPEN_TRUNCATE: u32 = 0x08;
/// Writes go to the end.
pub const OPEN_APPEND: u32 = 0x10;

/// A set of open flags, as the bits of a `u32`.
#[derive(Clone, Copy, PartialEq, Eq, Structural)]
pub struct OpenFlags(pub u32);

impl OpenFlags {
    /// Open for reading.
    #[allow(non_snake_case)]
    pub fn READ() -> (r: OpenFlags)
        ensures
            r.0 == OPEN_READ,
    {
        OpenFlags(OPEN_READ)
    }

    /// Open for writing.
    #[allow(non_snake_case)]
    pub fn WRITE() -> (r: OpenFlags)
        ensures
            r.0 == OPEN_WRITE,
    {
        OpenFlags(OPEN_WRITE)
    }

    /// Create if it does not exist.
    #[allow(non_snake_case)]
    pub fn CREATE() -> (r: OpenFlags)
        ensures
            r.0 == OPEN_CREATE,
    {
        OpenFlags(OPEN_CREATE)
    }

    /// Truncate existing content.
    #[allow(non_snake_case)]
    pub fn TRUNCATE() -> (r: OpenFlags)
        ensures
            r.0 == OPEN_TRUNCATE,
    {
        OpenFlags(OPEN_TRUNCATE)
    }

    /// Writes go to the end.
    #[allow(non_snake_case)]
    pub fn APPEND() -> (r: OpenFlags)
        ensures
            r.0 == OPEN_APPEND,
    {
        OpenFlags(OPEN_APPEND)
    }

    /// No flags.
    #[allow(non_snake_case)]
    pub fn NONE() -> (r: OpenFlags)
        ensures
            r.0 == 0,
    {
        OpenFlags(0)
    }

    /// `true` when every bit of `other` is set in `self`.
    pub fn contains(self, other: OpenFlags) -> (r: bool)
        ensures
            r == (self.0 & other.0 == other.0),
    {
        (self.0 & other.0) == other.0
    }

    /// `true` when no bit is set.
    pub fn is_empty(self) -> (r: bool)
        ensures
            r == (self.0 == 0),
    {
        self.0 == 0
    }

    /// The names of the set flags joined by `" | "` (`"READ | WRITE"`),
    /// `"(empty)"` when no bit is set, and `"(unknown)"` when only bits
    /// without a name are set.
    pub fn describe(self) -> (r: String)
        ensures
            r@ == flag_description(self.0),
    {
        let b = self.0;
        let mut s = String::new();
        if b & 0x01 != 0 {
            push_name(&mut s, "READ");
        }
        if b & 0x02 != 0 {
            push_name(&mut s, "WRITE");
        }
        if b & 0x04 != 0 {
            push_name(&mut s, "CREATE");
        }
        if b & 0x08 != 0 {
            push_name(&mut s, "TRUNCATE");
        }
        if b & 0x10 != 0 {
            push_name(&mut s, "APPEND");
        }
        if s.as_str().is_empty() {
            if b == 0 {
                s.append("(empty)");
            } else {
                s.append("(unknown)");
            }
        }
        s
    }
}

/// `acc`, then `" | "` when `acc` is not empty, then `name`.
pub open spec fn add_name(acc: Seq<char>, name: Seq<char>) -> Seq<char> {
    if acc.len() == 0 {
        name
    } else {
        acc + " | "@ + name
    }
}

fn push_name(s: &mut String, name: &str)
    ensures
        final(s)@ == add_name(old(s)@, name@),
{
    if !s.as_str().is_empty() {
        s.append(" | ");
    }
    s.append(name);
}

/// The names of the flags set in `bits`, in bit order, joined by `" | "`.
pub open spec fn flag_names_text(bits: u32) -> Seq<char> {
    let t0: Seq<char> = if bits & 0x01 != 0 { add_name(Seq::empty(), "READ"@) } else { Seq::empty() };
    let t1 = if bits & 0x02 != 0 { add_name(t0, "WRITE"@) } else { t0 };
    let t2 = if bits & 0x04 != 0 { add_name(t1, "CREATE"@) } else { t1 };
    let t3 = if bits & 0x08 != 0 { add_name(t2, "TRUNCATE"@) } else { t2 };
    if bits & 0x10 != 0 { add_name(t3, "APPEND"@) } else { t3 }
}

/// The text of `OpenFlags::describe`.
pub open spec fn flag_description(bits: u32) -> Seq<char> {
    if flag_names_text(bits).len() > 0 {
        flag_names_text(bits)
    } else if bits == 0 {
        "(empty)"@
    } else {
        "(unknown)"@
    }
}

impl std::ops::BitOr for OpenFlags {
    type Output = Self;

    fn bitor(self, rhs: Self) -> (r: Self) {
        OpenFlags(self.0 | rhs.0)
    }
}

impl BitOrSpecImpl for OpenFlags {
    open spec fn obeys_bitor_spec() -> bool {
        true
    }

    open spec fn bitor_req(self, rhs: Self) -> bool {
        true
    }

    open spec fn bitor_spec(self, rhs: Self) -> Self {
        OpenFlags(self.0 | rhs.0)
    }
}

impl std::ops::BitAnd for OpenFlags {
    type Output = Self;

    fn bitand(self, rhs: Self) -> (r: Self) {
        OpenFlags(self.0 & rhs.0)
    }
}

impl BitAndSpecImpl for OpenFlags {
    open spec fn obeys_bitand_spec() -> bool {
        true
    }

    open spec fn bitand_req(self, rhs: Self) -> bool {
        true
    }

    open spec fn bitand_spec(self, rhs: Self) -> Self {
        OpenFlags(self.0 & rhs.0)
    }
}

impl std::ops::BitOrAssign for OpenFlags {
    /// Adds the flags of `rhs`: the bits become the union of both.
    fn bitor_assign(&mut self, rhs: Self)
        ensures
            final(self).0 == old(self).0 | rhs.0,
    {
        self.0 = self.0 | rhs.0;
    }
}

/// An open file held in memory: its name, the flags it was opened with,
/// its content, and the read/write position.
pub struct FileHandle {
    pub name: String,
    pub flags: OpenFlags,
    pub content: Vec<u8>,
    pub position: usize,
}

/// Opens a new, empty file: `None` for a null name, for empty flags, or
/// without `CREATE` (every file is new).
pub fn file_open(name: Option<&str>, flags: OpenFlags) -> (r: Option<FileHandle>)
    ensures
        (name is None || flags.0 == 0 || flags.0 & OPEN_CREATE != OPEN_CREATE) ==> r is None,
        name is Some && flags.0 != 0 && flags.0 & OPEN_CREATE == OPEN_CREATE ==> (r matches Some(h)
            && h.name@ == name.unwrap()@ && h.flags == flags && h.content@.len() == 0 && h.position == 0),
{
    let n = match name {
        Some(n) => n,
        None => return None,
    };
    if flags.is_empty() || !flags.contains(OpenFlags(OPEN_CREATE)) {
        return None;
    }
    let mut h = FileHandle { name: n.to_owned(), flags, content: Vec::new(), position: 0 };
    if flags.contains(OpenFlags(OPEN_TRUNCATE)) {
        h.content = Vec::new();
    }
    Some(h)
}

/// `c` with `d` written from offset `pos` on: bytes before `pos` stay
/// (zero-filled up to `pos` when `c` is shorter), `d` replaces or extends
/// what follows, and bytes past the written range stay.
pub open spec fn write_at(c: Seq<u8>, pos: int, d: Seq<u8>) -> Seq<u8> {
    let base = if pos <= c.len() { c } else { c + Seq::new((pos - c.len()) as nat, |i: int| 0u8) };
    let end = pos + d.len();
    base.take(pos) + d + (if end < base.len() { base.skip(end) } else { Seq::<u8>::empty() })
}

/// Writes `data` at the position (at the end under `APPEND`) and moves the
/// position past it; returns the number of bytes written, or -1 when the
/// file was opened without `WRITE` and without `APPEND` (nothing changes).
pub fn file_write(h: &mut FileHandle, data: &[u8]) -> (r: i32)
    requires
        old(h).position + data@.len() <= usize::MAX,
        old(h).content@.len() + data@.len() <= usize::MAX,
    ensures
        old(h).flags.0 & (OPEN_WRITE | OPEN_APPEND) == 0 ==> r == -1 && *final(h) == *old(h),
        old(h).flags.0 & (OPEN_WRITE | OPEN_APPEND) != 0 ==> ({
            let pos = if old(h).flags.0 & OPEN_APPEND != 0 {
                old(h).content@.len() as int
            } else {
                old(h).position as int
            };
            &&& r == data@.len() as i32
            &&& final(h).content@ == write_at(old(h).content@, pos, data@)
            &&& final(h).position == pos + data@.len()
            &&& final(h).name == old(h).name
            &&& final(h).flags == old(h).flags
        }),
{
    if h.flags.0 & (OPEN_WRITE | OPEN_APPEND) == 0 {
        return -1;
    }
    let pos: usize = if h.flags.0 & OPEN_APPEND != 0 { h.content.len() } else { h.position };
    let ghost c0 = h.content@;
    let ghost base = if pos <= c0.len() { c0 } else { c0 + Seq::new((pos - c0.len()) as nat, |i: int| 0u8) };
    assert forall|j: int| c0.len() <= j < base.len() implies base[j] == 0u8 by {
        if pos > c0.len() {
            assert(base[j] == Seq::new((pos - c0.len()) as nat, |i: int| 0u8)[j - c0.len()]);
        }
    }
    while h.content.len() < pos
        invariant
            forall|j: int| c0.len() <= j < base.len() ==> base[j] == 0u8,
            h.name == old(h).name,
            h.flags == old(h).flags,
            c0.len() <= h.content@.len() <= pos || (pos <= c0.len() && h.content@ == c0),
            pos <= c0.len() ==> h.content@ == c0,
            pos > c0.len() ==> h.content@.len() <= pos,
            forall|j: int| 0 <= j < h.content@.len() ==> h.content@[j] == base[j],
            h.content@.len() >= c0.len(),
            base.len() == (if pos <= c0.len() { c0.len() as int } else { pos as int }),
        decreases pos - h.content@.len(),
    {
        assert(pos > c0.len());
        assert(base[h.content@.len() as int] == 0u8);
        h.content.push(0u8);
    }
    assert(h.content@ =~= base);
    let n = data.len();
    let mut k: usize = 0;
    while k < n
        invariant
            n == data@.len(),
            pos + n <= usize::MAX,
            k <= n,
            h.content@.len() == (if pos + k > base.len() { pos + k } else { base.len() as int }),
            forall|j: int| 0 <= j < pos ==> h.content@[j] == base[j],
            forall|j: int| pos <= j < pos + k ==> h.content@[j] == data@[j - pos],
            forall|j: int| pos + k <= j < h.content@.len() ==> h.content@[j] == base[j],
            base.len() >= pos,
            h.name == old(h).name,
            h.flags == old(h).flags,
        decreases n - k,
    {
        if pos + k < h.content.len() {
            h.content.set(pos + k, data[k]);
        } else {
            h.content.push(data[k]);
        }
        k = k + 1;
    }
    h.position = pos + n;
    assert(h.content@ =~= write_at(c0, pos as int, data@));
    n as i32
}

/// Number of bytes a read of up to `want` bytes gets from `pos` on.
pub open spec fn read_count(len: int, pos: int, want: int) -> int {
    if pos >= len {
        0
    } else if len - pos < want {
        len - pos
    } else {
        want
    }
}

/// Reads up to `buf.len()` bytes from the position into the front of
/// `buf` and moves the position past them; returns their number, or -1
/// when the file was opened without `READ` (nothing changes).
pub fn file_read(h: &mut FileHandle, buf: &mut [u8]) -> (r: i32)
    requires
        old(h).position + old(buf)@.len() <= usize::MAX,
    ensures
        final(buf)@.len() == old(buf)@.len(),
        old(h).flags.0 & OPEN_READ == 0 ==> r == -1 && *final(h) == *old(h) && final(buf)@ == old(buf)@,
        old(h).flags.0 & OPEN_READ != 0 ==> ({
            let n = read_count(old(h).content@.len() as int, old(h).position as int, old(buf)@.len() as int);
            &&& r == n as i32
            &&& final(h).position == old(h).position + n
            &&& final(h).content@ == old(h).content@
            &&& final(h).name == old(h).name
            &&& final(h).flags == old(h).flags
            &&& final(buf)@ == Seq::new(n as nat, |j: int| old(h).content@[old(h).position + j])
                + old(buf)@.skip(n)
        }),
{
    if h.flags.0 & OPEN_READ == 0 {
        return -1;
    }
    let len = h.content.len();
    let pos = h.position;
    let n: usize = if pos >= len {
        0
    } else if len - pos < buf.len() {
        len - pos
    } else {
        buf.len()
    };
    let mut k: usize = 0;
    while k < n
        invariant
            n <= buf@.len(),
            n == 0 || pos + n <= h.content@.len(),
            buf@.len() == old(buf)@.len(),
            k <= n,
            h.content@ == old(h).content@,
            h.content@.len() == len,
            pos == old(h).position,
            forall|j: int| 0 <= j < k ==> buf@[j] == h.content@[pos + j],
            forall|j: int| k <= j < buf@.len() ==> buf@[j] == old(buf)@[j],
        decreases n - k,
    {
        assert(pos + k < h.content@.len());
        buf[k] = h.content[pos + k];
        k = k + 1;
    }
    h.position = pos + n;
    assert(buf@ =~= Seq::new(n as nat, |j: int| old(h).content@[pos + j]) + old(buf)@.skip(n as int));
    n as i32
}

/// Closes the file; always 0.
pub fn file_close(h: FileHandle) -> (r: i32)
    ensures
        r == 0,
{
    0
}

/// Access modes of a C API.
#[derive(Debug, Clone, Copy, PartialEq, Eq, Structural)]
pub enum Permission {
    ReadOnly,
    WriteOnly,
    ReadWrite,
}

/// The flag bits of a permission: `READ`, `WRITE`, or both.
pub open spec fn permission_bits(p: Permission) -> u32 {
    match p {
        Permission::ReadOnly => 0x01u32,
        Permission::WriteOnly => 0x02u32,
        Permission::ReadWrite => 0x03u32,
    }
}

impl From<Permission> for OpenFlags {
    fn from(p: Permission) -> (r: Self) {
        match p {
            Permission::ReadOnly => OpenFlags(0x01),
            Permission::WriteOnly => OpenFlags(0x02),
            Permission::ReadWrite => OpenFlags(0x03),
        }
    }
}

impl FromSpecImpl<Permission> for OpenFlags {
    open spec fn obeys_from_spec() -> bool {
        true
    }

    open spec fn from_spec(p: Permission) -> OpenFlags {
        OpenFlags(permission_bits(p))
    }
}

/// `ReadWrite` is exactly `ReadOnly | WriteOnly`.
pub proof fn law_read_write_is_union()
    ensures
        permission_bits(Permission::ReadWrite) == permission_bits(Permission::ReadOnly) | permission_bits(
            Permission::WriteOnly,
        ),
{
    assert(0x03u32 == 0x01u32 | 0x02u32) by (bit_vector);
}

/// `contains` is inclusion of bit sets: `a | b` contains both `a` and `b`.
pub proof fn law_union_contains_parts(a: u32, b: u32)
    ensures
        (a | b) & a == a,
        (a | b) & b == b,
{
    assert((a | b) & a == a) by (bit_vector);
    assert((a | b) & b == b) by (bit_vector);
}

/// Reading back a write: after writing `d` at offset `pos` of content `c`,
/// the content reaches at least to the end of `d`, reading `d.len()` bytes
/// from `pos` gives exactly `d`, and the bytes of `c` before `pos` are kept.
pub proof fn law_read_back_write(c: Seq<u8>, pos: nat, d: Seq<u8>)
    ensures
        write_at(c, pos as int, d).len() >= pos + d.len(),
        read_count(write_at(c, pos as int, d).len() as int, pos as int, d.len() as int) == d.len(),
        Seq::new(d.len(), |j: int| write_at(c, pos as int, d)[pos + j]) == d,
        forall|j: int| 0 <= j < pos && j < c.len() ==> #[trigger] write_at(c, pos as int, d)[j] == c[j],
{
    let w = write_at(c, pos as int, d);
    let base = if pos <= c.len() { c } else { c + Seq::new((pos - c.len()) as nat, |i: int| 0u8) };
    assert(base.len() >= pos);
    assert(base.take(pos as int).len() == pos);
    assert forall|j: int| 0 <= j < d.len() implies w[pos + j] == d[j] by {
        assert((base.take(pos as int) + d)[pos + j] == d[j]);
    }
    assert(Seq::new(d.len(), |j: int| w[pos + j]) =~= d);
    assert forall|j: int| 0 <= j < pos && j < c.len() implies #[trigger] w[j] == c[j] by {
        assert(base[j] == c[j]);
        assert(base.take(pos as int)[j] == base[j]);
    }
}

/// The bit of the `i`-th named flag, in bit order.
pub open spec fn named_flag_bit(i: int) -> u32 {
    if i == 0 {
        OPEN_READ
    } else if i == 1 {
        OPEN_WRITE
    } else if i == 2 {
        OPEN_CREATE
    } else if i == 3 {
        OPEN_TRUNCATE
    } else {
        OPEN_APPEND
    }
}

/// The name of the `i`-th named flag, in bit order.
pub open spec fn named_flag_name(i: int) -> Seq<char> {
    if i == 0 {
        "READ"@
    } else if i == 1 {
        "WRITE"@
    } else if i == 2 {
        "CREATE"@
    } else if i == 3 {
        "TRUNCATE"@
    } else {
        "APPEND"@
    }
}

/// The names of the flags among the first `k` named flags that `bits` sets,
/// in bit order.
pub open spec fn set_flag_names(bits: u32, k: nat) -> Seq<Seq<char>>
    decreases k,
{
    if k == 0 {
        Seq::empty()
    } else {
        let prev = set_flag_names(bits, (k - 1) as nat);
        if bits & named_flag_bit(k - 1) != 0 {
            prev.push(named_flag_name(k - 1))
        } else {
            prev
        }
    }
}

/// `part` occurs in `text` as a run of consecutive characters.
pub open spec fn occurs_in(part: Seq<char>, text: Seq<char>) -> bool {
    exists|i: int| 0 <= i && i + part.len() <= text.len() && #[trigger] text.subrange(i, i + part.len()) == part
}

proof fn lemma_names_nonempty()
    ensures
        forall|i: int| 0 <= i < 5 ==> #[trigger] named_flag_name(i).len() > 0,
        forall|i: int, j: int| 0 <= i < 5 && 0 <= j < 5 && i != j ==> #[trigger] named_flag_name(i) != #[trigger] named_flag_name(j),
{
    reveal_strlit("READ");
    reveal_strlit("WRITE");
    reveal_strlit("CREATE");
    reveal_strlit("TRUNCATE");
    reveal_strlit("APPEND");
    assert forall|i: int, j: int| 0 <= i < 5 && 0 <= j < 5 && i != j implies #[trigger] named_flag_name(i) != #[trigger] named_flag_name(j) by {
        let a = named_flag_name(i);
        let b = named_flag_name(j);
        if a.len() == b.len() {
            assert(a[0] != b[0] || a[1] != b[1]);
        }
    }
}

/// Joining with `" | "` is empty exactly when there are no items, if no
/// item is empty.
proof fn lemma_join_empty(list: Seq<Seq<char>>)
    requires
        forall|i: int| 0 <= i < list.len() ==> #[trigger] list[i].len() > 0,
    ensures
        (seq_join(list, " | "@).len() == 0) == (list.len() == 0),
    decreases list.len(),
{
    if list.len() > 1 {
        lemma_join_empty(list.drop_last());
        assert(list.last() == list[list.len() - 1]);
    }
}

/// Adding a name to a joined text is joining the longer list.
proof fn lemma_add_name_join(list: Seq<Seq<char>>, name: Seq<char>)
    requires
        forall|i: int| 0 <= i < list.len() ==> #[trigger] list[i].len() > 0,
    ensures
        add_name(seq_join(list, " | "@), name) == seq_join(list.push(name), " | "@),
{
    lemma_join_empty(list);
    let l2 = list.push(name);
    assert(l2.drop_last() =~= list);
    if list.len() == 0 {
        assert(seq_join(l2, " | "@) == l2[0]);
    }
}

proof fn lemma_set_names_props(bits: u32, k: nat)
    requires
        k <= 5,
    ensures
        forall|i: int| 0 <= i < set_flag_names(bits, k).len() ==> #[trigger] set_flag_names(bits, k)[i].len() > 0,
        forall|j: int| 0 <= j < 5 ==> (set_flag_names(bits, k).contains(#[trigger] named_flag_name(j)) <==> (j < k
            && bits & named_flag_bit(j) != 0)),
    decreases k,
{
    lemma_names_nonempty();
    if k > 0 {
        lemma_set_names_props(bits, (k - 1) as nat);
        let prev = set_flag_names(bits, (k - 1) as nat);
        let cur = set_flag_names(bits, k);
        assert forall|j: int| 0 <= j < 5 implies (cur.contains(#[trigger] named_flag_name(j)) <==> (j < k && bits
            & named_flag_bit(j) != 0)) by {
            if bits & named_flag_bit(k - 1) != 0 {
                assert(cur == prev.push(named_flag_name(k - 1)));
                assert(cur[cur.len() - 1] == named_flag_name(k - 1));
                if cur.contains(named_flag_name(j)) {
                    let x = choose|x: int| 0 <= x < cur.len() && cur[x] == named_flag_name(j);
                    if x < prev.len() {
                        assert(prev[x] == cur[x]);
                    }
                }
                if prev.contains(named_flag_name(j)) {
                    let x = choose|x: int| 0 <= x < prev.len() && prev[x] == named_flag_name(j);
                    assert(cur[x] == prev[x]);
                }
            }
        }
    }
}

/// A joined text holds every item as a run of consecutive characters.
proof fn lemma_join_holds_items(list: Seq<Seq<char>>, x: int)
    requires
        0 <= x < list.len(),
    ensures
        occurs_in(list[x], seq_join(list, " | "@)),
    decreases list.len(),
{
    let t = seq_join(list, " | "@);
    let part = list[x];
    if list.len() == 1 {
        let w: int = 0;
        assert(t.subrange(w, w + part.len()) =~= part);
        assert(0 <= w && w + part.len() <= t.len() && t.subrange(w, w + part.len()) == part);
    } else if x == list.len() - 1 {
        let p = seq_join(list.drop_last(), " | "@) + " | "@;
        assert(t == p + list.last());
        let w: int = p.len() as int;
        assert(t.subrange(w, w + part.len()) =~= part);
        assert(0 <= w && w + part.len() <= t.len() && t.subrange(w, w + part.len()) == part);
    } else {
        let p = seq_join(list.drop_last(), " | "@);
        lemma_join_holds_items(list.drop_last(), x);
        assert(list.drop_last()[x] == part);
        let w = choose|i: int| 0 <= i && i + part.len() <= p.len() && #[trigger] p.subrange(i, i + part.len()) == part;
        assert(t == p + (" | "@ + list.last()));
        assert(t.subrange(w, w + part.len()) =~= p.subrange(w, w + part.len()));
        assert(0 <= w && w + part.len() <= t.len() && t.subrange(w, w + part.len()) == part);
    }
}

/// What `describe` says: the names of exactly the named flags that are set,
/// in bit order, separated by `" | "`; `"(empty)"` for no bits at all and
/// `"(unknown)"` when only unnamed bits are set. Every set flag's name
/// occurs in the text, and a name is among the listed ones exactly when its
/// flag is set.
pub proof fn law_describe_names_set_flags(bits: u32)
    ensures
        flag_description(bits) == (if set_flag_names(bits, 5).len() > 0 {
            seq_join(set_flag_names(bits, 5), " | "@)
        } else if bits == 0 {
            "(empty)"@
        } else {
            "(unknown)"@
        }),
        forall|j: int| 0 <= j < 5 ==> (set_flag_names(bits, 5).contains(#[trigger] named_flag_name(j)) <==> bits
            & named_flag_bit(j) != 0),
        forall|j: int| 0 <= j < 5 && bits & named_flag_bit(j) != 0 ==> occurs_in(#[trigger] named_flag_name(j), flag_description(bits)),
{
    lemma_names_nonempty();
    lemma_set_names_props(bits, 5);
    let e = Seq::<char>::empty();
    assert(seq_join(set_flag_names(bits, 0), " | "@) == e);
    let t0: Seq<char> = if bits & 0x01 != 0 { add_name(e, "READ"@) } else { e };
    let t1 = if bits & 0x02 != 0 { add_name(t0, "WRITE"@) } else { t0 };
    let t2 = if bits & 0x04 != 0 { add_name(t1, "CREATE"@) } else { t1 };
    let t3 = if bits & 0x08 != 0 { add_name(t2, "TRUNCATE"@) } else { t2 };
    let t4 = if bits & 0x10 != 0 { add_name(t3, "APPEND"@) } else { t3 };
    assert(flag_names_text(bits) == t4);
    lemma_set_names_props(bits, 0);
    lemma_set_names_props(bits, 1);
    lemma_set_names_props(bits, 2);
    lemma_set_names_props(bits, 3);
    lemma_set_names_props(bits, 4);
    lemma_add_name_join(set_flag_names(bits, 0), named_flag_name(0));
    assert(t0 == seq_join(set_flag_names(bits, 1), " | "@));
    lemma_add_name_join(set_flag_names(bits, 1), named_flag_name(1));
    assert(t1 == seq_join(set_flag_names(bits, 2), " | "@));
    lemma_add_name_join(set_flag_names(bits, 2), named_flag_name(2));
    assert(t2 == seq_join(set_flag_names(bits, 3), " | "@));
    lemma_add_name_join(set_flag_names(bits, 3), named_flag_name(3));
    assert(t3 == seq_join(set_flag_names(bits, 4), " | "@));
    lemma_add_name_join(set_flag_names(bits, 4), named_flag_name(4));
    assert(t4 == seq_join(set_flag_names(bits, 5), " | "@));
    lemma_join_empty(set_flag_names(bits, 5));
    assert forall|j: int| 0 <= j < 5 && bits & named_flag_bit(j) != 0 implies occurs_in(#[trigger] named_flag_name(j), flag_description(bits)) by {
        let names = set_flag_names(bits, 5);
        assert(names.contains(named_flag_name(j)));
        let x = choose|x: int| 0 <= x < names.len() && names[x] == named_flag_name(j);
        lemma_join_holds_items(names, x);
    }
}

} // verus!
