//! Handles whose lifetimes are tied together: a database, cursors that
//! borrow it and walk its entries in insertion order, and a transaction
//! that borrows it exclusively.

use vstd::prelude::*;

verus! {

/// The entries of a database, as (key, value) texts in insertion order.
pub open spec fn entry_views(v: Seq<(String, String)>) -> Seq<(Seq<char>, Seq<char>)> {
    v.map_values(|e: (String, String)| (e.0@, e.1@))
}

/// The raw database: its entries in insertion order (a key may repeat).
pub struct RawDb {
    entries: Vec<(String, String)>,
}

impl View for RawDb {
    type V = Seq<(Seq<char>, Seq<char>)>;

    closed spec fn view(&self) -> Seq<(Seq<char>, Seq<char>)> {
        entry_views(self.entries@)
    }
}

/// A raw cursor: the index of the next entry to read.
pub struct RawCursor {
    pub position: usize,
}

/// A new, empty raw database.
pub fn raw_db_open() -> (r: RawDb)
    ensures
        r@ == Seq::<(Seq<char>, Seq<char>)>::empty(),
{
    let r = RawDb { entries: Vec::new() };
    assert(r@ =~= Seq::<(Seq<char>, Seq<char>)>::empty());
    r
}

/// Appends the pair `(key, value)`.
pub fn raw_db_insert(db: &mut RawDb, key: &str, value: &str)
    ensures
        final(db)@ == old(db)@.push((key@, value@)),
{
    db.entries.push((key.to_owned(), value.to_owned()));
    assert(db@ =~= old(db)@.push((key@, value@)));
}

/// A cursor at the first entry.
pub fn raw_db_cursor_open(db: &RawDb) -> (r: RawCursor)
    ensures
        r.position == 0,
{
    RawCursor { position: 0 }
}

/// The entry at the cursor, advancing it; `None` once past the last entry.
pub fn raw_db_cursor_next(cursor: &mut RawCursor, db: &RawDb) -> (r: Option<(String, String)>)
    ensures
        old(cursor).position < db@.len() ==> (r matches Some(e) && (e.0@, e.1@) == db@[old(
            cursor,
        ).position as int] && final(cursor).position == old(cursor).position + 1),
        old(cursor).position >= db@.len() ==> r is None && final(cursor).position == old(
            cursor,
        ).position,
{
    if cursor.position < db.entries.len() {
        let p = cursor.position;
        let k = db.entries[p].0.clone();
        let v = db.entries[p].1.clone();
        cursor.position = p + 1;
        Some((k, v))
    } else {
        None
    }
}

/// Moves the cursor back to the first entry.
pub fn raw_db_cursor_reset(cursor: &mut RawCursor)
    ensures
        final(cursor).position == 0,
{
    cursor.position = 0;
}

/// An owned database.
pub struct Database {
    raw: RawDb,
}

impl View for Database {
    type V = Seq<(Seq<char>, Seq<char>)>;

    closed spec fn view(&self) -> Seq<(Seq<char>, Seq<char>)> {
        self.raw@
    }
}

impl Database {
    /// A new, empty database.
    pub fn open() -> (r: Self)
        ensures
            r@ == Seq::<(Seq<char>, Seq<char>)>::empty(),
    {
        Database { raw: raw_db_open() }
    }

    /// Appends the pair `(key, value)`.
    pub fn insert(&mut self, key: &str, value: &str)
        ensures
            final(self)@ == old(self)@.push((key@, value@)),
    {
        raw_db_insert(&mut self.raw, key, value);
    }

    /// A cursor at the first entry, borrowing the database.
    pub fn cursor(&self) -> (r: Cursor<'_>)
        ensures
            r@ == (self@, 0nat),
    {
        Cursor { db: self, raw: raw_db_cursor_open(&self.raw) }
    }

    /// A transaction that borrows the database exclusively; once it ends,
    /// the database holds what the transaction left in it.
    pub fn transaction(&mut self) -> (r: Transaction<'_>)
        ensures
            r.db_view() == old(self)@,
            final(self)@ == final(r.db)@,
            !r.is_committed(),
    {
        Transaction { db: self, committed: false }
    }
}

/// A cursor over a database's entries, valid while the database is borrowed.
pub struct Cursor<'db> {
    db: &'db Database,
    raw: RawCursor,
}

impl<'db> View for Cursor<'db> {
    type V = (Seq<(Seq<char>, Seq<char>)>, nat);

    closed spec fn view(&self) -> (Seq<(Seq<char>, Seq<char>)>, nat) {
        (self.db@, self.raw.position as nat)
    }
}

impl<'db> Cursor<'db> {
    /// The entry at the cursor, advancing it; `None` once past the last.
    pub fn next(&mut self) -> (r: Option<(String, String)>)
        ensures
            final(self)@.0 == old(self)@.0,
            old(self)@.1 < old(self)@.0.len() ==> (r matches Some(e) && (e.0@, e.1@) == old(
                self,
            )@.0[old(self)@.1 as int] && final(self)@.1 == old(self)@.1 + 1),
            old(self)@.1 >= old(self)@.0.len() ==> r is None && final(self)@.1 == old(self)@.1,
    {
        raw_db_cursor_next(&mut self.raw, &self.db.raw)
    }

    /// Moves back to the first entry.
    pub fn reset(&mut self)
        ensures
            final(self)@ == (old(self)@.0, 0nat),
    {
        raw_db_cursor_reset(&mut self.raw);
    }
}

/// An exclusive transaction on a database.
pub struct Transaction<'db> {
    pub db: &'db mut Database,
    pub committed: bool,
}

impl<'db> Transaction<'db> {
    /// The entries of the borrowed database.
    pub open spec fn db_view(&self) -> Seq<(Seq<char>, Seq<char>)> {
        self.db@
    }

    /// Whether the transaction was committed.
    pub open spec fn is_committed(&self) -> bool {
        self.committed
    }

    /// Appends the pair `(key, value)` to the borrowed database.
    pub fn insert(&mut self, key: &str, value: &str)
        ensures
            final(self).db_view() == old(self).db_view().push((key@, value@)),
            final(final(self).db)@ == final(old(self).db)@,
            final(self).is_committed() == old(self).is_committed(),
    {
        self.db.insert(key, value);
    }

    /// Commits the transaction, ending it: the database keeps exactly what
    /// the transaction left in it.
    pub fn commit(self)
        ensures
            final(self.db)@ == old(self.db)@,
    {
        let mut t = self;
        t.committed = true;
    }
}

} // verus!
