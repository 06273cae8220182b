//! A key-value database behind an owned handle, with status codes mapped
//! to a typed error.

use vstd::prelude::*;
use vstd::std_specs::convert::FromSpecImpl;
use crate::kv::StrMap;

verus! {

/// Success.
pub const CDB_OK: i32 = 0;
/// Invalid argument or handle.
pub const CDB_ERR_INVALID: i32 = -1;
/// Key not found.
pub const CDB_ERR_NOT_FOUND: i32 = -2;
/// Output buffer too small.
pub const CDB_ERR_OVERFLOW: i32 = -3;

/// Size of the buffer a value is read into, terminating NUL included.
pub const CDB_VALUE_BUF: usize = 256;

/// Errors of database operations.
#[derive(Debug, PartialEq, Eq)]
pub enum CdbError {
    Invalid,
    NotFound,
    Overflow,
    Unknown,
}

/// The error a status code stands for.
pub open spec fn error_of_code(code: i32) -> CdbError {
    if code == CDB_ERR_INVALID {
        CdbError::Invalid
    } else if code == CDB_ERR_NOT_FOUND {
        CdbError::NotFound
    } else if code == CDB_ERR_OVERFLOW {
        CdbError::Overflow
    } else {
        CdbError::Unknown
    }
}

impl From<i32> for CdbError {
    fn from(code: i32) -> (r: Self) {
        if code == CDB_ERR_INVALID {
            CdbError::Invalid
        } else if code == CDB_ERR_NOT_FOUND {
            CdbError::NotFound
        } else if code == CDB_ERR_OVERFLOW {
            CdbError::Overflow
        } else {
            CdbError::Unknown
        }
    }
}

impl FromSpecImpl<i32> for CdbError {
    open spec fn obeys_from_spec() -> bool {
        true
    }

    open spec fn from_spec(code: i32) -> CdbError {
        error_of_code(code)
    }
}

/// The message of each error.
pub open spec fn cdb_error_message(e: CdbError) -> Seq<char> {
    match e {
        CdbError::Invalid => "invalid argument or handle"@,
        CdbError::NotFound => "key not found"@,
        CdbError::Overflow => "value does not fit the buffer"@,
        CdbError::Unknown => "unknown database error"@,
    }
}

impl CdbError {
    /// A human-readable message for the error; never empty.
    pub fn message(&self) -> (r: String)
        ensures
            r@ == cdb_error_message(*self),
            r@.len() > 0,
    {
        let r = match self {
            CdbError::Invalid => String::from_str("invalid argument or handle"),
            CdbError::NotFound => String::from_str("key not found"),
            CdbError::Overflow => String::from_str("value does not fit the buffer"),
            CdbError::Unknown => String::from_str("unknown database error"),
        };
        proof {
            reveal_strlit("invalid argument or handle");
            reveal_strlit("key not found");
            reveal_strlit("value does not fit the buffer");
            reveal_strlit("unknown database error");
        }
        r
    }
}

/// `Ok(())` for `CDB_OK`, else the error of the code.
pub fn check(code: i32) -> (r: Result<(), CdbError>)
    ensures
        code == CDB_OK ==> r is Ok,
        code != CDB_OK ==> r == Err::<(), CdbError>(error_of_code(code)),
{
    if code == CDB_OK {
        Ok(())
    } else {
        Err(CdbError::from(code))
    }
}

/// The database behind a handle: its stored pairs.
pub struct CdbHandle {
    entries: StrMap<String>,
}

/// An open database; closing happens when it is dropped.
pub struct Database {
    handle: CdbHandle,
}

impl View for Database {
    type V = Map<Seq<char>, Seq<char>>;

    closed spec fn view(&self) -> Map<Seq<char>, Seq<char>> {
        self.handle.entries@.map_values(|s: String| s@)
    }
}

/// A value can be read back when it and its terminating NUL fit the buffer.
pub open spec fn fits_value_buffer(v: Seq<char>) -> bool {
    vstd::utf8::encode_utf8(v).len() + 1 <= CDB_VALUE_BUF
}

impl Database {
    /// Opens a new, empty database; `Err(CdbError::Invalid)` for an empty path.
    pub fn open(path: &str) -> (r: Result<Self, CdbError>)
        ensures
            path@.len() == 0 <==> r is Err,
            r matches Err(e) ==> e == CdbError::Invalid,
            r matches Ok(db) ==> db@ == Map::<Seq<char>, Seq<char>>::empty(),
    {
        if path.is_empty() {
            return Err(CdbError::Invalid);
        }
        let db = Database { handle: CdbHandle { entries: StrMap::new() } };
        assert(db@ =~= Map::<Seq<char>, Seq<char>>::empty());
        Ok(db)
    }

    /// Inserts or updates a pair.
    pub fn put(&mut self, key: &str, value: &str) -> (r: Result<(), CdbError>)
        ensures
            r is Ok,
            final(self)@ == old(self)@.insert(key@, value@),
            final(self)@.dom().finite(),
            final(self)@.len() == old(self)@.len() + (if old(self)@.contains_key(key@) { 0int } else { 1int }),
    {
        let v = value.to_owned();
        self.handle.entries.insert(key, v);
        assert(self@ =~= old(self)@.insert(key@, value@));
        assert(old(self)@.dom() =~= old(self).handle.entries@.dom());
        assert(self@.dom() =~= self.handle.entries@.dom());
        proof {
            if old(self)@.contains_key(key@) {
                assert(self@.dom() =~= old(self)@.dom());
            }
        }
        Ok(())
    }

    /// The value of `key`: `Err(NotFound)` when absent, `Err(Overflow)`
    /// when it does not fit the read buffer.
    pub fn get(&self, key: &str) -> (r: Result<String, CdbError>)
        ensures
            !self@.contains_key(key@) ==> r == Err::<String, CdbError>(CdbError::NotFound),
            self@.contains_key(key@) && !fits_value_buffer(self@[key@]) ==> r == Err::<String, CdbError>(
                CdbError::Overflow,
            ),
            self@.contains_key(key@) && fits_value_buffer(self@[key@]) ==> (r matches Ok(v) && v@
                == self@[key@]),
    {
        match self.handle.entries.get(key) {
            Some(v) => {
                if v.as_str().as_bytes().len() >= CDB_VALUE_BUF {
                    Err(CdbError::Overflow)
                } else {
                    Ok(v.clone())
                }
            },
            None => Err(CdbError::NotFound),
        }
    }

    /// Deletes `key`; `Err(NotFound)` when it is absent.
    pub fn delete(&mut self, key: &str) -> (r: Result<(), CdbError>)
        ensures
            old(self)@.contains_key(key@) <==> r is Ok,
            r matches Err(e) ==> e == CdbError::NotFound,
            final(self)@ == old(self)@.remove(key@),
            final(self)@.dom().finite(),
            final(self)@.len() == old(self)@.len() - (if old(self)@.contains_key(key@) { 1int } else { 0int }),
    {
        let existed = self.handle.entries.remove(key);
        assert(self@ =~= old(self)@.remove(key@));
        assert(old(self)@.dom() =~= old(self).handle.entries@.dom());
        assert(self@.dom() =~= self.handle.entries@.dom());
        proof {
            if !old(self)@.contains_key(key@) {
                assert(self@.dom() =~= old(self)@.dom());
            }
        }
        if existed {
            Ok(())
        } else {
            Err(CdbError::NotFound)
        }
    }

    /// Number of stored entries.
    pub fn count(&self) -> (r: usize)
        ensures
            r == self@.len(),
            self@.dom().finite(),
    {
        let n = self.handle.entries.len();
        assert(self@.dom() =~= self.handle.entries@.dom());
        n
    }
}

/// Reading back a write: after `put(key, value)`, `get(key)` finds `value`
/// (when it fits the read buffer), every other key reads as before, and a
/// `delete(key)` right after makes the key absent again.
pub proof fn law_put_then_get(before: Map<Seq<char>, Seq<char>>, key: Seq<char>, value: Seq<char>, other: Seq<char>)
    requires
        other != key,
    ensures
        before.insert(key, value).contains_key(key),
        before.insert(key, value)[key] == value,
        before.insert(key, value).contains_key(other) == before.contains_key(other),
        before.contains_key(other) ==> before.insert(key, value)[other] == before[other],
        !before.insert(key, value).remove(key).contains_key(key),
{
}

} // verus!
