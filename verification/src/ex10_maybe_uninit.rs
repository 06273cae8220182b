//! Values handed out through out-parameters (a version record and an array
//! of squares) and a safe owning handle around a heap resource.

use vstd::prelude::*;

verus! {

/// A library version.
#[derive(Debug, Clone, Copy, PartialEq, Eq, Structural)]
pub struct Version {
    pub major: u32,
    pub minor: u32,
    pub patch: u32,
}

/// The library's version, 1.4.0.
pub fn ffi_get_version() -> (r: Version)
    ensures
        r == (Version { major: 1, minor: 4, patch: 0 }),
{
    Version { major: 1, minor: 4, patch: 0 }
}

/// A named value kept on the heap.
pub struct Resource {
    pub name: String,
    pub value: i64,
}

/// An owning handle to a `Resource`; the resource is freed with the handle.
pub struct SafeHandle {
    resource: Box<Resource>,
}

impl SafeHandle {
    /// The name of the resource.
    pub closed spec fn name_view(&self) -> Seq<char> {
        self.resource.name@
    }

    /// The value of the resource.
    pub closed spec fn value_view(&self) -> i64 {
        self.resource.value
    }

    /// A handle to a new resource; `None` would report an allocation failure.
    pub fn new(name: &str, value: i64) -> (r: Option<Self>)
        ensures
            r matches Some(h) && h.name_view() == name@ && h.value_view() == value,
    {
        Some(SafeHandle { resource: Box::new(Resource { name: name.to_owned(), value }) })
    }

    /// The resource's name.
    pub fn name(&self) -> (r: &str)
        ensures
            r@ == self.name_view(),
    {
        self.resource.name.as_str()
    }

    /// The resource's value.
    pub fn value(&self) -> (r: i64)
        ensures
            r == self.value_view(),
    {
        self.resource.value
    }

    /// Replaces the resource's value; the name stays.
    pub fn set_value(&mut self, val: i64)
        ensures
            final(self).value_view() == val,
            final(self).name_view() == old(self).name_view(),
    {
        let r = Resource { name: self.resource.name.clone(), value: val };
        self.resource = Box::new(r);
    }
}

/// The squares `0, 1, 4, 9, ...` of the first `len` indices, each taken to
/// `i32` by truncation as the `as` cast does.
pub fn ffi_init_squares(len: usize) -> (r: Vec<i32>)
    ensures
        r@.len() == len,
        forall|i: int| 0 <= i < len ==> r@[i] == (i * i) as i32,
{
    let mut v: Vec<i32> = Vec::new();
    let mut i: usize = 0;
    while i < len
        invariant
            i <= len,
            v@.len() == i,
            forall|j: int| 0 <= j < i ==> v@[j] == (j * j) as i32,
        decreases len - i,
    {
        let w: u128 = i as u128;
        assert(w * w <= u128::MAX) by (nonlinear_arith)
            requires w <= 0xffff_ffff_ffff_ffffu128;
        let sq: u128 = w * w;
        v.push(sq as i32);
        i = i + 1;
    }
    v
}

} // verus!
