//! Values that both sides update: a device whose status the other side
//! writes, a sensor that counts how often it was read, and a pair of event
//! counters. Every update goes through an exclusive borrow, so each
//! reading is determined by the calls made before it.

use vstd::prelude::*;

verus! {

/// A device as first laid out, with a plain status field.
pub struct BrokenDevice {
    pub id: u32,
    pub status: u32,
}

/// A device whose status the other side may overwrite.
pub struct FixedDevice {
    pub id: u32,
    status: u32,
}

impl FixedDevice {
    /// The current status.
    pub closed spec fn status_spec(&self) -> u32 {
        self.status
    }

    /// The device id.
    pub closed spec fn id_spec(&self) -> u32 {
        self.id
    }

    /// A device with the given id and initial status.
    pub fn new(id: u32, status: u32) -> (r: Self)
        ensures
            r.id_spec() == id,
            r.status_spec() == status,
    {
        FixedDevice { id, status }
    }

    /// The current status.
    pub fn status(&self) -> (r: u32)
        ensures
            r == self.status_spec(),
    {
        self.status
    }

    /// Overwrites the status, as the other side does; the id stays.
    pub fn set_status(&mut self, status: u32)
        ensures
            final(self).status_spec() == status,
            final(self).id_spec() == old(self).id_spec(),
    {
        self.status = status;
    }
}

/// A named sensor holding the latest reading and how many times it was
/// read.
pub struct Sensor {
    name: String,
    value: i32,
    read_count: u64,
}

impl View for Sensor {
    /// The name, the latest reading and the number of reads.
    type V = (Seq<char>, i32, u64);

    closed spec fn view(&self) -> (Seq<char>, i32, u64) {
        (self.name@, self.value, self.read_count)
    }
}

impl Sensor {
    /// A sensor named `name` with reading `initial`, never read.
    pub fn new(name: &str, initial: i32) -> (r: Self)
        ensures
            r@ == (name@, initial, 0u64),
    {
        Sensor { name: name.to_owned(), value: initial, read_count: 0 }
    }

    /// The latest reading; counts one more read.
    pub fn read(&mut self) -> (r: i32)
        requires
            old(self)@.2 < u64::MAX,
        ensures
            r == old(self)@.1,
            final(self)@ == (old(self)@.0, old(self)@.1, (old(self)@.2 + 1) as u64),
    {
        self.read_count = self.read_count + 1;
        self.value
    }

    /// How many times the sensor was read.
    pub fn read_count(&self) -> (r: u64)
        ensures
            r == self@.2,
    {
        self.read_count
    }

    /// Stores a new reading, as the other side does; the count stays.
    pub fn set_value(&mut self, reading: i32)
        ensures
            final(self)@ == (old(self)@.0, reading, old(self)@.2),
    {
        self.value = reading;
    }
}

/// `n + delta` in 32-bit two's complement, as an atomic add gives it.
pub open spec fn wrapped_add(n: i32, delta: i32) -> i32 {
    let s = n + delta;
    if s > i32::MAX {
        (s - 0x1_0000_0000) as i32
    } else if s < i32::MIN {
        (s + 0x1_0000_0000) as i32
    } else {
        s as i32
    }
}

/// `n + delta`, wrapping around on overflow.
fn add_wrapping(n: i32, delta: i32) -> (r: i32)
    ensures
        r == wrapped_add(n, delta),
{
    let s: i64 = n as i64 + delta as i64;
    if s > 0x7fff_ffff {
        (s - 0x1_0000_0000) as i32
    } else if s < -0x8000_0000 {
        (s + 0x1_0000_0000) as i32
    } else {
        s as i32
    }
}

/// Counts of requests and errors.
pub struct SharedCounters {
    requests: i32,
    errors: i32,
}

impl View for SharedCounters {
    /// The request count and the error count.
    type V = (i32, i32);

    closed spec fn view(&self) -> (i32, i32) {
        (self.requests, self.errors)
    }
}

impl SharedCounters {
    /// Both counts at 0.
    pub fn new() -> (r: Self)
        ensures
            r@ == (0i32, 0i32),
    {
        SharedCounters { requests: 0, errors: 0 }
    }

    /// The request count.
    pub fn requests(&self) -> (r: i32)
        ensures
            r == self@.0,
    {
        self.requests
    }

    /// The error count.
    pub fn errors(&self) -> (r: i32)
        ensures
            r == self@.1,
    {
        self.errors
    }

    /// One more request (wrapping around at the top of `i32`).
    pub fn inc_requests(&mut self)
        ensures
            final(self)@ == (wrapped_add(old(self)@.0, 1), old(self)@.1),
    {
        self.requests = add_wrapping(self.requests, 1);
    }

    /// One more error (wrapping around at the top of `i32`).
    pub fn inc_errors(&mut self)
        ensures
            final(self)@ == (old(self)@.0, wrapped_add(old(self)@.1, 1)),
    {
        self.errors = add_wrapping(self.errors, 1);
    }

    /// Adds `amount` to the request count, as the other side does.
    pub fn add_requests(&mut self, amount: i32)
        ensures
            final(self)@ == (wrapped_add(old(self)@.0, amount), old(self)@.1),
    {
        self.requests = add_wrapping(self.requests, amount);
    }
}

/// A value written through an exclusive reference between two reads: the
/// second read sees the write, `(10, 42)`.
pub fn observe_without_unsafecell() -> (r: (i32, i32))
    ensures
        r == (10i32, 42i32),
{
    let mut val: i32 = 10;
    let before = val;
    let slot = &mut val;
    *slot = 42;
    let after = val;
    (before, after)
}

} // verus!
