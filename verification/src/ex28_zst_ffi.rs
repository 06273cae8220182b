//! Zero-sized types at the boundary: empty and padded structs, an opaque
//! engine handle, marker tags, thread-affinity markers, and a typestate
//! session whose state lives only in its type.

use vstd::prelude::*;
use std::marker::PhantomData;

verus! {

/// A struct with no fields: zero bytes in Rust (one in C++).
pub struct ReprCEmpty;

/// A struct with one byte of padding: one byte, as in C.
pub struct ReprCNonEmpty {
    pub _padding: u8,
}

/// An engine reached only through its handle; it holds `[10, 20, 30]`.
pub struct OpaqueEngine {
    data: Vec<i32>,
}

impl OpaqueEngine {
    #[verifier::type_invariant]
    closed spec fn holds_fixed_data(&self) -> bool {
        self.data@ == seq![10i32, 20i32, 30i32]
    }

    /// The values the engine holds.
    pub closed spec fn contents(&self) -> Seq<i32> {
        self.data@
    }
}

/// Creates an engine holding `[10, 20, 30]`.
pub fn opaque_engine_create() -> (r: OpaqueEngine)
    ensures
        r.contents() == seq![10i32, 20i32, 30i32],
{
    let mut data: Vec<i32> = Vec::new();
    data.push(10);
    data.push(20);
    data.push(30);
    assert(data@ =~= seq![10i32, 20i32, 30i32]);
    OpaqueEngine { data }
}

/// The sum of the engine's data: 60.
pub fn opaque_engine_sum(engine: &OpaqueEngine) -> (r: i32)
    ensures
        r == engine.contents()[0] + engine.contents()[1] + engine.contents()[2],
        r == 60,
{
    proof {
        use_type_invariant(engine);
    }
    let mut total: i32 = 0;
    let mut i: usize = 0;
    while i < engine.data.len()
        invariant
            engine.data@ == seq![10i32, 20i32, 30i32],
            i <= 3,
            total == (if i == 0 { 0i32 } else if i == 1 { 10i32 } else if i == 2 { 30i32 } else { 60i32 }),
        decreases 3 - i,
    {
        total = total + engine.data[i];
        i = i + 1;
    }
    total
}

/// Destroys an engine.
pub fn opaque_engine_destroy(engine: OpaqueEngine) {
}

/// Marks a handle to a database.
pub struct DbTag;

/// Marks a handle to a cursor.
pub struct CursorTag;

/// A descriptor that must stay on the thread that made it (neither `Send`
/// nor `Sync`).
pub struct ThreadUnsafeHandle {
    pub fd: u64,
    pub _not_send_sync: PhantomData<std::rc::Rc<()>>,
}

impl ThreadUnsafeHandle {
    /// A handle for descriptor `fd`.
    pub fn new(fd: u64) -> (r: Self)
        ensures
            r.fd == fd,
    {
        ThreadUnsafeHandle { fd, _not_send_sync: PhantomData }
    }
}

/// A descriptor that may move between threads (`Send` and `Sync`).
pub struct ThreadSafeHandle {
    pub fd: u64,
}

impl ThreadSafeHandle {
    /// A handle for descriptor `fd`.
    pub fn new(fd: u64) -> (r: Self)
        ensures
            r.fd == fd,
    {
        ThreadSafeHandle { fd }
    }
}

/// State marker: not connected.
pub struct Disconnected;

/// State marker: connected.
pub struct Connected;

/// A session whose protocol state is its type parameter.
pub struct Session<State> {
    id: u64,
    _state: PhantomData<State>,
}

impl<State> Session<State> {
    /// The session's id.
    pub closed spec fn id_view(&self) -> u64 {
        self.id
    }
}

/// Counts the messages sent through sessions.
pub struct SendCounter {
    count: u64,
}

impl View for SendCounter {
    type V = nat;

    closed spec fn view(&self) -> nat {
        self.count as nat
    }
}

impl SendCounter {
    /// A counter at zero.
    pub fn new() -> (r: Self)
        ensures
            r@ == 0,
    {
        SendCounter { count: 0 }
    }
}

/// Sets the send counter back to zero.
pub fn reset_send_count(counter: &mut SendCounter)
    ensures
        final(counter)@ == 0,
{
    counter.count = 0;
}

/// The number of messages sent since the last reset.
pub fn get_send_count(counter: &SendCounter) -> (r: u64)
    ensures
        r == counter@,
{
    counter.count
}

impl Session<Disconnected> {
    /// A new session, disconnected.
    pub fn create(id: u64) -> (r: Self)
        ensures
            r.id_view() == id,
    {
        Session { id, _state: PhantomData }
    }

    /// Connects, consuming the disconnected session.
    pub fn connect(self) -> (r: Session<Connected>)
        ensures
            r.id_view() == self.id_view(),
    {
        Session { id: self.id, _state: PhantomData }
    }
}

impl Session<Connected> {
    /// Sends a message (only a connected session can); the counter goes up
    /// by one, wrapping around to 0 after `u64::MAX`.
    pub fn send(&self, counter: &mut SendCounter, msg: &str)
        ensures
            final(counter)@ == (if old(counter)@ < u64::MAX { old(counter)@ + 1 } else { 0 }),
    {
        if counter.count < u64::MAX {
            counter.count = counter.count + 1;
        } else {
            counter.count = 0;
        }
    }

    /// Disconnects, consuming the connected session.
    pub fn disconnect(self) -> (r: Session<Disconnected>)
        ensures
            r.id_view() == self.id_view(),
    {
        Session { id: self.id, _state: PhantomData }
    }
}

} // verus!
