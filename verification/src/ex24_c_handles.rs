//! A session handle with a small protocol: options may be set only while
//! disconnected, data may be sent and received only while connected, and
//! received data is what was sent (an echo).

use vstd::prelude::*;
use vstd::std_specs::convert::FromSpecImpl;
use crate::kv::StrMap;

verus! {

/// Success.
pub const SESSION_OK: i32 = 0;
/// A null pointer was passed.
pub const SESSION_ERR_NULL: i32 = -1;
/// The operation is not allowed in the current state.
pub const SESSION_ERR_STATE: i32 = -2;
/// A caller buffer is too small.
pub const SESSION_ERR_OVERFLOW: i32 = -3;

/// Size of the buffer an option value is read into, terminating NUL included.
pub const SESSION_OPTION_BUF: usize = 256;

/// Errors of session operations.
#[derive(Debug, Clone, PartialEq, Eq)]
pub enum SessionError {
    NullPointer,
    InvalidState,
    Overflow,
    Unknown(i32),
}

/// The error a status code stands for.
pub open spec fn error_of_code(code: i32) -> SessionError {
    if code == SESSION_ERR_NULL {
        SessionError::NullPointer
    } else if code == SESSION_ERR_STATE {
        SessionError::InvalidState
    } else if code == SESSION_ERR_OVERFLOW {
        SessionError::Overflow
    } else {
        SessionError::Unknown(code)
    }
}

impl From<i32> for SessionError {
    fn from(code: i32) -> (r: Self) {
        if code == SESSION_ERR_NULL {
            SessionError::NullPointer
        } else if code == SESSION_ERR_STATE {
            SessionError::InvalidState
        } else if code == SESSION_ERR_OVERFLOW {
            SessionError::Overflow
        } else {
            SessionError::Unknown(code)
        }
    }
}

impl FromSpecImpl<i32> for SessionError {
    open spec fn obeys_from_spec() -> bool {
        true
    }

    open spec fn from_spec(code: i32) -> SessionError {
        error_of_code(code)
    }
}

/// The message of an error.
pub open spec fn error_message(e: SessionError) -> Seq<char> {
    match e {
        SessionError::NullPointer => "null pointer"@,
        SessionError::InvalidState => "operation not valid in the current session state"@,
        SessionError::Overflow => "buffer too small"@,
        SessionError::Unknown(code) => "unknown session error (code "@ + crate::text::int_to_decimal(
            code as int,
        ) + ")"@,
    }
}

impl SessionError {
    /// A human-readable message for the error.
    pub fn message(&self) -> (r: String)
        ensures
            r@ == error_message(*self),
    {
        match self {
            SessionError::NullPointer => String::from_str("null pointer"),
            SessionError::InvalidState => String::from_str(
                "operation not valid in the current session state",
            ),
            SessionError::Overflow => String::from_str("buffer too small"),
            SessionError::Unknown(code) => {
                let mut s = String::from_str("unknown session error (code ");
                crate::text::push_i64(&mut s, *code as i64);
                s.append(")");
                s
            },
        }
    }
}

/// `Ok(())` for `SESSION_OK`, else the error of the code.
pub fn check(code: i32) -> (r: Result<(), SessionError>)
    ensures
        code == SESSION_OK ==> r is Ok,
        code != SESSION_OK ==> (r matches Err(e) && e == error_of_code(code)),
{
    if code == SESSION_OK {
        Ok(())
    } else {
        Err(SessionError::from(code))
    }
}

/// The state behind a session handle.
pub struct CSession {
    options: StrMap<String>,
    connected: bool,
    pending: Vec<u8>,
}

/// What a session holds: its options, whether it is connected, and the
/// bytes sent but not yet received.
pub struct SessionView {
    pub options: Map<Seq<char>, Seq<char>>,
    pub connected: bool,
    pub pending: Seq<u8>,
}

/// A session; destroyed when dropped.
pub struct Session {
    handle: CSession,
}

impl View for Session {
    type V = SessionView;

    closed spec fn view(&self) -> SessionView {
        SessionView {
            options: self.handle.options@.map_values(|s: String| s@),
            connected: self.handle.connected,
            pending: self.handle.pending@,
        }
    }
}

/// The state after setting option `key` to `value`.
pub open spec fn state_after_set_option(s: SessionView, key: Seq<char>, value: Seq<char>) -> SessionView {
    SessionView { options: s.options.insert(key, value), ..s }
}

/// The state after connecting.
pub open spec fn state_after_connect(s: SessionView) -> SessionView {
    SessionView { connected: true, ..s }
}

/// The state after disconnecting: nothing stays pending.
pub open spec fn state_after_disconnect(s: SessionView) -> SessionView {
    SessionView { connected: false, pending: Seq::empty(), ..s }
}

/// The state after sending `data` on a connected session.
pub open spec fn state_after_send(s: SessionView, data: Seq<u8>) -> SessionView {
    SessionView { pending: s.pending + data, ..s }
}

/// The state after a successful receive: nothing is pending any more.
pub open spec fn state_after_recv(s: SessionView) -> SessionView {
    SessionView { pending: Seq::empty(), ..s }
}

/// The buffer after a successful receive: the pending bytes, then the rest
/// of the buffer unchanged.
pub open spec fn buffer_after_recv(s: SessionView, buf: Seq<u8>) -> Seq<u8> {
    s.pending + buf.skip(s.pending.len() as int)
}

/// An option value can be read back when it and its NUL fit the buffer.
pub open spec fn fits_option_buffer(v: Seq<char>) -> bool {
    vstd::utf8::encode_utf8(v).len() + 1 <= SESSION_OPTION_BUF
}

impl Session {
    /// A new session: no options, disconnected, nothing pending.
    pub fn new() -> (r: Result<Self, SessionError>)
        ensures
            r is Ok,
            r matches Ok(s) ==> s@.options == Map::<Seq<char>, Seq<char>>::empty(),
            r matches Ok(s) ==> !s@.connected && s@.pending.len() == 0,
    {
        let s = Session {
            handle: CSession { options: StrMap::new(), connected: false, pending: Vec::new() },
        };
        assert(s@.options =~= Map::<Seq<char>, Seq<char>>::empty());
        Ok(s)
    }

    /// Sets an option; `Err(InvalidState)` once connected (nothing changes then).
    pub fn set_option(&mut self, key: &str, value: &str) -> (r: Result<(), SessionError>)
        ensures
            old(self)@.connected ==> (r matches Err(e) && e == SessionError::InvalidState),
            old(self)@.connected ==> final(self)@ == old(self)@,
            !old(self)@.connected ==> r is Ok,
            !old(self)@.connected ==> final(self)@ == state_after_set_option(old(self)@, key@, value@),
    {
        if self.handle.connected {
            return Err(SessionError::InvalidState);
        }
        let v = value.to_owned();
        self.handle.options.insert(key, v);
        assert(self@.options =~= old(self)@.options.insert(key@, value@));
        Ok(())
    }

    /// The value of an option: `Err(InvalidState)` when it was never set,
    /// `Err(Overflow)` when it does not fit the read buffer.
    pub fn get_option(&self, key: &str) -> (r: Result<String, SessionError>)
        ensures
            !self@.options.contains_key(key@) ==> (r matches Err(e) && e == SessionError::InvalidState),
            self@.options.contains_key(key@) && !fits_option_buffer(self@.options[key@]) ==> (r matches Err(
                e,
            ) && e == SessionError::Overflow),
            self@.options.contains_key(key@) && fits_option_buffer(self@.options[key@]) ==> (r matches Ok(
                v,
            ) && v@ == self@.options[key@]),
    {
        match self.handle.options.get(key) {
            Some(v) => {
                if v.as_str().as_bytes().len() >= SESSION_OPTION_BUF {
                    Err(SessionError::Overflow)
                } else {
                    Ok(v.clone())
                }
            },
            None => Err(SessionError::InvalidState),
        }
    }

    /// Connects; `Err(InvalidState)` when already connected.
    pub fn connect(&mut self, host: &str) -> (r: Result<(), SessionError>)
        ensures
            old(self)@.connected ==> (r matches Err(e) && e == SessionError::InvalidState),
            old(self)@.connected ==> final(self)@ == old(self)@,
            !old(self)@.connected ==> r is Ok,
            !old(self)@.connected ==> final(self)@ == state_after_connect(old(self)@),
    {
        if self.handle.connected {
            return Err(SessionError::InvalidState);
        }
        self.handle.connected = true;
        Ok(())
    }

    /// Whether the session is connected.
    pub fn is_connected(&self) -> (r: bool)
        ensures
            r == self@.connected,
    {
        self.handle.connected
    }

    /// Sends `data`; `Err(InvalidState)` when not connected.
    pub fn send(&mut self, data: &[u8]) -> (r: Result<(), SessionError>)
        ensures
            !old(self)@.connected ==> (r matches Err(e) && e == SessionError::InvalidState),
            !old(self)@.connected ==> final(self)@ == old(self)@,
            old(self)@.connected ==> r is Ok,
            old(self)@.connected ==> final(self)@ == state_after_send(old(self)@, data@),
    {
        if !self.handle.connected {
            return Err(SessionError::InvalidState);
        }
        let mut i: usize = 0;
        while i < data.len()
            invariant
                i <= data@.len(),
                self.handle.connected == old(self).handle.connected,
                self.handle.options == old(self).handle.options,
                self.handle.pending@ == old(self).handle.pending@ + data@.take(i as int),
            decreases data@.len() - i,
        {
            self.handle.pending.push(data[i]);
            assert(data@.take(i as int + 1) =~= data@.take(i as int).push(data@[i as int]));
            i = i + 1;
        }
        assert(data@.take(data@.len() as int) =~= data@);
        Ok(())
    }

    /// Receives the pending bytes into the front of `buf` and returns their
    /// number: `Err(InvalidState)` when not connected, `Err(Overflow)` when
    /// they do not fit (nothing changes on an error).
    pub fn recv(&mut self, buf: &mut [u8]) -> (r: Result<usize, SessionError>)
        ensures
            !old(self)@.connected ==> (r matches Err(e) && e == SessionError::InvalidState),
            old(self)@.connected && old(self)@.pending.len() > old(buf)@.len() ==> (r matches Err(e)
                && e == SessionError::Overflow),
            r is Err ==> final(self)@ == old(self)@ && final(buf)@ == old(buf)@,
            old(self)@.connected && old(self)@.pending.len() <= old(buf)@.len() ==> (r matches Ok(n)
                && n == old(self)@.pending.len()),
            r is Ok ==> final(self)@ == state_after_recv(old(self)@),
            r is Ok ==> final(buf)@ == buffer_after_recv(old(self)@, old(buf)@),
    {
        if !self.handle.connected {
            return Err(SessionError::InvalidState);
        }
        let n = self.handle.pending.len();
        if n > buf.len() {
            return Err(SessionError::Overflow);
        }
        let mut i: usize = 0;
        while i < n
            invariant
                n == self.handle.pending@.len(),
                n <= buf@.len(),
                buf@.len() == old(buf)@.len(),
                i <= n,
                self.handle.pending@ == old(self).handle.pending@,
                forall|j: int| 0 <= j < i ==> buf@[j] == self.handle.pending@[j],
                forall|j: int| i <= j < buf@.len() ==> buf@[j] == old(buf)@[j],
            decreases n - i,
        {
            buf[i] = self.handle.pending[i];
            i = i + 1;
        }
        self.handle.pending = Vec::new();
        assert(buf@ =~= buffer_after_recv(old(self)@, old(buf)@));
        Ok(n)
    }

    /// Disconnects (nothing stays pending); `Err(InvalidState)` when not connected.
    pub fn disconnect(&mut self) -> (r: Result<(), SessionError>)
        ensures
            !old(self)@.connected ==> (r matches Err(e) && e == SessionError::InvalidState),
            !old(self)@.connected ==> final(self)@ == old(self)@,
            old(self)@.connected ==> r is Ok,
            old(self)@.connected ==> final(self)@ == state_after_disconnect(old(self)@),
    {
        if !self.handle.connected {
            return Err(SessionError::InvalidState);
        }
        self.handle.connected = false;
        self.handle.pending = Vec::new();
        Ok(())
    }
}

/// Echo: on a connected session with nothing pending, sending `data` and
/// then receiving into a buffer at least as long returns `data.len()` bytes,
/// which are exactly `data`, and leaves nothing pending.
pub proof fn law_echo(s: SessionView, data: Seq<u8>, buf: Seq<u8>)
    requires
        s.connected,
        s.pending.len() == 0,
        data.len() <= buf.len(),
    ensures
        state_after_send(s, data).connected,
        state_after_send(s, data).pending.len() == data.len(),
        state_after_send(s, data).pending.len() <= buf.len(),
        buffer_after_recv(state_after_send(s, data), buf).take(data.len() as int) == data,
        state_after_recv(state_after_send(s, data)).pending.len() == 0,
{
    assert(s.pending + data =~= data);
    assert(buffer_after_recv(state_after_send(s, data), buf).take(data.len() as int) =~= data);
}

/// Options are frozen while connected: a refused `set_option` leaves the
/// session as it was, and a connected session keeps its options across
/// sends and receives.
pub proof fn law_options_frozen_while_connected(s: SessionView, data: Seq<u8>)
    requires
        s.connected,
    ensures
        state_after_send(s, data).options == s.options,
        state_after_recv(s).options == s.options,
{
}

/// Reading back an option: after `set_option(key, value)` on a
/// disconnected session, `get_option(key)` finds `value`, other options are
/// as before, and connecting keeps them.
pub proof fn law_option_read_after_set(s: SessionView, key: Seq<char>, value: Seq<char>, other: Seq<char>)
    requires
        !s.connected,
        other != key,
    ensures
        state_after_set_option(s, key, value).options.contains_key(key),
        state_after_set_option(s, key, value).options[key] == value,
        state_after_set_option(s, key, value).options.contains_key(other) == s.options.contains_key(other),
        s.options.contains_key(other) ==> state_after_set_option(s, key, value).options[other] == s.options[other],
        state_after_connect(state_after_set_option(s, key, value)).options == state_after_set_option(
            s,
            key,
            value,
        ).options,
{
}

} // verus!
