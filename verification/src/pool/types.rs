use vstd::prelude::*;

use crate::text::{lowercase, to_ascii_lowercase};

verus! {

/// Protocol version negotiated for a connection.
#[derive(Clone, Copy, Debug, PartialEq, Eq, Structural, Hash)]
pub enum Protocol {
    Http1,
    Http2,
}

/// Identifies the partition of the pool that a connection belongs to: the
/// authority of the target, compared without regard to ASCII case.
///
/// Its view is the authority in ASCII lower case, so two keys name the same
/// endpoint exactly when their views are equal.
#[derive(Debug)]
pub struct Key {
    authority: String,
}

impl View for Key {
    type V = Seq<char>;

    closed spec fn view(&self) -> Seq<char> {
        self.authority@
    }
}

impl Key {
    /// The key of the endpoint with this authority.
    pub fn new(authority: &str) -> (key: Key)
        ensures
            key@ == lowercase(authority@),
    {
        Key { authority: to_ascii_lowercase(authority) }
    }

    /// The authority, in lower case.
    pub fn as_str(&self) -> (text: &str)
        ensures
            text@ == self@,
    {
        self.authority.as_str()
    }

    /// Whether both keys name the same endpoint.
    pub fn same(&self, other: &Key) -> (same: bool)
        ensures
            same == (self@ == other@),
    {
        self.authority == other.authority
    }
}

impl Clone for Key {
    fn clone(&self) -> (copy: Key)
        ensures
            copy == *self,
    {
        Key { authority: self.authority.clone() }
    }
}

/// A caller that waits for a connection: the endpoint that it waits for,
/// and its number in the order in which callers have queued, which tells
/// it from any caller that is given the same slot later.
pub struct Waiter {
    pub key: Key,
    pub arrival: u64,
}

/// A connection as the pool holds it: an HTTP/1 byte stream, or the send
/// side of an HTTP/2 session. The pool never looks inside either.
pub enum ConnectionType<Io, Mux> {
    H1(Io),
    H2(Mux),
}

impl<Io, Mux> ConnectionType<Io, Mux> {
    /// The protocol that the connection speaks.
    pub open spec fn spec_protocol(&self) -> Protocol {
        match self {
            ConnectionType::H1(_) => Protocol::Http1,
            ConnectionType::H2(_) => Protocol::Http2,
        }
    }

    /// The protocol that the connection speaks.
    #[verifier::when_used_as_spec(spec_protocol)]
    pub fn protocol(&self) -> (protocol: Protocol)
        ensures
            protocol == self.spec_protocol(),
    {
        match self {
            ConnectionType::H1(_) => Protocol::Http1,
            ConnectionType::H2(_) => Protocol::Http2,
        }
    }
}

/// The time from `then` to `now`, in nanoseconds; zero where `then` is not
/// in the past.
pub open spec fn elapsed(now: u64, then: u64) -> u64 {
    if now >= then {
        (now - then) as u64
    } else {
        0
    }
}

/// An idle connection in the registry, with the times, in nanoseconds on the
/// pool's clock, at which it was opened and last handed back.
pub struct AvailableConnection<Io, Mux> {
    pub io: ConnectionType<Io, Mux>,
    pub used: u64,
    pub created: u64,
}

impl<Io, Mux> AvailableConnection<Io, Mux> {
    /// Whether the connection may no longer be reused at `now`: it has been
    /// idle for longer than `keep_alive`, or open for longer than `lifetime`.
    pub open spec fn expired(&self, now: u64, keep_alive: u64, lifetime: u64) -> bool {
        elapsed(now, self.used) > keep_alive || elapsed(now, self.created) > lifetime
    }

    /// Whether the connection may no longer be reused at `now`.
    pub fn is_expired(&self, now: u64, keep_alive: u64, lifetime: u64) -> (expired: bool)
        ensures
            expired == self.expired(now, keep_alive, lifetime),
    {
        let idle_for: u64 = if now >= self.used { now - self.used } else { 0 };
        let open_for: u64 = if now >= self.created { now - self.created } else { 0 };
        idle_for > keep_alive || open_for > lifetime
    }
}

/// What a non-blocking read on an idle HTTP/1 stream reported.
#[derive(Clone, Copy, Debug, PartialEq, Eq, Structural)]
pub enum Probe {
    /// Nothing to read: the peer is silent, the stream can be reused.
    Pending,
    /// The read completed with this many bytes; zero is end of stream.
    Read(usize),
    /// The read failed.
    Failed,
}

/// How a connection that leaves the pool for good is disposed of.
pub enum Retired<Io, Mux> {
    /// Shut the connection down cleanly, giving up after `timeout`
    /// nanoseconds.
    Shutdown { io: ConnectionType<Io, Mux>, timeout: u64 },
    /// Drop the connection.
    Discard(ConnectionType<Io, Mux>),
}

/// The disposal of a retired connection: it is shut down cleanly where a
/// disconnect timeout is configured, and dropped where none is.
pub open spec fn retirement<Io, Mux>(
    io: ConnectionType<Io, Mux>,
    disconnect_timeout: Option<u64>,
) -> Retired<Io, Mux> {
    match disconnect_timeout {
        Some(timeout) => Retired::Shutdown { io, timeout },
        None => Retired::Discard(io),
    }
}

/// Decides the disposal of a retired connection.
pub fn retire<Io, Mux>(io: ConnectionType<Io, Mux>, disconnect_timeout: Option<u64>) -> (plan:
    Retired<Io, Mux>)
    ensures
        plan == retirement(io, disconnect_timeout),
{
    match disconnect_timeout {
        Some(timeout) => Retired::Shutdown { io, timeout },
        None => Retired::Discard(io),
    }
}

} // verus!
