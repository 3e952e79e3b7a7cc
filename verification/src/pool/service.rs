use vstd::prelude::*;

use crate::pool::connection::IoConnection;
use crate::pool::error::ConnectError;
use crate::pool::guard::{Acquired, OpenGuard, WaiterGuard};
use crate::pool::inner::Inner;
use crate::pool::model::{Acquire, Scan};
use crate::pool::types::{ConnectionType, Key, Probe, Protocol, Retired};
use crate::text::lowercase;

verus! {

/// How a request for a connection goes on.
pub enum Call<Io, Mux> {
    /// An idle connection is reused: here is the lease.
    Connected(IoConnection<Io, Mux>),
    /// This idle HTTP/1 stream, opened at the given time, is reused if a
    /// non-blocking read on it finds the peer silent. The answer goes to
    /// `call_probed`.
    Probe { key: Key, stream: Io, created: u64 },
    /// A new connection is to be opened by the caller itself, on the
    /// capacity that the guard holds.
    Dial(OpenGuard),
    /// The pool is at its limit: the caller waits in the queue for a reply.
    Wait(WaiterGuard),
}

/// What a request for a connection leads to.
pub struct Called<Io, Mux> {
    /// Whether the background task has to be started: true for the first
    /// request that a pool gets, false from then on.
    pub spawn_support: bool,
    /// How the request goes on, with the connections that were retired on
    /// the way; or why it cannot.
    pub outcome: Result<(Call<Io, Mux>, Vec<Retired<Io, Mux>>), ConnectError>,
}

/// How a new connection that the caller opened itself is put to use.
pub enum Opened {
    /// It speaks HTTP/1: it is leased out as it is, with this guard.
    Lease(Acquired),
    /// It is to speak HTTP/2: the handshake comes first, and the reserved
    /// capacity stays with the guard until it is done.
    Handshake(OpenGuard),
}

/// Whether `step` is what a request for `key` goes on with after the search
/// has come to `scan`. A search that did not begin, because the pool is at
/// its limit, is not covered.
pub open spec fn follows<Io, Mux>(step: Call<Io, Mux>, scan: Scan<Io, Mux>, key: Seq<char>) -> bool {
    match scan {
        Scan::Done(Acquire::Acquired(io, created)) => {
            &&& step matches Call::Connected(lease)
            &&& lease.io() == io
            &&& lease.created() == created
            &&& lease.charged()
            &&& lease.guard()->0.key()@ == key
        },
        Scan::Done(Acquire::Available) => {
            &&& step matches Call::Dial(guard)
            &&& guard.live()
            &&& guard.key()@ == key
        },
        Scan::Probe(io, created) => {
            &&& step matches Call::Probe { key: probed, stream, created: opened }
            &&& probed@ == key
            &&& stream == io
            &&& opened == created
        },
        Scan::Done(Acquire::NotAvailable) => false,
    }
}

/// The entry point of the pool: hands out leases on connections, reusing
/// idle ones, letting the caller open new ones below the limit, and queueing
/// callers at the limit.
pub struct ConnectionPool<Io, Mux> {
    /// The state that callers, leases and the background task share.
    pub inner: Inner<Io, Mux>,
    /// Whether the background task has been started.
    pub support: bool,
}

impl<Io, Mux> ConnectionPool<Io, Mux> {
    /// Whether the background task has been started.
    pub open spec fn supported(&self) -> bool {
        self.support
    }

    /// A pool without connections or waiters, whose background task has
    /// not been started. Times are in nanoseconds; a `limit` of zero means
    /// that there is no limit.
    pub fn new(
        conn_lifetime: u64,
        conn_keep_alive: u64,
        disconnect_timeout: Option<u64>,
        limit: usize,
    ) -> (pool: Self)
        ensures
            !pool.supported(),
            pool.inner@.wf(),
            pool.inner@.limit == limit,
            pool.inner@.acquired == 0,
            pool.inner@.lifetime == conn_lifetime,
            pool.inner@.keep_alive == conn_keep_alive,
            pool.inner@.disconnect_timeout == disconnect_timeout,
            forall|key: Seq<char>| (#[trigger] pool.inner@.idle[key]).len() == 0,
            pool.inner@.slots =~= Map::empty(),
            pool.inner@.queue =~= Seq::empty(),
            pool.inner@.arrivals == 0,
    {
        ConnectionPool {
            inner: Inner::new(conn_lifetime, conn_keep_alive, disconnect_timeout, limit),
            support: false,
        }
    }

    /// What a step of the search means for the caller that asked for `key`.
    fn proceed(key: Key, step: Scan<Io, Mux>) -> (next: Call<Io, Mux>)
        requires
            step != Scan::<Io, Mux>::Done(Acquire::NotAvailable),
        ensures
            follows(next, step, key@),
    {
        match step {
            Scan::Done(Acquire::Acquired(io, created)) => Call::Connected(
                IoConnection::new(io, created, Some(Acquired::new(key))),
            ),
            Scan::Probe(io, created) => Call::Probe { key, stream: io, created },
            _ => Call::Dial(OpenGuard::new(key)),
        }
    }

    /// Asks for a connection to the target with this authority, at `now`.
    ///
    /// A target without authority is refused as unresolved. Otherwise the
    /// caller gets an idle connection of that endpoint, or a candidate to
    /// probe, or the right to open a new connection; at the limit it is
    /// queued behind all that wait already.
    pub fn call(&mut self, authority: Option<&str>, now: u64) -> (called: Called<Io, Mux>)
        requires
            old(self).inner@.wf(),
            old(self).inner@.countable(),
            old(self).inner@.queueable(),
        ensures
            final(self).supported(),
            called.spawn_support == !old(self).supported(),
            final(self).inner@.wf(),
            authority.is_none() ==> {
                &&& called.outcome == Err::<(Call<Io, Mux>, Vec<Retired<Io, Mux>>), _>(
                    ConnectError::Unresolved,
                )
                &&& final(self).inner@ == old(self).inner@
            },
            authority matches Some(target) ==> {
                let key = lowercase(target@);
                let scanned = old(self).inner@.acquired_for(key, now);
                &&& called.outcome matches Ok((step, retired))
                &&& retired@ == scanned.retired
                &&& scanned.step == Scan::<Io, Mux>::Done(Acquire::NotAvailable) ==> {
                    &&& step matches Call::Wait(guard)
                    &&& guard.live()
                    &&& guard.key()@ == key
                    &&& guard.arrival() == old(self).inner@.arrivals
                    &&& !old(self).inner@.slots.dom().contains(guard.token())
                    &&& final(self).inner@ =~= old(self).inner@.enqueued(
                        guard.key(),
                        guard.token(),
                    )
                }
                &&& scanned.step != Scan::<Io, Mux>::Done(Acquire::NotAvailable) ==> {
                    &&& follows(step, scanned.step, key)
                    &&& final(self).inner@ =~= scanned.pool
                }
            },
    {
        let spawn_support = !self.support;
        self.support = true;
        let key = match authority {
            Some(target) => Key::new(target),
            None => {
                return Called { spawn_support, outcome: Err(ConnectError::Unresolved) };
            },
        };
        let (step, retired) = self.inner.acquire(&key, now);
        let next = match step {
            Scan::Done(Acquire::NotAvailable) => {
                let (token, arrival) = self.inner.wait_for(key.clone());
                Call::Wait(WaiterGuard::new(key, token, arrival))
            },
            step => Self::proceed(key, step),
        };
        Called { spawn_support, outcome: Ok((next, retired)) }
    }

    /// Goes on with a request for `key` after its candidate was probed: a
    /// silent stream is leased out; otherwise it is retired or dropped and
    /// the search goes on to the next idle connection.
    pub fn call_probed(
        &mut self,
        key: Key,
        now: u64,
        io: Io,
        created: u64,
        probe: Probe,
    ) -> (next: (Call<Io, Mux>, Vec<Retired<Io, Mux>>))
        requires
            old(self).inner@.wf(),
        ensures
            old(self).supported() == final(self).supported(),
            final(self).inner@.wf(),
            final(self).inner@ =~= old(self).inner@.probed(key@, now, io, created, probe).pool,
            next.1@ == old(self).inner@.probed(key@, now, io, created, probe).retired,
            follows(next.0, old(self).inner@.probed(key@, now, io, created, probe).step, key@),
    {
        let (step, retired) = self.inner.probed(&key, now, io, created, probe);
        (Self::proceed(key, step), retired)
    }

    /// Decides what becomes of a connection that the caller opened itself:
    /// an HTTP/1 connection is leased out at once, an HTTP/2 connection
    /// after its handshake.
    pub fn opened(guard: OpenGuard, protocol: Protocol) -> (next: Opened)
        ensures
            match protocol {
                Protocol::Http1 => {
                    &&& next matches Opened::Lease(lease)
                    &&& lease.live() == guard.live()
                    &&& lease.key() == guard.key()
                },
                Protocol::Http2 => next == Opened::Handshake(guard),
            },
    {
        match protocol {
            Protocol::Http1 => Opened::Lease(guard.consume()),
            Protocol::Http2 => Opened::Handshake(guard),
        }
    }

    /// The lease on a connection that the caller opened itself, at `now`.
    pub fn leased(guard: Acquired, io: ConnectionType<Io, Mux>, now: u64) -> (lease: IoConnection<
        Io,
        Mux,
    >)
        ensures
            lease.io() == io,
            lease.created() == now,
            lease.guard() == Some(guard),
    {
        IoConnection::new(io, now, Some(guard))
    }

    /// The lease on an idle connection that is reused for a caller that
    /// waited for `key`; the connection was opened at `created`.
    pub fn reused(key: Key, io: ConnectionType<Io, Mux>, created: u64) -> (lease: IoConnection<
        Io,
        Mux,
    >)
        ensures
            lease.io() == io,
            lease.created() == created,
            lease.charged(),
            lease.guard()->0.key() == key,
    {
        IoConnection::new(io, created, Some(Acquired::new(key)))
    }

    /// Settles a reply that was sent to a waiting caller. A reply that was
    /// taken needs nothing more: `unsent` is `None` and the pool stays as
    /// it is. A lease that came back because the caller had gone is ended
    /// at `now` by handing its connection to the pool, where it is the
    /// first to be reused for its endpoint; the capacity that it held is
    /// given back, once. Nothing is handed back to be dropped but the
    /// connection of a lease that held no capacity. Says also whether the
    /// background task is to be woken.
    pub fn undelivered(pool: &mut Inner<Io, Mux>, unsent: Option<IoConnection<Io, Mux>>, now: u64)
        -> (done: (Option<ConnectionType<Io, Mux>>, bool))
        requires
            old(pool)@.wf(),
            unsent matches Some(lease) ==> (lease.charged() ==> old(pool)@.acquired > 0),
        ensures
            final(pool)@.wf(),
            match unsent {
                None => {
                    &&& final(pool)@ == old(pool)@
                    &&& done.0.is_none()
                    &&& !done.1
                },
                Some(lease) => if lease.charged() {
                    &&& final(pool)@ =~= old(pool)@.returned(
                        lease.guard()->0.key()@,
                        lease.io(),
                        lease.created(),
                        now,
                    )
                    &&& done.0.is_none()
                    &&& done.1 == final(pool)@.wakes()
                } else {
                    &&& final(pool)@ == old(pool)@
                    &&& done.0 == Some(lease.io())
                    &&& !done.1
                },
            },
    {
        match unsent {
            Some(lease) => lease.release(pool, now),
            None => (None, false),
        }
    }

    /// What a waiting caller gets: the reply, or, where the reply was
    /// dropped unsent, the failure `Disconnected`. Either way the caller's
    /// place in the queue is no longer its own to give up.
    pub fn replied<T>(guard: &mut WaiterGuard, reply: Option<Result<T, ConnectError>>) -> (answer:
        Result<T, ConnectError>)
        ensures
            !final(guard).live(),
            final(guard).key() == old(guard).key(),
            final(guard).token() == old(guard).token(),
            final(guard).arrival() == old(guard).arrival(),
            answer == (match reply {
                Some(reply) => reply,
                None => Err(ConnectError::Disconnected),
            }),
    {
        guard.consume();
        match reply {
            Some(reply) => reply,
            None => Err(ConnectError::Disconnected),
        }
    }
}

} // verus!
