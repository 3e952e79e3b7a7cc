use vstd::prelude::*;

use crate::pool::guard::Acquired;
use crate::pool::inner::Inner;
use crate::pool::types::{retirement, ConnectionType, Protocol, Retired};

verus! {

/// A leased connection: the connection, the time at which it was opened,
/// and the guard for the capacity that it holds. A connection that did not
/// come from a pool has no guard.
pub struct IoConnection<Io, Mux> {
    io: ConnectionType<Io, Mux>,
    created: u64,
    pool: Option<Acquired>,
}

impl<Io, Mux> IoConnection<Io, Mux> {
    /// The connection itself.
    pub closed spec fn io(&self) -> ConnectionType<Io, Mux> {
        self.io
    }

    /// The time at which the connection was opened.
    pub closed spec fn created(&self) -> u64 {
        self.created
    }

    /// The guard for the capacity that the lease holds.
    pub closed spec fn guard(&self) -> Option<Acquired> {
        self.pool
    }

    /// Whether ending the lease gives capacity back to a pool.
    pub open spec fn charged(&self) -> bool {
        self.guard() matches Some(guard) && guard.live()
    }

    /// A lease on `io`, opened at `created`.
    pub fn new(io: ConnectionType<Io, Mux>, created: u64, pool: Option<Acquired>) -> (lease: Self)
        ensures
            lease.io() == io,
            lease.created() == created,
            lease.guard() == pool,
    {
        IoConnection { io, created, pool }
    }

    /// Whether ending the lease gives capacity back to a pool.
    pub fn is_charged(&self) -> (charged: bool)
        ensures
            charged == self.charged(),
    {
        match &self.pool {
            Some(guard) => guard.is_live(),
            None => false,
        }
    }

    /// The protocol that the connection speaks.
    pub fn protocol(&self) -> (protocol: Protocol)
        ensures
            protocol == self.io().spec_protocol(),
    {
        self.io.protocol()
    }

    /// Read access to the connection.
    pub fn get_ref(&self) -> (io: &ConnectionType<Io, Mux>)
        ensures
            *io == self.io(),
    {
        &self.io
    }

    /// The time at which the connection was opened.
    pub fn opened_at(&self) -> (created: u64)
        ensures
            created == self.created(),
    {
        self.created
    }

    /// Takes the lease apart into the connection and the time at which it
    /// was opened. The guard goes with it: the capacity must have been
    /// given back before.
    pub fn into_inner(self) -> (parts: (ConnectionType<Io, Mux>, u64))
        ensures
            parts.0 == self.io(),
            parts.1 == self.created(),
    {
        (self.io, self.created)
    }

    /// Takes the lease apart into the connection, the time at which it was
    /// opened, and the guard.
    pub fn into_parts(self) -> (parts: (ConnectionType<Io, Mux>, u64, Option<Acquired>))
        ensures
            parts.0 == self.io(),
            parts.1 == self.created(),
            parts.2 == self.guard(),
    {
        (self.io, self.created, self.pool)
    }

    /// Hands the connection back to the pool at `now`, to be reused. A
    /// lease that holds no capacity hands the connection back to the caller
    /// to be dropped. Says also whether the background task is to be woken.
    pub fn release(self, pool: &mut Inner<Io, Mux>, now: u64) -> (done: (
        Option<ConnectionType<Io, Mux>>,
        bool,
    ))
        requires
            old(pool)@.wf(),
            self.charged() ==> old(pool)@.acquired > 0,
        ensures
            final(pool)@.wf(),
            self.charged() ==> {
                &&& final(pool)@ =~= old(pool)@.returned(
                    self.guard()->0.key()@,
                    self.io(),
                    self.created(),
                    now,
                )
                &&& done.0.is_none()
                &&& done.1 == final(pool)@.wakes()
            },
            !self.charged() ==> {
                &&& final(pool)@ == old(pool)@
                &&& done.0 == Some(self.io())
                &&& !done.1
            },
    {
        match self.pool {
            Some(mut guard) => guard.release(pool, self.io, self.created, now),
            None => (Some(self.io), false),
        }
    }

    /// Ends the lease without reuse of the connection: says how the
    /// connection is disposed of and whether the background task is to be
    /// woken. A lease that holds no capacity has the connection dropped.
    pub fn close(self, pool: &mut Inner<Io, Mux>) -> (done: (Retired<Io, Mux>, bool))
        requires
            old(pool)@.wf(),
            self.charged() ==> old(pool)@.acquired > 0,
        ensures
            final(pool)@.wf(),
            self.charged() ==> {
                &&& final(pool)@ == old(pool)@.released()
                &&& done.0 == retirement(self.io(), old(pool)@.disconnect_timeout)
                &&& done.1 == final(pool)@.wakes()
            },
            !self.charged() ==> {
                &&& final(pool)@ == old(pool)@
                &&& done.0 == Retired::Discard(self.io())
                &&& !done.1
            },
    {
        match self.pool {
            Some(mut guard) => guard.close(pool, self.io),
            None => (Retired::Discard(self.io), false),
        }
    }

    /// What happens when the lease is dropped without `release` or `close`:
    /// the capacity is given back and the connection is handed to the
    /// caller to be dropped.
    pub fn dropped(self, pool: &mut Inner<Io, Mux>) -> (io: ConnectionType<Io, Mux>)
        requires
            self.charged() ==> old(pool)@.acquired > 0,
        ensures
            io == self.io(),
            final(pool)@ == (if self.charged() {
                old(pool)@.released()
            } else {
                old(pool)@
            }),
    {
        match self.pool {
            Some(mut guard) => {
                guard.dropped(pool);
            },
            None => {},
        }
        self.io
    }
}

} // verus!
