use vstd::prelude::*;

use crate::pool::inner::Inner;
use crate::pool::types::{retirement, ConnectionType, Key, Retired};

verus! {

/// The capacity that a lease holds in the pool. It is given back once: the
/// first of `release`, `close` and `dropped` spends the guard, and a spent
/// guard never touches the pool again.
pub struct Acquired {
    key: Key,
    live: bool,
}

impl Acquired {
    /// Whether the guard still holds capacity.
    pub closed spec fn live(&self) -> bool {
        self.live
    }

    /// The endpoint of the leased connection.
    pub closed spec fn key(&self) -> Key {
        self.key
    }

    /// A guard for a connection to `key` whose capacity has been reserved.
    pub fn new(key: Key) -> (guard: Self)
        ensures
            guard.live(),
            guard.key() == key,
    {
        Acquired { key, live: true }
    }

    /// Whether the guard still holds capacity.
    pub fn is_live(&self) -> (live: bool)
        ensures
            live == self.live(),
    {
        self.live
    }

    /// The endpoint of the leased connection.
    pub fn endpoint(&self) -> (key: &Key)
        ensures
            *key == self.key(),
    {
        &self.key
    }

    /// Ends the lease without reuse of the connection: says how the
    /// connection is disposed of and whether the background task is to be
    /// woken. A spent guard leaves the pool alone and has the connection
    /// dropped.
    pub fn close<Io, Mux>(&mut self, pool: &mut Inner<Io, Mux>, io: ConnectionType<Io, Mux>) -> (done:
        (Retired<Io, Mux>, bool))
        requires
            old(pool)@.wf(),
            old(self).live() ==> old(pool)@.acquired > 0,
        ensures
            !final(self).live(),
            final(self).key() == old(self).key(),
            final(pool)@.wf(),
            old(self).live() ==> {
                &&& final(pool)@ == old(pool)@.released()
                &&& done.0 == retirement(io, old(pool)@.disconnect_timeout)
                &&& done.1 == final(pool)@.wakes()
            },
            !old(self).live() ==> {
                &&& final(pool)@ == old(pool)@
                &&& done.0 == Retired::Discard(io)
                &&& !done.1
            },
    {
        if self.live {
            self.live = false;
            pool.release_close(io)
        } else {
            (Retired::Discard(io), false)
        }
    }

    /// Ends the lease by handing the connection, opened at `created`, back
    /// to the pool at `now`: it becomes the first to be reused for its
    /// endpoint. Says whether the background task is to be woken. A spent
    /// guard leaves the pool alone and hands the connection back to be
    /// dropped.
    pub fn release<Io, Mux>(
        &mut self,
        pool: &mut Inner<Io, Mux>,
        io: ConnectionType<Io, Mux>,
        created: u64,
        now: u64,
    ) -> (done: (Option<ConnectionType<Io, Mux>>, bool))
        requires
            old(pool)@.wf(),
            old(self).live() ==> old(pool)@.acquired > 0,
        ensures
            !final(self).live(),
            final(self).key() == old(self).key(),
            final(pool)@.wf(),
            old(self).live() ==> {
                &&& final(pool)@ =~= old(pool)@.returned(old(self).key()@, io, created, now)
                &&& done.0.is_none()
                &&& done.1 == final(pool)@.wakes()
            },
            !old(self).live() ==> {
                &&& final(pool)@ == old(pool)@
                &&& done.0 == Some(io)
                &&& !done.1
            },
    {
        if self.live {
            self.live = false;
            let wake = pool.release_conn(&self.key, io, created, now);
            (None, wake)
        } else {
            (Some(io), false)
        }
    }

    /// What happens when the lease is dropped without `release` or `close`:
    /// the capacity is given back, and nothing else.
    pub fn dropped<Io, Mux>(&mut self, pool: &mut Inner<Io, Mux>)
        requires
            old(self).live() ==> old(pool)@.acquired > 0,
        ensures
            !final(self).live(),
            final(self).key() == old(self).key(),
            final(pool)@ == (if old(self).live() {
                old(pool)@.released()
            } else {
                old(pool)@
            }),
    {
        if self.live {
            self.live = false;
            pool.release();
        }
    }
}

/// The capacity reserved for a connection that is being opened. Consumed
/// when the connection is there; dropped on every other way out.
pub struct OpenGuard {
    key: Key,
    live: bool,
}

impl OpenGuard {
    /// Whether the guard still holds capacity.
    pub closed spec fn live(&self) -> bool {
        self.live
    }

    /// The endpoint that the connection is opened to.
    pub closed spec fn key(&self) -> Key {
        self.key
    }

    /// A guard for a connection to `key` whose capacity has been reserved.
    pub fn new(key: Key) -> (guard: Self)
        ensures
            guard.live(),
            guard.key() == key,
    {
        OpenGuard { key, live: true }
    }

    /// Whether the guard still holds capacity.
    pub fn is_live(&self) -> (live: bool)
        ensures
            live == self.live(),
    {
        self.live
    }

    /// The endpoint that the connection is opened to.
    pub fn endpoint(&self) -> (key: &Key)
        ensures
            *key == self.key(),
    {
        &self.key
    }

    /// The connection is there: the reserved capacity goes over to the
    /// lease on it.
    pub fn consume(self) -> (lease: Acquired)
        ensures
            lease.live() == self.live(),
            lease.key() == self.key(),
    {
        Acquired { key: self.key, live: self.live }
    }

    /// What happens when opening is given up, fails or is cancelled: the
    /// capacity is given back. Says whether the background task is to be
    /// woken.
    pub fn dropped<Io, Mux>(&mut self, pool: &mut Inner<Io, Mux>) -> (wake: bool)
        requires
            old(self).live() ==> old(pool)@.acquired > 0,
        ensures
            !final(self).live(),
            final(self).key() == old(self).key(),
            final(pool)@ == (if old(self).live() {
                old(pool)@.released()
            } else {
                old(pool)@
            }),
            wake == (old(self).live() && final(pool)@.wakes()),
    {
        if self.live {
            self.live = false;
            pool.release();
            pool.check_availibility()
        } else {
            false
        }
    }
}

/// The place of a caller in the queue of waiters. Consumed when the reply
/// has come; dropped when the caller gives up. It knows the caller by its
/// number of arrival, so that it never touches another caller that was
/// given the same slot later.
pub struct WaiterGuard {
    key: Key,
    token: usize,
    arrival: u64,
    live: bool,
}

impl WaiterGuard {
    /// Whether the guard still stands for a place in the queue.
    pub closed spec fn live(&self) -> bool {
        self.live
    }

    /// The endpoint that the caller waits for.
    pub closed spec fn key(&self) -> Key {
        self.key
    }

    /// The token of the caller's slot.
    pub closed spec fn token(&self) -> usize {
        self.token
    }

    /// The caller's number in the order of arrival.
    pub closed spec fn arrival(&self) -> u64 {
        self.arrival
    }

    /// A guard for the caller with the number `arrival` that waits for
    /// `key` in slot `token`.
    pub fn new(key: Key, token: usize, arrival: u64) -> (guard: Self)
        ensures
            guard.live(),
            guard.key() == key,
            guard.token() == token,
            guard.arrival() == arrival,
    {
        WaiterGuard { key, token, arrival, live: true }
    }

    /// Whether the guard still stands for a place in the queue.
    pub fn is_live(&self) -> (live: bool)
        ensures
            live == self.live(),
    {
        self.live
    }

    /// The endpoint that the caller waits for.
    pub fn endpoint(&self) -> (key: &Key)
        ensures
            *key == self.key(),
    {
        &self.key
    }

    /// The token of the caller's slot.
    pub fn slot(&self) -> (token: usize)
        ensures
            token == self.token(),
    {
        self.token
    }

    /// The caller's number in the order of arrival.
    pub fn number(&self) -> (arrival: u64)
        ensures
            arrival == self.arrival(),
    {
        self.arrival
    }

    /// The reply has come: the guard is spent and the pool is left alone.
    pub fn consume(&mut self)
        ensures
            !final(self).live(),
            final(self).key() == old(self).key(),
            final(self).token() == old(self).token(),
            final(self).arrival() == old(self).arrival(),
    {
        self.live = false;
    }

    /// What happens when the caller gives up waiting: it leaves the slot
    /// table and the queue, if it still waits. Says whether it did, and
    /// whether the background task is to be woken, so that the others are
    /// not held up. A caller that has been served waits no longer: then
    /// nothing changes, whoever has its slot now.
    pub fn dropped<Io, Mux>(&mut self, pool: &mut Inner<Io, Mux>) -> (done: (bool, bool))
        requires
            old(pool)@.wf(),
        ensures
            !final(self).live(),
            final(self).key() == old(self).key(),
            final(self).token() == old(self).token(),
            final(self).arrival() == old(self).arrival(),
            final(pool)@.wf(),
            final(pool)@ =~= (if old(self).live() {
                old(pool)@.abandoned(old(self).key()@, old(self).token(), old(self).arrival())
            } else {
                old(pool)@
            }),
            done.0 == (old(self).live() && old(pool)@.waits(
                old(self).key()@,
                old(self).token(),
                old(self).arrival(),
            )),
            done.1 == (old(self).live() && final(pool)@.wakes()),
    {
        if self.live {
            self.live = false;
            let withdrawn = pool.release_waiter(&self.key, self.token, self.arrival);
            (withdrawn, pool.check_availibility())
        } else {
            (false, false)
        }
    }
}

} // verus!
