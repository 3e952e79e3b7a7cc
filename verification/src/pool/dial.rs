use vstd::prelude::*;

use crate::pool::connection::IoConnection;
use crate::pool::guard::Acquired;
use crate::pool::inner::Inner;
use crate::pool::types::{ConnectionType, Key, Protocol};

verus! {

/// What the task that opens a connection for a waiter does next.
pub enum Dialed {
    /// The connection speaks HTTP/1: send it to the waiter as a lease with
    /// this guard, and end.
    DeliverH1(Acquired),
    /// The connection is to speak HTTP/2: start the handshake on it.
    Handshake,
    /// The handshake is done: send the session to the waiter as a lease
    /// with this guard, and end.
    DeliverH2(Acquired),
    /// Opening failed: the reserved capacity has been given back; send the
    /// failure to the waiter, wake the background task if `wake` says so,
    /// and end.
    Fail { wake: bool },
    /// The task had ended before: nothing is done.
    Ended,
}

/// What the task finds when it is polled: what the connector, or once the
/// handshake has begun the handshake, has to say.
pub enum Answer<Io, Mux> {
    /// Nothing yet.
    Pending,
    /// The connector has opened this stream, which speaks this protocol.
    Connected(Io, Protocol),
    /// The handshake has made this session.
    Handshaken(Mux),
    /// The connector or the handshake has failed.
    Failed,
}

/// What a poll of the task comes to.
pub enum Polled<Io, Mux> {
    /// The task is pending.
    Pending,
    /// The task goes on: the HTTP/2 handshake is to be started on this
    /// stream.
    Handshake(Io),
    /// The task is done: this lease is to be sent to the caller.
    Send(IoConnection<Io, Mux>),
    /// The task is done: the caller has gone, and the connection went into
    /// the pool. What is handed back is to be dropped, and the background
    /// task is to be woken if `wake` says so.
    Kept { dropped: Option<ConnectionType<Io, Mux>>, wake: bool },
    /// The task is done: opening failed, the reserved capacity has been
    /// given back, and the failure is to be sent to the caller. The
    /// background task is to be woken if `wake` says so.
    Fail { wake: bool },
    /// The answer does not fit the state of the task, which had ended, or
    /// is in the handshake while the connector answers, or the other way
    /// round. Nothing changes; a connection that came with the answer is
    /// handed back.
    Misplaced(Option<ConnectionType<Io, Mux>>),
}

/// The task that opens a connection for a waiter whom the pool could give
/// no idle one. It holds the capacity reserved for the connection until the
/// connection is delivered, and gives it back on every other way out.
pub struct OpenWaitingConnection {
    key: Key,
    live: bool,
    h2: bool,
}

impl OpenWaitingConnection {
    /// Whether the task still holds the reserved capacity.
    pub closed spec fn live(&self) -> bool {
        self.live
    }

    /// The endpoint that the connection is opened to.
    pub closed spec fn key(&self) -> Key {
        self.key
    }

    /// Whether the task is in the HTTP/2 handshake.
    pub closed spec fn handshaking(&self) -> bool {
        self.h2
    }

    /// The task for a connection to `key`, whose capacity has been
    /// reserved.
    pub fn spawn(key: Key) -> (task: Self)
        ensures
            task.live(),
            task.key() == key,
            !task.handshaking(),
    {
        OpenWaitingConnection { key, live: true, h2: false }
    }

    /// Whether the task is in the HTTP/2 handshake.
    pub fn is_handshaking(&self) -> (handshaking: bool)
        ensures
            handshaking == self.handshaking(),
    {
        self.h2
    }

    /// Whether the task still holds the reserved capacity.
    pub fn is_live(&self) -> (live: bool)
        ensures
            live == self.live(),
    {
        self.live
    }

    /// Gives the reserved capacity back, if the task still holds it.
    fn give_up<Io, Mux>(&mut self, pool: &mut Inner<Io, Mux>) -> (wake: bool)
        requires
            old(self).live() ==> old(pool)@.acquired > 0,
        ensures
            !final(self).live(),
            final(self).key() == old(self).key(),
            final(self).handshaking() == old(self).handshaking(),
            final(pool)@ == (if old(self).live() {
                old(pool)@.released()
            } else {
                old(pool)@
            }),
            wake == (old(self).live() && final(pool)@.wakes()),
    {
        if self.live {
            self.live = false;
            pool.release();
            pool.check_availibility()
        } else {
            false
        }
    }

    /// Hands the reserved capacity over to a lease.
    fn hand_over(&mut self) -> (lease: Acquired)
        requires
            old(self).live(),
        ensures
            !final(self).live(),
            final(self).key() == old(self).key(),
            final(self).handshaking() == old(self).handshaking(),
            lease.live(),
            lease.key() == old(self).key(),
    {
        self.live = false;
        Acquired::new(self.key.clone())
    }

    /// The connector has answered. An HTTP/1 connection is delivered at
    /// once; for HTTP/2 the handshake begins; a failure, `None`, gives the
    /// capacity back. A task that has ended, or is in the handshake already,
    /// does nothing.
    pub fn connected<Io, Mux>(&mut self, pool: &mut Inner<Io, Mux>, answer: Option<Protocol>) -> (next:
        Dialed)
        requires
            old(self).live() ==> old(pool)@.acquired > 0,
        ensures
            final(self).key() == old(self).key(),
            !old(self).live() || old(self).handshaking() ==> {
                &&& next == Dialed::Ended
                &&& *final(self) == *old(self)
                &&& final(pool)@ == old(pool)@
            },
            old(self).live() && !old(self).handshaking() ==> match answer {
                Some(Protocol::Http1) => {
                    &&& next matches Dialed::DeliverH1(lease)
                    &&& lease.live()
                    &&& lease.key() == old(self).key()
                    &&& !final(self).live()
                    &&& final(pool)@ == old(pool)@
                },
                Some(Protocol::Http2) => {
                    &&& next == Dialed::Handshake
                    &&& final(self).live()
                    &&& final(self).handshaking()
                    &&& final(pool)@ == old(pool)@
                },
                None => {
                    &&& next == Dialed::Fail { wake: final(pool)@.wakes() }
                    &&& !final(self).live()
                    &&& final(pool)@ == old(pool)@.released()
                },
            },
    {
        if !self.live || self.h2 {
            return Dialed::Ended;
        }
        match answer {
            Some(Protocol::Http1) => Dialed::DeliverH1(self.hand_over()),
            Some(Protocol::Http2) => {
                self.h2 = true;
                Dialed::Handshake
            },
            None => {
                let wake = self.give_up(pool);
                Dialed::Fail { wake }
            },
        }
    }

    /// The HTTP/2 handshake has ended: with success the session is
    /// delivered, with a failure the capacity is given back. A task that
    /// has ended, or is not in the handshake, does nothing.
    pub fn handshaken<Io, Mux>(&mut self, pool: &mut Inner<Io, Mux>, success: bool) -> (next: Dialed)
        requires
            old(self).live() ==> old(pool)@.acquired > 0,
        ensures
            final(self).key() == old(self).key(),
            !old(self).live() || !old(self).handshaking() ==> {
                &&& next == Dialed::Ended
                &&& *final(self) == *old(self)
                &&& final(pool)@ == old(pool)@
            },
            old(self).live() && old(self).handshaking() && success ==> {
                &&& next matches Dialed::DeliverH2(lease)
                &&& lease.live()
                &&& lease.key() == old(self).key()
                &&& !final(self).live()
                &&& final(pool)@ == old(pool)@
            },
            old(self).live() && old(self).handshaking() && !success ==> {
                &&& next == Dialed::Fail { wake: final(pool)@.wakes() }
                &&& !final(self).live()
                &&& final(pool)@ == old(pool)@.released()
            },
    {
        if !self.live || !self.h2 {
            return Dialed::Ended;
        }
        if success {
            Dialed::DeliverH2(self.hand_over())
        } else {
            let wake = self.give_up(pool);
            Dialed::Fail { wake }
        }
    }

    /// One poll of the task, at `now`. `answer` is what the connector or the
    /// handshake has to say; `alive` says whether the caller still listens
    /// for the reply.
    ///
    /// A stream that speaks HTTP/1, and a session after its handshake, is
    /// leased out with the capacity that the task held: the lease goes to
    /// the caller, or, where the caller has gone, its connection goes into
    /// the pool, on top of the idle connections of its endpoint, and the
    /// capacity is given back. A stream that is to speak HTTP/2 gets its
    /// handshake first. A failure gives the capacity back.
    pub fn poll<Io, Mux>(
        &mut self,
        pool: &mut Inner<Io, Mux>,
        answer: Answer<Io, Mux>,
        alive: bool,
        now: u64,
    ) -> (next: Polled<Io, Mux>)
        requires
            old(pool)@.wf(),
            old(self).live() ==> old(pool)@.acquired > 0,
        ensures
            final(self).key() == old(self).key(),
            final(pool)@.wf(),
            match answer {
                Answer::Pending => {
                    &&& next == Polled::<Io, Mux>::Pending
                    &&& *final(self) == *old(self)
                    &&& final(pool)@ == old(pool)@
                },
                Answer::Connected(io, protocol) => if !old(self).live() || old(
                    self,
                ).handshaking() {
                    &&& next == Polled::<Io, Mux>::Misplaced(Some(ConnectionType::H1(io)))
                    &&& *final(self) == *old(self)
                    &&& final(pool)@ == old(pool)@
                } else if protocol == Protocol::Http2 {
                    &&& next == Polled::<Io, Mux>::Handshake(io)
                    &&& final(self).live()
                    &&& final(self).handshaking()
                    &&& final(pool)@ == old(pool)@
                } else {
                    &&& !final(self).live()
                    &&& Self::delivered(
                        next,
                        old(pool)@,
                        final(pool)@,
                        old(self).key(),
                        ConnectionType::H1(io),
                        alive,
                        now,
                    )
                },
                Answer::Handshaken(mux) => if !old(self).live() || !old(self).handshaking() {
                    &&& next == Polled::<Io, Mux>::Misplaced(Some(ConnectionType::H2(mux)))
                    &&& *final(self) == *old(self)
                    &&& final(pool)@ == old(pool)@
                } else {
                    &&& !final(self).live()
                    &&& Self::delivered(
                        next,
                        old(pool)@,
                        final(pool)@,
                        old(self).key(),
                        ConnectionType::H2(mux),
                        alive,
                        now,
                    )
                },
                Answer::Failed => if !old(self).live() {
                    &&& next == Polled::<Io, Mux>::Misplaced(None)
                    &&& *final(self) == *old(self)
                    &&& final(pool)@ == old(pool)@
                } else {
                    &&& next == Polled::<Io, Mux>::Fail { wake: final(pool)@.wakes() }
                    &&& !final(self).live()
                    &&& final(pool)@ == old(pool)@.released()
                },
            },
    {
        match answer {
            Answer::Pending => Polled::Pending,
            Answer::Connected(io, protocol) => {
                if !self.live || self.h2 {
                    return Polled::Misplaced(Some(ConnectionType::H1(io)));
                }
                match protocol {
                    Protocol::Http2 => {
                        self.h2 = true;
                        Polled::Handshake(io)
                    },
                    Protocol::Http1 => self.deliver(pool, ConnectionType::H1(io), alive, now),
                }
            },
            Answer::Handshaken(mux) => {
                if !self.live || !self.h2 {
                    return Polled::Misplaced(Some(ConnectionType::H2(mux)));
                }
                self.deliver(pool, ConnectionType::H2(mux), alive, now)
            },
            Answer::Failed => {
                if !self.live {
                    return Polled::Misplaced(None);
                }
                let wake = self.give_up(pool);
                Polled::Fail { wake }
            },
        }
    }

    /// Whether `next` is what becomes of the connection `io` that the task
    /// for `key` opened at `now`: a lease on it for the caller, with the
    /// pool left as it was; or, where the caller has gone, the connection
    /// on top of the idle connections of `key` and the capacity given back.
    pub open spec fn delivered<Io, Mux>(
        next: Polled<Io, Mux>,
        before: crate::pool::model::PoolState<Io, Mux>,
        after: crate::pool::model::PoolState<Io, Mux>,
        key: Key,
        io: ConnectionType<Io, Mux>,
        alive: bool,
        now: u64,
    ) -> bool {
        if alive {
            &&& next matches Polled::Send(lease)
            &&& lease.io() == io
            &&& lease.created() == now
            &&& lease.charged()
            &&& lease.guard()->0.key() == key
            &&& after == before
        } else {
            &&& next == Polled::<Io, Mux>::Kept { dropped: None, wake: after.wakes() }
            &&& after =~= before.returned(key@, io, now, now)
        }
    }

    /// Leases the connection out to the caller, or hands it to the pool
    /// where the caller has gone.
    fn deliver<Io, Mux>(
        &mut self,
        pool: &mut Inner<Io, Mux>,
        io: ConnectionType<Io, Mux>,
        alive: bool,
        now: u64,
    ) -> (next: Polled<Io, Mux>)
        requires
            old(pool)@.wf(),
            old(self).live(),
            old(pool)@.acquired > 0,
        ensures
            !final(self).live(),
            final(self).key() == old(self).key(),
            final(self).handshaking() == old(self).handshaking(),
            final(pool)@.wf(),
            Self::delivered(next, old(pool)@, final(pool)@, old(self).key(), io, alive, now),
    {
        let lease = IoConnection::new(io, now, Some(self.hand_over()));
        if alive {
            Polled::Send(lease)
        } else {
            let (dropped, wake) = lease.release(pool, now);
            Polled::Kept { dropped, wake }
        }
    }

    /// What happens when the task is dropped: capacity that it still holds
    /// is given back. Says whether the background task is to be woken.
    pub fn dropped<Io, Mux>(&mut self, pool: &mut Inner<Io, Mux>) -> (wake: bool)
        requires
            old(self).live() ==> old(pool)@.acquired > 0,
        ensures
            !final(self).live(),
            final(self).key() == old(self).key(),
            final(pool)@ == (if old(self).live() {
                old(pool)@.released()
            } else {
                old(pool)@
            }),
            wake == (old(self).live() && final(pool)@.wakes()),
    {
        self.give_up(pool)
    }
}

} // verus!
