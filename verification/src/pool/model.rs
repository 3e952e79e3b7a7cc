use vstd::prelude::*;

use crate::pool::types::{
    retirement, AvailableConnection, ConnectionType, Key, Probe, Retired, Waiter,
};

verus! {

/// The outcome of asking the pool for a connection.
pub enum Acquire<Io, Mux> {
    /// An idle connection is reused; with it, the time at which it was opened.
    Acquired(ConnectionType<Io, Mux>, u64),
    /// No idle connection could be reused: the caller opens a new one, for
    /// which capacity has been reserved.
    Available,
    /// The pool is at its limit: the caller has to wait.
    NotAvailable,
}

/// Where the search through an endpoint's idle connections stands.
pub enum Scan<Io, Mux> {
    /// The search is over.
    Done(Acquire<Io, Mux>),
    /// This HTTP/1 stream, opened at the given time, is the next candidate.
    /// It has left the registry; whether it is reused depends on what a
    /// non-blocking read on it reports.
    Probe(Io, u64),
}

/// What the pool does for the waiter at the head of its queue.
pub enum Dispatch<Io, Mux> {
    /// Nothing: nobody waits, or the pool is at its limit.
    Parked,
    /// The waiter with this token may get this HTTP/1 stream, opened at the
    /// given time, once a non-blocking read on it has been reported back.
    Probe { token: usize, key: Key, stream: Io, created: u64 },
    /// The waiter with this token gets this idle connection. It has left
    /// the queue.
    Deliver { token: usize, key: Key, io: ConnectionType<Io, Mux>, created: u64 },
    /// A connection is to be opened for the waiter with this token, on the
    /// capacity reserved for it. It has left the queue.
    Dial { token: usize, key: Key },
}

/// The state of a pool as the contracts see it.
#[verifier::ext_equal]
pub struct PoolState<Io, Mux> {
    /// The most connections that may be leased at once; zero for no limit.
    pub limit: usize,
    /// How many connections are leased or being opened.
    pub acquired: usize,
    /// How long a connection may sit idle and still be reused, in nanoseconds.
    pub keep_alive: u64,
    /// How long after it was opened a connection may still be reused.
    pub lifetime: u64,
    /// How long a clean shutdown may take; `None` where connections are
    /// simply dropped.
    pub disconnect_timeout: Option<u64>,
    /// The idle connections of every endpoint, most recently released last.
    pub idle: Map<Seq<char>, Seq<AvailableConnection<Io, Mux>>>,
    /// The callers that wait, by slot token.
    pub slots: Map<usize, Waiter>,
    /// The tokens of the waiters, longest waiting first.
    pub queue: Seq<usize>,
    /// How many callers have queued since the pool was made.
    pub arrivals: u64,
}

/// A pool state together with what a step of the search produced.
#[verifier::ext_equal]
pub struct Scanned<Io, Mux> {
    pub pool: PoolState<Io, Mux>,
    pub step: Scan<Io, Mux>,
    /// The connections that the step retired, in the order in which it met
    /// them.
    pub retired: Seq<Retired<Io, Mux>>,
}

/// A pool state together with what a dispatch did.
#[verifier::ext_equal]
pub struct Dispatched<Io, Mux> {
    pub pool: PoolState<Io, Mux>,
    pub action: Dispatch<Io, Mux>,
    pub retired: Seq<Retired<Io, Mux>>,
}

/// A pool state together with what a poll of the background task did: the
/// actions that it leaves to its caller, in their order, and the
/// connections that it retired.
#[verifier::ext_equal]
pub struct Matched<Io, Mux> {
    pub pool: PoolState<Io, Mux>,
    pub actions: Seq<Dispatch<Io, Mux>>,
    pub retired: Seq<Retired<Io, Mux>>,
}

/// How many of `entries`, counted from the oldest, remain when all expired
/// entries on top have been taken off: the top one of them, if there is
/// one, has not expired.
pub open spec fn fresh_top<Io, Mux>(
    entries: Seq<AvailableConnection<Io, Mux>>,
    now: u64,
    keep_alive: u64,
    lifetime: u64,
) -> nat
    decreases entries.len(),
{
    if entries.len() == 0 {
        0
    } else if entries.last().expired(now, keep_alive, lifetime) {
        fresh_top(entries.drop_last(), now, keep_alive, lifetime)
    } else {
        entries.len()
    }
}

/// The disposals of the entries from position `from` on, topmost first.
pub open spec fn retired_above<Io, Mux>(
    entries: Seq<AvailableConnection<Io, Mux>>,
    from: int,
    disconnect_timeout: Option<u64>,
) -> Seq<Retired<Io, Mux>> {
    Seq::new(
        (entries.len() - from) as nat,
        |i: int| retirement(entries[entries.len() - 1 - i].io, disconnect_timeout),
    )
}

/// A queue without `token`; the others keep their order.
pub open spec fn without(queue: Seq<usize>, token: usize) -> Seq<usize> {
    if queue.contains(token) {
        queue.remove(queue.index_of(token))
    } else {
        queue
    }
}

/// How many tokens at the head of `queue` have no slot.
pub open spec fn stale_front(queue: Seq<usize>, slots: Map<usize, Waiter>) -> nat
    decreases queue.len(),
{
    if queue.len() == 0 || slots.dom().contains(queue[0]) {
        0
    } else {
        1 + stale_front(queue.drop_first(), slots)
    }
}

impl<Io, Mux> PoolState<Io, Mux> {
    /// What holds of every pool: a limited pool is within its limit; the
    /// registry has a list of idle connections, maybe an empty one, for
    /// every endpoint; no token is queued twice; the queue holds exactly
    /// the tokens that have a slot; and every waiter has a number of its
    /// own, below the count of arrivals.
    pub open spec fn wf(self) -> bool {
        &&& self.limit > 0 ==> self.acquired <= self.limit
        &&& forall|key: Seq<char>| self.idle.dom().contains(key)
        &&& self.queue.no_duplicates()
        &&& forall|token: usize| self.queue.contains(token) <==> self.slots.dom().contains(token)
        &&& forall|token: usize|
            self.slots.dom().contains(token) ==> (#[trigger] self.slots[token]).arrival
                < self.arrivals
        &&& forall|one: usize, other: usize|
            self.slots.dom().contains(one) && self.slots.dom().contains(other) && (
            #[trigger] self.slots[one]).arrival == (#[trigger] self.slots[other]).arrival ==> one
                == other
    }

    /// Whether the caller with the number `arrival` has queued and waits
    /// no longer.
    pub open spec fn gone(self, arrival: u64) -> bool {
        &&& arrival < self.arrivals
        &&& forall|token: usize|
            self.slots.dom().contains(token) ==> (#[trigger] self.slots[token]).arrival != arrival
    }

    /// Whether the pool is at its limit.
    pub open spec fn exhausted(self) -> bool {
        self.limit > 0 && self.acquired >= self.limit
    }

    /// Whether the count of leased connections can still grow: a pool
    /// without limit counts as far as the machine's integers reach.
    pub open spec fn countable(self) -> bool {
        self.limit == 0 ==> self.acquired < usize::MAX
    }

    /// Whether the background task is to be woken: somebody waits and
    /// capacity is available, which it always is in a pool without limit.
    pub open spec fn wakes(self) -> bool {
        self.queue.len() > 0 && !self.exhausted()
    }

    /// Whether one more caller can be numbered: arrivals are counted as
    /// far as the machine's integers reach.
    pub open spec fn queueable(self) -> bool {
        self.arrivals < u64::MAX
    }

    /// The pool with one more connection counted as leased.
    pub open spec fn reserved(self) -> Self {
        PoolState { acquired: (self.acquired + 1) as usize, ..self }
    }

    /// The pool with one connection fewer counted as leased.
    pub open spec fn released(self) -> Self {
        PoolState { acquired: (self.acquired - 1) as usize, ..self }
    }

    /// The search through the idle connections of `key`, from the most
    /// recently released down: expired entries are retired; the first entry
    /// that has not expired ends the search and leaves the registry, an
    /// HTTP/2 session as acquired, an HTTP/1 stream as a candidate to be
    /// probed. Without such an entry a new connection is to be opened.
    pub open spec fn scanned(self, key: Seq<char>, now: u64) -> Scanned<Io, Mux> {
        let entries = self.idle[key];
        let top = fresh_top(entries, now, self.keep_alive, self.lifetime) as int;
        let retired = retired_above(entries, top, self.disconnect_timeout);
        if top == 0 {
            Scanned {
                pool: PoolState { idle: self.idle.insert(key, Seq::empty()), ..self },
                step: Scan::Done(Acquire::Available),
                retired,
            }
        } else {
            Scanned {
                pool: PoolState { idle: self.idle.insert(key, entries.take(top - 1)), ..self },
                step: match entries[top - 1].io {
                    ConnectionType::H1(io) => Scan::Probe(io, entries[top - 1].created),
                    ConnectionType::H2(mux) => Scan::Done(
                        Acquire::Acquired(ConnectionType::H2(mux), entries[top - 1].created),
                    ),
                },
                retired,
            }
        }
    }

    /// Asking for a connection to `key`: at the limit the answer is
    /// `NotAvailable` and nothing changes; otherwise capacity is reserved
    /// and the idle connections of `key` are searched.
    pub open spec fn acquired_for(self, key: Seq<char>, now: u64) -> Scanned<Io, Mux> {
        if self.exhausted() {
            Scanned { pool: self, step: Scan::Done(Acquire::NotAvailable), retired: Seq::empty() }
        } else {
            self.reserved().scanned(key, now)
        }
    }

    /// The search resumed after the candidate `io` was probed: a silent
    /// stream is acquired; one that had bytes to read is retired as the
    /// pool retires connections; one at end of stream or in error is
    /// dropped; after either of the last two the search goes on.
    pub open spec fn probed(self, key: Seq<char>, now: u64, io: Io, created: u64, probe: Probe)
        -> Scanned<Io, Mux> {
        match probe {
            Probe::Pending => Scanned {
                pool: self,
                step: Scan::Done(Acquire::Acquired(ConnectionType::H1(io), created)),
                retired: Seq::empty(),
            },
            _ => {
                let first = if probe matches Probe::Read(n) && n > 0 {
                    retirement(ConnectionType::H1(io), self.disconnect_timeout)
                } else {
                    Retired::Discard(ConnectionType::H1(io))
                };
                let rest = self.scanned(key, now);
                Scanned { retired: seq![first] + rest.retired, ..rest }
            },
        }
    }

    /// The pool after a lease on a connection to `key` ended with the
    /// connection going back on top of the idle connections of `key`.
    pub open spec fn returned(self, key: Seq<char>, io: ConnectionType<Io, Mux>, created: u64, now: u64)
        -> Self {
        PoolState {
            acquired: (self.acquired - 1) as usize,
            idle: self.idle.insert(
                key,
                self.idle[key].push(AvailableConnection { io, created, used: now }),
            ),
            ..self
        }
    }

    /// The pool with a new waiter for `key` in the vacant slot `token`, at
    /// the back of the queue. The waiter's number is the count of arrivals
    /// before it.
    pub open spec fn enqueued(self, key: Key, token: usize) -> Self {
        PoolState {
            slots: self.slots.insert(token, Waiter { key, arrival: self.arrivals }),
            queue: self.queue.push(token),
            arrivals: (self.arrivals + 1) as u64,
            ..self
        }
    }

    /// Whether the caller with the number `arrival` waits for `key` in
    /// slot `token`.
    pub open spec fn waits(self, key: Seq<char>, token: usize, arrival: u64) -> bool {
        &&& self.slots.dom().contains(token)
        &&& self.slots[token].key@ == key
        &&& self.slots[token].arrival == arrival
    }

    /// The pool without the waiter in slot `token`.
    pub open spec fn dequeued(self, token: usize) -> Self {
        PoolState { slots: self.slots.remove(token), queue: without(self.queue, token), ..self }
    }

    /// The pool after the caller with the number `arrival` gave up
    /// waiting for `key` in slot `token`: it leaves the slot table and the
    /// queue. Where that caller waits there no longer, because it has been
    /// served, nothing changes, whoever has the slot now.
    pub open spec fn abandoned(self, key: Seq<char>, token: usize, arrival: u64) -> Self {
        if self.waits(key, token, arrival) {
            self.dequeued(token)
        } else {
            self
        }
    }

    /// What a step of the search means for the waiter with `token`: a
    /// candidate is probed on its behalf; an acquired connection is
    /// delivered to it and a new one is opened for it, and either takes it
    /// out of the slot table and the queue.
    pub open spec fn served(scanned: Scanned<Io, Mux>, token: usize, key: Key) -> Dispatched<
        Io,
        Mux,
    > {
        match scanned.step {
            Scan::Probe(io, created) => Dispatched {
                pool: scanned.pool,
                action: Dispatch::Probe { token, key, stream: io, created },
                retired: scanned.retired,
            },
            Scan::Done(Acquire::Acquired(io, created)) => Dispatched {
                pool: scanned.pool.dequeued(token),
                action: Dispatch::Deliver { token, key, io, created },
                retired: scanned.retired,
            },
            Scan::Done(Acquire::Available) => Dispatched {
                pool: scanned.pool.dequeued(token),
                action: Dispatch::Dial { token, key },
                retired: scanned.retired,
            },
            Scan::Done(Acquire::NotAvailable) => Dispatched {
                pool: scanned.pool,
                action: Dispatch::Parked,
                retired: scanned.retired,
            },
        }
    }

    /// The pool with the tokens at the head of the queue that have no slot
    /// taken off.
    pub open spec fn pruned(self) -> Self {
        PoolState { queue: self.queue.skip(stale_front(self.queue, self.slots) as int), ..self }
    }

    /// One round of matching capacity to waiters: the longest waiting one
    /// is served, unless nobody waits or the pool is at its limit.
    pub open spec fn dispatched(self, now: u64) -> Dispatched<Io, Mux> {
        let pool = self.pruned();
        if pool.queue.len() == 0 || pool.exhausted() {
            Dispatched { pool, action: Dispatch::Parked, retired: Seq::empty() }
        } else {
            let token = pool.queue[0];
            let key = pool.slots[token].key;
            Self::served(pool.reserved().scanned(key@, now), token, key)
        }
    }

    /// The pool after a round has been settled, where the callers with the
    /// tokens `gone` listen no longer: an idle connection that was taken
    /// for one of them goes back on top of the idle connections of its
    /// endpoint, and the capacity reserved for it is given back.
    pub open spec fn settled(round: Dispatched<Io, Mux>, now: u64, gone: Seq<usize>) -> Self {
        match round.action {
            Dispatch::Deliver { token, key, io, created } => if gone.contains(token) {
                round.pool.returned(key@, io, created, now)
            } else {
                round.pool
            },
            _ => round.pool,
        }
    }

    /// What a round leaves to the caller of the background task: nothing
    /// where it was parked or where its connection went back to the pool,
    /// else its action.
    pub open spec fn shown(round: Dispatched<Io, Mux>, gone: Seq<usize>) -> Seq<Dispatch<Io, Mux>> {
        match round.action {
            Dispatch::Parked => Seq::empty(),
            Dispatch::Deliver { token, .. } => if gone.contains(token) {
                Seq::empty()
            } else {
                seq![round.action]
            },
            _ => seq![round.action],
        }
    }

    /// A poll of the background task from the round `round` on. The round
    /// is settled; then round follows round, each for the caller that has
    /// waited longest, until a round is parked or has a candidate to be
    /// probed, or capacity cannot be counted further. `bound` is above the
    /// length that the queue must have for another round.
    pub open spec fn continued(round: Dispatched<Io, Mux>, bound: nat, now: u64, gone: Seq<usize>)
        -> Matched<Io, Mux>
        decreases bound,
    {
        let next = Self::settled(round, now, gone);
        let head = Self::shown(round, gone);
        if round.action is Parked || round.action is Probe || next.queue.len() >= bound
            || !next.countable() {
            Matched { pool: next, actions: head, retired: round.retired }
        } else {
            let rest = Self::continued(next.dispatched(now), next.queue.len(), now, gone);
            Matched {
                pool: rest.pool,
                actions: head + rest.actions,
                retired: round.retired + rest.retired,
            }
        }
    }

    /// A poll of the background task at `now`, where the callers with the
    /// tokens `gone` listen no longer.
    pub open spec fn matched(self, now: u64, gone: Seq<usize>) -> Matched<Io, Mux> {
        if self.countable() {
            Self::continued(self.dispatched(now), self.queue.len() + 1, now, gone)
        } else {
            Matched { pool: self, actions: Seq::empty(), retired: Seq::empty() }
        }
    }

    /// A poll of the background task resumed after the candidate for the
    /// waiter with `token` was probed.
    pub open spec fn resumed(
        self,
        token: usize,
        key: Key,
        now: u64,
        stream: Io,
        created: u64,
        probe: Probe,
        gone: Seq<usize>,
    ) -> Matched<Io, Mux> {
        Self::continued(
            Self::served(self.probed(key@, now, stream, created, probe), token, key),
            self.queue.len() + 1,
            now,
            gone,
        )
    }
}

} // verus!
