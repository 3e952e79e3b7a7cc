use indexmap::IndexSet;
use slab::Slab;
use vstd::prelude::*;

use crate::pool::model::{
    fresh_top, retired_above, stale_front, without, Acquire, Dispatch, Dispatched, PoolState,
    Scan, Scanned,
};
use crate::pool::order::{
    order_get_index, order_insert, order_is_empty, order_len, order_new, order_shift_remove,
    order_shift_remove_index, set_order,
};
use crate::pool::registry::Registry;
use crate::pool::slots::{slab_entries, slab_get, slab_insert, slab_new, slab_try_remove};
use crate::pool::types::{
    retire, retirement, AvailableConnection, ConnectionType, Key, Probe, Retired, Waiter,
};

verus! {

/// The state that a pool's callers, leases and background task share.
pub struct Inner<Io, Mux> {
    conn_lifetime: u64,
    conn_keep_alive: u64,
    disconnect_timeout: Option<u64>,
    limit: usize,
    acquired: usize,
    available: Registry<Io, Mux>,
    waiters: Slab<Waiter>,
    waiters_queue: IndexSet<usize>,
    arrivals: u64,
}

impl<Io, Mux> View for Inner<Io, Mux> {
    type V = PoolState<Io, Mux>;

    closed spec fn view(&self) -> PoolState<Io, Mux> {
        PoolState {
            limit: self.limit,
            acquired: self.acquired,
            keep_alive: self.conn_keep_alive,
            lifetime: self.conn_lifetime,
            disconnect_timeout: self.disconnect_timeout,
            idle: Map::total(|key: Seq<char>| self.available.idle(key)),
            slots: slab_entries(self.waiters),
            queue: set_order(self.waiters_queue),
            arrivals: self.arrivals,
        }
    }
}

/// Taking the expired entries off the top leaves the same as taking them
/// off what remains once some of them are gone.
proof fn lemma_fresh_top_take<Io, Mux>(
    entries: Seq<AvailableConnection<Io, Mux>>,
    kept: int,
    now: u64,
    keep_alive: u64,
    lifetime: u64,
)
    requires
        0 <= kept <= entries.len(),
        forall|i: int|
            kept <= i < entries.len() ==> (#[trigger] entries[i]).expired(now, keep_alive, lifetime),
    ensures
        fresh_top(entries, now, keep_alive, lifetime) == fresh_top(
            entries.take(kept),
            now,
            keep_alive,
            lifetime,
        ),
    decreases entries.len() - kept,
{
    if kept < entries.len() {
        let shorter = entries.drop_last();
        assert(entries.last() == entries[entries.len() - 1]);
        assert forall|i: int| kept <= i < shorter.len() implies (#[trigger] shorter[i]).expired(
            now,
            keep_alive,
            lifetime,
        ) by {
            assert(shorter[i] == entries[i]);
        }
        lemma_fresh_top_take(shorter, kept, now, keep_alive, lifetime);
        assert(shorter.take(kept) =~= entries.take(kept));
    } else {
        assert(entries.take(kept) =~= entries);
    }
}

/// Taking a token out of a queue without repetitions leaves a queue without
/// repetitions that holds the other tokens and no more.
pub proof fn lemma_without(queue: Seq<usize>, token: usize)
    requires
        queue.no_duplicates(),
    ensures
        without(queue, token).no_duplicates(),
        forall|other: usize|
            #[trigger] without(queue, token).contains(other) <==> (queue.contains(other) && other
                != token),
        queue.len() > 0 && queue[0] == token ==> without(queue, token) == queue.drop_first(),
{
    if queue.contains(token) {
        let at = queue.index_of(token);
        let rest = queue.remove(at);
        assert forall|other: usize| #[trigger] rest.contains(other) <==> (queue.contains(other)
            && other != token) by {
            if rest.contains(other) {
                let j = choose|j: int| 0 <= j < rest.len() && rest[j] == other;
                if j < at {
                    assert(queue[j] == other);
                } else {
                    assert(queue[j + 1] == other);
                }
            }
            if queue.contains(other) && other != token {
                let j = choose|j: int| 0 <= j < queue.len() && queue[j] == other;
                if j < at {
                    assert(rest[j] == other);
                } else {
                    assert(rest[j - 1] == other);
                }
            }
        }
        if queue[0] == token {
            assert(at == 0);
            assert(rest =~= queue.drop_first());
        }
    } else {
        assert forall|other: usize| #[trigger] queue.contains(other) implies other != token by {}
    }
}

/// Skipping one stale token at the head leaves one stale token fewer.
proof fn lemma_stale_front_step(queue: Seq<usize>, slots: Map<usize, Waiter>)
    requires
        queue.len() > 0,
        !slots.dom().contains(queue[0]),
    ensures
        stale_front(queue, slots) == 1 + stale_front(queue.remove(0), slots),
        stale_front(queue, slots) <= queue.len(),
    decreases queue.len(),
{
    assert(queue.remove(0) =~= queue.drop_first());
    lemma_stale_front_bound(queue.drop_first(), slots);
}

proof fn lemma_stale_front_bound(queue: Seq<usize>, slots: Map<usize, Waiter>)
    ensures
        stale_front(queue, slots) <= queue.len(),
    decreases queue.len(),
{
    if queue.len() != 0 && !slots.dom().contains(queue[0]) {
        lemma_stale_front_bound(queue.drop_first(), slots);
    }
}

impl<Io, Mux> Inner<Io, Mux> {
    /// A pool without connections or waiters. Times are in nanoseconds; a
    /// `limit` of zero means that there is no limit.
    pub fn new(
        conn_lifetime: u64,
        conn_keep_alive: u64,
        disconnect_timeout: Option<u64>,
        limit: usize,
    ) -> (pool: Self)
        ensures
            pool@.wf(),
            pool@.limit == limit,
            pool@.acquired == 0,
            pool@.lifetime == conn_lifetime,
            pool@.keep_alive == conn_keep_alive,
            pool@.disconnect_timeout == disconnect_timeout,
            forall|key: Seq<char>| (#[trigger] pool@.idle[key]).len() == 0,
            pool@.slots =~= Map::empty(),
            pool@.queue =~= Seq::empty(),
            pool@.arrivals == 0,
    {
        Inner {
            conn_lifetime,
            conn_keep_alive,
            disconnect_timeout,
            limit,
            acquired: 0,
            available: Registry::new(),
            waiters: slab_new(),
            waiters_queue: order_new(),
            arrivals: 0,
        }
    }

    /// The most connections that may be leased at once; zero for no limit.
    pub fn limit(&self) -> (limit: usize)
        ensures
            limit == self@.limit,
    {
        self.limit
    }

    /// How many connections are leased or being opened.
    pub fn acquired(&self) -> (acquired: usize)
        ensures
            acquired == self@.acquired,
    {
        self.acquired
    }

    /// How many idle connections the endpoint has.
    pub fn idle_count(&self, key: &Key) -> (count: usize)
        ensures
            count == self@.idle[key@].len(),
    {
        self.available.idle_count(key)
    }

    /// How many callers wait for a connection.
    pub fn waiting(&self) -> (count: usize)
        ensures
            count == self@.queue.len(),
    {
        order_len(&self.waiters_queue)
    }

    /// Counts one more connection as leased.
    pub fn reserve(&mut self)
        requires
            old(self)@.acquired < usize::MAX,
        ensures
            final(self)@ == old(self)@.reserved(),
    {
        self.acquired += 1;
    }

    /// Counts one connection fewer as leased.
    pub fn release(&mut self)
        requires
            old(self)@.acquired > 0,
        ensures
            final(self)@ == old(self)@.released(),
    {
        self.acquired -= 1;
    }

    /// Whether the background task is to be woken: somebody waits and
    /// capacity is available, which it always is in a pool without limit.
    pub fn check_availibility(&self) -> (wake: bool)
        ensures
            wake == self@.wakes(),
    {
        !order_is_empty(&self.waiters_queue) && !(self.limit > 0 && self.acquired >= self.limit)
    }

    /// Searches the idle connections of `key` for one to reuse, retiring
    /// the expired ones on the way.
    pub fn scan(&mut self, key: &Key, now: u64) -> (found: (Scan<Io, Mux>, Vec<Retired<Io, Mux>>))
        ensures
            (Scanned { pool: final(self)@, step: found.0, retired: found.1@ }) =~= old(
                self,
            )@.scanned(key@, now),
    {
        let ghost entries = self@.idle[key@];
        let mut retired: Vec<Retired<Io, Mux>> = Vec::new();
        loop
            invariant
                self.conn_lifetime == old(self).conn_lifetime,
                self.conn_keep_alive == old(self).conn_keep_alive,
                self.disconnect_timeout == old(self).disconnect_timeout,
                self.limit == old(self).limit,
                self.acquired == old(self).acquired,
                self.waiters == old(self).waiters,
                self.waiters_queue == old(self).waiters_queue,
                self.arrivals == old(self).arrivals,
                entries == old(self)@.idle[key@],
                self.available.idle(key@).len() <= entries.len(),
                self.available.idle(key@) == entries.take(self.available.idle(key@).len() as int),
                forall|other: Seq<char>|
                    other != key@ ==> #[trigger] self.available.idle(other) == old(
                        self,
                    ).available.idle(other),
                forall|i: int|
                    self.available.idle(key@).len() <= i < entries.len() ==> (
                    #[trigger] entries[i]).expired(now, self.conn_keep_alive, self.conn_lifetime),
                retired@ == retired_above(
                    entries,
                    self.available.idle(key@).len() as int,
                    self.disconnect_timeout,
                ),
            decreases self.available.idle(key@).len(),
        {
            let ghost kept = self.available.idle(key@).len() as int;
            proof {
                lemma_fresh_top_take(
                    entries,
                    kept,
                    now,
                    self.conn_keep_alive,
                    self.conn_lifetime,
                );
            }
            match self.available.pop_back(key) {
                None => {
                    proof {
                        assert(self.available.idle(key@) =~= Seq::empty());
                        assert forall|k: Seq<char>| #[trigger]
                            self@.idle[k] == old(self)@.idle.insert(key@, Seq::empty())[k] by {
                            if k != key@ {
                                assert(self.available.idle(k) == old(self).available.idle(k));
                            }
                        }
                        assert(self@.idle =~= old(self)@.idle.insert(key@, Seq::empty()));
                    }
                    return (Scan::Done(Acquire::Available), retired);
                },
                Some(conn) => {
                    assert(conn == entries[kept - 1]);
                    assert(entries.take(kept).drop_last() =~= entries.take(kept - 1));
                    if conn.is_expired(now, self.conn_keep_alive, self.conn_lifetime) {
                        retired.push(retire(conn.io, self.disconnect_timeout));
                        assert(retired@ =~= retired_above(
                            entries,
                            kept - 1,
                            self.disconnect_timeout,
                        ));
                    } else {
                        proof {
                            assert(entries.take(kept).last() == entries[kept - 1]);
                            assert(fresh_top(
                                entries.take(kept),
                                now,
                                self.conn_keep_alive,
                                self.conn_lifetime,
                            ) == kept);
                            assert forall|k: Seq<char>| #[trigger]
                                self@.idle[k] == old(self)@.idle.insert(
                                    key@,
                                    entries.take(kept - 1),
                                )[k] by {
                                if k != key@ {
                                    assert(self.available.idle(k) == old(self).available.idle(k));
                                }
                            }
                            assert(self@.idle =~= old(self)@.idle.insert(
                                key@,
                                entries.take(kept - 1),
                            ));
                        }
                        let created = conn.created;
                        match conn.io {
                            ConnectionType::H1(io) => {
                                return (Scan::Probe(io, created), retired);
                            },
                            ConnectionType::H2(mux) => {
                                return (
                                    Scan::Done(
                                        Acquire::Acquired(ConnectionType::H2(mux), created),
                                    ),
                                    retired,
                                );
                            },
                        }
                    }
                },
            }
        }
    }

    /// Asks for a connection to `key`. At the limit the answer is
    /// `NotAvailable`; otherwise capacity is reserved and the idle
    /// connections of `key` are searched.
    pub fn acquire(&mut self, key: &Key, now: u64) -> (found: (
        Scan<Io, Mux>,
        Vec<Retired<Io, Mux>>,
    ))
        requires
            old(self)@.wf(),
            old(self)@.countable(),
        ensures
            (Scanned { pool: final(self)@, step: found.0, retired: found.1@ }) =~= old(
                self,
            )@.acquired_for(key@, now),
            final(self)@.wf(),
    {
        if self.limit > 0 && self.acquired >= self.limit {
            return (Scan::Done(Acquire::NotAvailable), Vec::new());
        }
        self.reserve();
        self.scan(key, now)
    }

    /// Resumes the search after the candidate `io` was probed.
    pub fn probed(&mut self, key: &Key, now: u64, io: Io, created: u64, probe: Probe) -> (found: (
        Scan<Io, Mux>,
        Vec<Retired<Io, Mux>>,
    ))
        ensures
            (Scanned { pool: final(self)@, step: found.0, retired: found.1@ }) =~= old(
                self,
            )@.probed(key@, now, io, created, probe),
            old(self)@.wf() ==> final(self)@.wf(),
    {
        let first = match probe {
            Probe::Pending => {
                return (
                    Scan::Done(Acquire::Acquired(ConnectionType::H1(io), created)),
                    Vec::new(),
                );
            },
            Probe::Read(n) => {
                if n > 0 {
                    retire(ConnectionType::H1(io), self.disconnect_timeout)
                } else {
                    Retired::Discard(ConnectionType::H1(io))
                }
            },
            Probe::Failed => Retired::Discard(ConnectionType::H1(io)),
        };
        let (step, mut rest) = self.scan(key, now);
        let ghost tail = rest@;
        rest.insert(0, first);
        assert(rest@ =~= seq![first] + tail);
        (step, rest)
    }

    /// Ends a lease on a connection to `key` by putting the connection on
    /// top of the idle connections of `key`. Says whether the background
    /// task is to be woken.
    pub fn release_conn(&mut self, key: &Key, io: ConnectionType<Io, Mux>, created: u64, now: u64)
        -> (wake: bool)
        requires
            old(self)@.wf(),
            old(self)@.acquired > 0,
        ensures
            final(self)@ =~= old(self)@.returned(key@, io, created, now),
            final(self)@.wf(),
            wake == final(self)@.wakes(),
    {
        self.acquired -= 1;
        self.available.push_back(key, AvailableConnection { io, created, used: now });
        self.check_availibility()
    }

    /// Ends a lease on a connection that is not to be reused: says how the
    /// connection is disposed of, and whether the background task is to be
    /// woken.
    pub fn release_close(&mut self, io: ConnectionType<Io, Mux>) -> (done: (Retired<Io, Mux>, bool))
        requires
            old(self)@.wf(),
            old(self)@.acquired > 0,
        ensures
            final(self)@ == old(self)@.released(),
            final(self)@.wf(),
            done.0 == retirement(io, old(self)@.disconnect_timeout),
            done.1 == final(self)@.wakes(),
    {
        self.acquired -= 1;
        let plan = retire(io, self.disconnect_timeout);
        (plan, self.check_availibility())
    }

    /// How many callers have queued since the pool was made.
    pub fn arrivals(&self) -> (arrivals: u64)
        ensures
            arrivals == self@.arrivals,
    {
        self.arrivals
    }

    /// Queues a caller that waits for a connection to `key`, behind all that
    /// wait already, and gives the token of its slot and its number in the
    /// order of arrival. No capacity is reserved for it.
    pub fn wait_for(&mut self, key: Key) -> (place: (usize, u64))
        requires
            old(self)@.wf(),
            old(self)@.queueable(),
        ensures
            !old(self)@.slots.dom().contains(place.0),
            place.1 == old(self)@.arrivals,
            final(self)@ =~= old(self)@.enqueued(key, place.0),
            final(self)@.wf(),
    {
        let arrival = self.arrivals;
        let token = slab_insert(&mut self.waiters, Waiter { key, arrival });
        assert(!old(self)@.queue.contains(token));
        let fresh = order_insert(&mut self.waiters_queue, token);
        self.arrivals = arrival + 1;
        proof {
            crate::pool::laws::lemma_enqueue_at_back(old(self)@, key, token);
        }
        (token, arrival)
    }

    /// Takes the waiter in slot `token` out of the slot table and the queue.
    fn remove_waiter(&mut self, token: usize)
        requires
            old(self)@.wf(),
        ensures
            final(self)@ =~= old(self)@.dequeued(token),
            final(self)@.wf(),
    {
        let _ = slab_try_remove(&mut self.waiters, token);
        let _ = order_shift_remove(&mut self.waiters_queue, token);
        proof {
            lemma_without(old(self)@.queue, token);
        }
    }

    /// Withdraws the caller with the number `arrival` that waits for `key`
    /// in slot `token`, and says whether it was there to be withdrawn. A
    /// caller that has been served is there no longer, and nothing changes
    /// for whoever has its slot now.
    pub fn release_waiter(&mut self, key: &Key, token: usize, arrival: u64) -> (withdrawn: bool)
        requires
            old(self)@.wf(),
        ensures
            withdrawn == old(self)@.waits(key@, token, arrival),
            final(self)@ =~= old(self)@.abandoned(key@, token, arrival),
            final(self)@.wf(),
    {
        let waits = self.is_waiting(key, token, arrival);
        if waits {
            self.remove_waiter(token);
        }
        waits
    }

    /// Whether the caller with the number `arrival` waits for `key` in
    /// slot `token`.
    pub fn is_waiting(&self, key: &Key, token: usize, arrival: u64) -> (waits: bool)
        ensures
            waits == self@.waits(key@, token, arrival),
    {
        match slab_get(&self.waiters, token) {
            Some(waiter) => waiter.key.same(key) && waiter.arrival == arrival,
            None => false,
        }
    }

    /// Turns a step of the search into what is done for the waiter with
    /// `token`, taking the waiter out of the queue where it is served.
    fn serve(&mut self, token: usize, key: Key, step: Scan<Io, Mux>) -> (action: Dispatch<Io, Mux>)
        requires
            old(self)@.wf(),
        ensures
            forall|retired: Seq<Retired<Io, Mux>>|
                (Dispatched { pool: final(self)@, action, retired }) =~= #[trigger] PoolState::served(
                    Scanned { pool: old(self)@, step, retired },
                    token,
                    key,
                ),
            final(self)@.wf(),
    {
        match step {
            Scan::Probe(io, created) => Dispatch::Probe { token, key, stream: io, created },
            Scan::Done(Acquire::Acquired(io, created)) => {
                self.remove_waiter(token);
                Dispatch::Deliver { token, key, io, created }
            },
            Scan::Done(Acquire::Available) => {
                self.remove_waiter(token);
                Dispatch::Dial { token, key }
            },
            Scan::Done(Acquire::NotAvailable) => Dispatch::Parked,
        }
    }

    /// One round of matching capacity to waiters. Tokens at the head of the
    /// queue that have no slot are dropped from it. Then the longest
    /// waiting caller is served as if it had asked for a connection now,
    /// unless nobody waits or the pool is at its limit.
    pub fn dispatch(&mut self, now: u64) -> (done: (Dispatch<Io, Mux>, Vec<Retired<Io, Mux>>))
        requires
            old(self)@.wf(),
            old(self)@.countable(),
        ensures
            (Dispatched { pool: final(self)@, action: done.0, retired: done.1@ }) =~= old(
                self,
            )@.dispatched(now),
            final(self)@.wf(),
    {
        let ghost mut skipped: int = 0;
        loop
            invariant
                self@.wf(),
                old(self)@.countable(),
                self@ == (PoolState { queue: self@.queue, ..old(self)@ }),
                0 <= skipped <= old(self)@.queue.len(),
                self@.queue == old(self)@.queue.skip(skipped),
                stale_front(old(self)@.queue, old(self)@.slots) == skipped + stale_front(
                    self@.queue,
                    self@.slots,
                ),
            decreases self@.queue.len(),
        {
            match order_get_index(&self.waiters_queue, 0) {
                None => {
                    assert(self@ =~= old(self)@.pruned());
                    return (Dispatch::Parked, Vec::new());
                },
                Some(token) => {
                    match slab_get(&self.waiters, token) {
                        None => {
                            proof {
                                lemma_stale_front_step(self@.queue, self@.slots);
                                assert(self@.queue.remove(0) =~= old(self)@.queue.skip(
                                    skipped + 1,
                                ));
                                lemma_without(self@.queue, token);
                                skipped = skipped + 1;
                            }
                            let _ = order_shift_remove_index(&mut self.waiters_queue, 0);
                        },
                        Some(waiter) => {
                            let key = waiter.key.clone();
                            assert(self@ =~= old(self)@.pruned());
                            if self.limit > 0 && self.acquired >= self.limit {
                                return (Dispatch::Parked, Vec::new());
                            }
                            self.reserve();
                            let (step, retired) = self.scan(&key, now);
                            let action = self.serve(token, key, step);
                            return (action, retired);
                        },
                    }
                },
            }
        }
    }

    /// Resumes a round of matching after the candidate for the waiter with
    /// `token` was probed.
    pub fn dispatch_probed(
        &mut self,
        token: usize,
        key: Key,
        now: u64,
        io: Io,
        created: u64,
        probe: Probe,
    ) -> (done: (Dispatch<Io, Mux>, Vec<Retired<Io, Mux>>))
        requires
            old(self)@.wf(),
        ensures
            (Dispatched { pool: final(self)@, action: done.0, retired: done.1@ })
                =~= PoolState::served(old(self)@.probed(key@, now, io, created, probe), token, key),
            final(self)@.wf(),
    {
        let (step, retired) = self.probed(&key, now, io, created, probe);
        let action = self.serve(token, key, step);
        (action, retired)
    }
}

} // verus!
