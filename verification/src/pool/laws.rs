//! What holds of the pool from one step to the next, proved from the model.

use vstd::prelude::*;

use crate::pool::inner::lemma_without;
use crate::pool::model::{
    fresh_top, stale_front, without, Acquire, Dispatch, Dispatched, Matched, PoolState, Scan,
};
use crate::pool::types::{retirement, AvailableConnection, ConnectionType, Key, Probe, Retired};

verus! {

/// The top that the search stops at has not expired, and everything above
/// it has.
pub proof fn lemma_fresh_top<Io, Mux>(
    entries: Seq<AvailableConnection<Io, Mux>>,
    now: u64,
    keep_alive: u64,
    lifetime: u64,
)
    ensures
        fresh_top(entries, now, keep_alive, lifetime) <= entries.len(),
        fresh_top(entries, now, keep_alive, lifetime) > 0 ==> !entries[fresh_top(
            entries,
            now,
            keep_alive,
            lifetime,
        ) - 1].expired(now, keep_alive, lifetime),
        forall|i: int|
            fresh_top(entries, now, keep_alive, lifetime) <= i < entries.len() ==> (
            #[trigger] entries[i]).expired(now, keep_alive, lifetime),
    decreases entries.len(),
{
    if entries.len() != 0 && entries.last().expired(now, keep_alive, lifetime) {
        let shorter = entries.drop_last();
        lemma_fresh_top(shorter, now, keep_alive, lifetime);
        let top = fresh_top(entries, now, keep_alive, lifetime);
        assert forall|i: int| top <= i < entries.len() implies (#[trigger] entries[i]).expired(
            now,
            keep_alive,
            lifetime,
        ) by {
            if i < shorter.len() {
                assert(shorter[i] == entries[i]);
            }
        }
        if top > 0 {
            assert(shorter[top - 1] == entries[top - 1]);
        }
    }
}

impl<Io, Mux> Retired<Io, Mux> {
    /// The connection that is disposed of.
    pub open spec fn connection(self) -> ConnectionType<Io, Mux> {
        match self {
            Retired::Shutdown { io, timeout } => io,
            Retired::Discard(io) => io,
        }
    }
}

impl<Io, Mux> Scan<Io, Mux> {
    /// The connection that the search has taken out of the registry for
    /// the caller, if any.
    pub open spec fn connection(self) -> Option<ConnectionType<Io, Mux>> {
        match self {
            Scan::Probe(io, _) => Some(ConnectionType::H1(io)),
            Scan::Done(Acquire::Acquired(io, _)) => Some(io),
            _ => None,
        }
    }
}

impl<Io, Mux> Dispatch<Io, Mux> {
    /// The token of the waiter that is acted for, if any.
    pub open spec fn token(self) -> Option<usize> {
        match self {
            Dispatch::Parked => None,
            Dispatch::Probe { token, .. } => Some(token),
            Dispatch::Deliver { token, .. } => Some(token),
            Dispatch::Dial { token, .. } => Some(token),
        }
    }
}

/// The connections of idle entries, in their order.
pub open spec fn connections<Io, Mux>(entries: Seq<AvailableConnection<Io, Mux>>) -> Seq<
    ConnectionType<Io, Mux>,
> {
    entries.map_values(|entry: AvailableConnection<Io, Mux>| entry.io)
}

/// The connections that a sequence of disposals disposes of, in its order.
pub open spec fn disposed<Io, Mux>(retired: Seq<Retired<Io, Mux>>) -> Seq<ConnectionType<Io, Mux>> {
    retired.map_values(|plan: Retired<Io, Mux>| plan.connection())
}

/// Whether `io` is among the idle connections of the pool.
pub open spec fn holds<Io, Mux>(pool: PoolState<Io, Mux>, io: ConnectionType<Io, Mux>) -> bool {
    exists|key: Seq<char>, i: int|
        0 <= i < pool.idle[key].len() && (#[trigger] pool.idle[key][i]).io == io
}

/// Whether no connection is in the registry twice.
pub open spec fn distinct<Io, Mux>(pool: PoolState<Io, Mux>) -> bool {
    forall|k1: Seq<char>, i1: int, k2: Seq<char>, i2: int|
        0 <= i1 < pool.idle[k1].len() && 0 <= i2 < pool.idle[k2].len() && (
        #[trigger] pool.idle[k1][i1]).io == (#[trigger] pool.idle[k2][i2]).io ==> k1 == k2 && i1
            == i2
}

/// Whether every connection has one owner: none is in the registry twice,
/// and none of the leased ones is in the registry.
pub open spec fn exclusive<Io, Mux>(
    pool: PoolState<Io, Mux>,
    leased: Set<ConnectionType<Io, Mux>>,
) -> bool {
    &&& distinct(pool)
    &&& forall|io: ConnectionType<Io, Mux>| leased.contains(io) ==> !holds(pool, io)
}

/// Disposal keeps hold of the connection: the plan for a retired
/// connection is a plan for that connection.
pub proof fn lemma_retirement_keeps<Io, Mux>(
    io: ConnectionType<Io, Mux>,
    disconnect_timeout: Option<u64>,
)
    ensures
        retirement(io, disconnect_timeout).connection() == io,
{
}

/// Stale rejection. The connection that a search hands out, as acquired or
/// as a candidate, was idle for the endpoint and has not expired; every
/// idle connection of the endpoint that was released after it has expired
/// and was retired, each exactly once, the most recently released first;
/// those released before it stay in the registry.
pub proof fn lemma_scan_rejects_stale<Io, Mux>(pool: PoolState<Io, Mux>, key: Seq<char>, now: u64)
    ensures
        ({
            let entries = pool.idle[key];
            let after = pool.scanned(key, now);
            let top = fresh_top(entries, now, pool.keep_alive, pool.lifetime) as int;
            &&& 0 <= top <= entries.len()
            &&& after.step.connection().is_some() <==> top > 0
            &&& top > 0 ==> {
                &&& after.step.connection() == Some(entries[top - 1].io)
                &&& !entries[top - 1].expired(now, pool.keep_alive, pool.lifetime)
                &&& after.pool.idle[key] == entries.take(top - 1)
            }
            &&& top == 0 ==> after.step == Scan::<Io, Mux>::Done(Acquire::Available)
                && after.pool.idle[key].len() == 0
            &&& after.retired.len() == entries.len() - top
            &&& forall|i: int|
                0 <= i < after.retired.len() ==> {
                    &&& (#[trigger] after.retired[i]).connection() == entries[entries.len() - 1
                        - i].io
                    &&& entries[entries.len() - 1 - i].expired(
                        now,
                        pool.keep_alive,
                        pool.lifetime,
                    )
                }
        }),
{
    let entries = pool.idle[key];
    lemma_fresh_top(entries, now, pool.keep_alive, pool.lifetime);
    let after = pool.scanned(key, now);
    assert forall|i: int| 0 <= i < after.retired.len() implies {
        &&& (#[trigger] after.retired[i]).connection() == entries[entries.len() - 1 - i].io
        &&& entries[entries.len() - 1 - i].expired(now, pool.keep_alive, pool.lifetime)
    } by {
        lemma_retirement_keeps(entries[entries.len() - 1 - i].io, pool.disconnect_timeout);
    }
}

/// No leak. A search loses no connection: the idle connections that the
/// endpoint had are those that it still has, then the one handed out, then
/// the retired ones, latest retired first. No other endpoint is touched,
/// and nothing but the registry changes.
pub proof fn lemma_scan_conserves<Io, Mux>(pool: PoolState<Io, Mux>, key: Seq<char>, now: u64)
    ensures
        ({
            let after = pool.scanned(key, now);
            let handed = match after.step.connection() {
                Some(io) => seq![io],
                None => Seq::empty(),
            };
            &&& connections(pool.idle[key]) =~= connections(after.pool.idle[key]) + handed
                + disposed(after.retired).reverse()
            &&& forall|other: Seq<char>|
                other != key ==> #[trigger] after.pool.idle[other] == pool.idle[other]
            &&& after.pool == (PoolState { idle: after.pool.idle, ..pool })
        }),
{
    lemma_scan_rejects_stale(pool, key, now);
    let entries = pool.idle[key];
    let after = pool.scanned(key, now);
    let handed = match after.step.connection() {
        Some(io) => seq![io],
        None => Seq::empty(),
    };
    let right = connections(after.pool.idle[key]) + handed + disposed(after.retired).reverse();
    assert(right.len() == entries.len());
    assert forall|i: int| 0 <= i < entries.len() implies connections(entries)[i] == right[i] by {
        let top = fresh_top(entries, now, pool.keep_alive, pool.lifetime) as int;
        if i >= top {
            let back = after.retired.len() - 1 - (i - top);
            assert(disposed(after.retired).reverse()[i - top] == after.retired[back].connection());
        }
    }
}

/// Exclusivity, when a connection leaves the registry. Where every
/// connection has one owner before a search, it has one after it, with the
/// connection that the search handed out counted as leased. The retired
/// connections have left the registry too.
pub proof fn lemma_scan_exclusive<Io, Mux>(
    pool: PoolState<Io, Mux>,
    leased: Set<ConnectionType<Io, Mux>>,
    key: Seq<char>,
    now: u64,
)
    requires
        exclusive(pool, leased),
    ensures
        ({
            let after = pool.scanned(key, now);
            &&& match after.step.connection() {
                Some(io) => !holds(after.pool, io) && exclusive(after.pool, leased.insert(io)),
                None => exclusive(after.pool, leased),
            }
            &&& forall|i: int|
                0 <= i < after.retired.len() ==> !holds(
                    after.pool,
                    (#[trigger] after.retired[i]).connection(),
                )
        }),
{
    lemma_scan_rejects_stale(pool, key, now);
    let entries = pool.idle[key];
    let after = pool.scanned(key, now);
    let kept = after.pool.idle[key];
    assert(kept.len() <= entries.len());
    assert(forall|i: int| 0 <= i < kept.len() ==> kept[i] == entries[i]);
    // Whatever the registry holds afterwards, it held before, at the same place.
    assert forall|k: Seq<char>, i: int| 0 <= i < after.pool.idle[k].len() implies 0 <= i
        < pool.idle[k].len() && (#[trigger] after.pool.idle[k][i]) == pool.idle[k][i] by {
        if k != key {
            assert(after.pool.idle[k] == pool.idle[k]);
        }
    }
    assert(distinct(after.pool)) by {
        assert forall|k1: Seq<char>, i1: int, k2: Seq<char>, i2: int|
            0 <= i1 < after.pool.idle[k1].len() && 0 <= i2 < after.pool.idle[k2].len() && (
            #[trigger] after.pool.idle[k1][i1]).io == (#[trigger] after.pool.idle[k2][i2]).io implies k1
            == k2 && i1 == i2 by {
            assert(after.pool.idle[k1][i1] == pool.idle[k1][i1]);
            assert(after.pool.idle[k2][i2] == pool.idle[k2][i2]);
        }
    }
    // A connection that was above the kept part is no longer in the registry.
    assert forall|j: int| kept.len() <= j < entries.len() implies !holds(
        after.pool,
        (#[trigger] entries[j]).io,
    ) by {
        if holds(after.pool, entries[j].io) {
            let (k, i) = choose|k: Seq<char>, i: int|
                0 <= i < after.pool.idle[k].len() && (#[trigger] after.pool.idle[k][i]).io
                    == entries[j].io;
            assert(after.pool.idle[k][i] == pool.idle[k][i]);
            assert(pool.idle[k][i].io == pool.idle[key][j].io);
            assert(k == key && i == j);
        }
    }
    assert forall|io: ConnectionType<Io, Mux>| leased.contains(io) implies !holds(
        after.pool,
        io,
    ) by {
        if holds(after.pool, io) {
            let (k, i) = choose|k: Seq<char>, i: int|
                0 <= i < after.pool.idle[k].len() && (#[trigger] after.pool.idle[k][i]).io == io;
            assert(pool.idle[k][i].io == io);
            assert(holds(pool, io));
        }
    }
    assert forall|i: int| 0 <= i < after.retired.len() implies !holds(
        after.pool,
        (#[trigger] after.retired[i]).connection(),
    ) by {
        let j = entries.len() - 1 - i;
        assert(after.retired[i].connection() == entries[j].io);
    }
    match after.step.connection() {
        Some(io) => {
            let top = fresh_top(entries, now, pool.keep_alive, pool.lifetime) as int;
            assert(io == entries[top - 1].io);
            assert(!holds(after.pool, entries[top - 1].io));
        },
        None => {},
    }
}

/// Exclusivity, when a connection comes back. Where every connection has
/// one owner and a leased one is handed back to the pool, every connection
/// has one owner afterwards: the one handed back is in the registry, on top
/// of its endpoint's idle connections, and no longer leased.
pub proof fn lemma_return_exclusive<Io, Mux>(
    pool: PoolState<Io, Mux>,
    leased: Set<ConnectionType<Io, Mux>>,
    key: Seq<char>,
    io: ConnectionType<Io, Mux>,
    created: u64,
    now: u64,
)
    requires
        exclusive(pool, leased),
        leased.contains(io),
    ensures
        exclusive(pool.returned(key, io, created, now), leased.remove(io)),
        holds(pool.returned(key, io, created, now), io),
        pool.returned(key, io, created, now).idle[key].last().io == io,
{
    let after = pool.returned(key, io, created, now);
    let entries = pool.idle[key];
    let grown = after.idle[key];
    assert(grown[entries.len() as int].io == io);
    // Whatever the registry holds afterwards is the new entry, or was held before.
    assert forall|k: Seq<char>, i: int| 0 <= i < after.idle[k].len() implies (k == key && i
        == entries.len() && (#[trigger] after.idle[k][i]).io == io) || (0 <= i < pool.idle[k].len()
        && after.idle[k][i] == pool.idle[k][i]) by {
        if k != key {
            assert(after.idle[k] == pool.idle[k]);
        }
    }
    assert(!holds(pool, io));
    assert(distinct(after)) by {
        assert forall|k1: Seq<char>, i1: int, k2: Seq<char>, i2: int|
            0 <= i1 < after.idle[k1].len() && 0 <= i2 < after.idle[k2].len() && (
            #[trigger] after.idle[k1][i1]).io == (#[trigger] after.idle[k2][i2]).io implies k1 == k2
            && i1 == i2 by {
            let new1 = k1 == key && i1 == entries.len();
            let new2 = k2 == key && i2 == entries.len();
            if new1 && !new2 {
                assert(pool.idle[k2][i2].io == io);
                assert(holds(pool, io));
            } else if new2 && !new1 {
                assert(pool.idle[k1][i1].io == io);
                assert(holds(pool, io));
            } else if !new1 && !new2 {
                assert(after.idle[k1][i1] == pool.idle[k1][i1]);
                assert(after.idle[k2][i2] == pool.idle[k2][i2]);
            }
        }
    }
    assert forall|other: ConnectionType<Io, Mux>| leased.remove(io).contains(other) implies !holds(
        after,
        other,
    ) by {
        if holds(after, other) {
            let (k, i) = choose|k: Seq<char>, i: int|
                0 <= i < after.idle[k].len() && (#[trigger] after.idle[k][i]).io == other;
            assert(0 <= i < pool.idle[k].len() && after.idle[k][i] == pool.idle[k][i]);
            assert(pool.idle[k][i].io == other);
            assert(holds(pool, other));
        }
    }
}

/// Exclusivity, when a lease ends without the connection coming back: it
/// is closed or dropped. The registry is not touched; the connection is no
/// longer leased, and every connection still has one owner.
pub proof fn lemma_close_exclusive<Io, Mux>(
    pool: PoolState<Io, Mux>,
    leased: Set<ConnectionType<Io, Mux>>,
    io: ConnectionType<Io, Mux>,
)
    requires
        exclusive(pool, leased),
        leased.contains(io),
    ensures
        pool.released().idle == pool.idle,
        !holds(pool.released(), io),
        exclusive(pool.released(), leased.remove(io)),
{
    let after = pool.released();
    assert forall|other: ConnectionType<Io, Mux>| holds(after, other) implies holds(
        pool,
        other,
    ) by {
        let (k, i) = choose|k: Seq<char>, i: int|
            0 <= i < after.idle[k].len() && (#[trigger] after.idle[k][i]).io == other;
        assert(pool.idle[k][i].io == other);
    }
}

/// LIFO reuse. When connection `a` and then connection `b` are handed back
/// for one endpoint, the next search for that endpoint that finds `b`
/// unexpired hands out `b`, and leaves `a` on top of the endpoint's idle
/// connections, so that `a` is what the search after that looks at first.
pub proof fn lemma_lifo_reuse<Io, Mux>(
    pool: PoolState<Io, Mux>,
    key: Seq<char>,
    a: ConnectionType<Io, Mux>,
    a_created: u64,
    a_released: u64,
    b: ConnectionType<Io, Mux>,
    b_created: u64,
    b_released: u64,
    now: u64,
)
    requires
        !(AvailableConnection { io: b, created: b_created, used: b_released }).expired(
            now,
            pool.keep_alive,
            pool.lifetime,
        ),
    ensures
        ({
            let both = pool.returned(key, a, a_created, a_released).returned(
                key,
                b,
                b_created,
                b_released,
            );
            let first = both.scanned(key, now);
            &&& first.step.connection() == Some(b)
            &&& first.retired.len() == 0
            &&& first.pool.idle[key] == pool.idle[key].push(
                AvailableConnection { io: a, created: a_created, used: a_released },
            )
            &&& !(AvailableConnection { io: a, created: a_created, used: a_released }).expired(
                now,
                pool.keep_alive,
                pool.lifetime,
            ) ==> {
                let second = first.pool.scanned(key, now);
                &&& second.step.connection() == Some(a)
                &&& second.retired.len() == 0
                &&& second.pool.idle[key] == pool.idle[key]
            }
        }),
{
    let entry_a = AvailableConnection { io: a, created: a_created, used: a_released };
    let entry_b = AvailableConnection { io: b, created: b_created, used: b_released };
    let both = pool.returned(key, a, a_created, a_released).returned(
        key,
        b,
        b_created,
        b_released,
    );
    let entries = both.idle[key];
    assert(entries =~= pool.idle[key].push(entry_a).push(entry_b));
    assert(entries.last() == entry_b);
    assert(fresh_top(entries, now, both.keep_alive, both.lifetime) == entries.len());
    lemma_scan_rejects_stale(both, key, now);
    let first = both.scanned(key, now);
    assert(entries.take(entries.len() - 1) =~= pool.idle[key].push(entry_a));
    if !entry_a.expired(now, pool.keep_alive, pool.lifetime) {
        let rest = first.pool.idle[key];
        assert(rest.last() == entry_a);
        assert(fresh_top(rest, now, pool.keep_alive, pool.lifetime) == rest.len());
        lemma_scan_rejects_stale(first.pool, key, now);
        assert(rest.take(rest.len() - 1) =~= pool.idle[key]);
    }
}

/// Under the pool's invariant no token at the head of the queue is stale.
pub proof fn lemma_nothing_stale<Io, Mux>(pool: PoolState<Io, Mux>)
    requires
        pool.wf(),
    ensures
        stale_front(pool.queue, pool.slots) == 0,
        pool.pruned() == pool,
{
    if pool.queue.len() > 0 {
        assert(pool.queue.contains(pool.queue[0]));
    }
    assert(pool.queue.skip(0) =~= pool.queue);
}

/// Fairness. A round of matching serves nobody but the caller that has
/// waited longest: the token that it acts for is the head of the queue, and
/// when that caller is served the others move up in their order. So of two
/// waiters the one that was queued later is never served while the earlier
/// one still waits.
pub proof fn lemma_dispatch_is_fifo<Io, Mux>(pool: PoolState<Io, Mux>, now: u64)
    requires
        pool.wf(),
    ensures
        ({
            let after = pool.dispatched(now);
            match after.action {
                Dispatch::Parked => after.pool == pool,
                Dispatch::Probe { token, key, .. } => {
                    &&& token == pool.queue[0]
                    &&& key == pool.slots[token].key
                    &&& after.pool.queue == pool.queue
                    &&& after.pool.slots == pool.slots
                },
                Dispatch::Deliver { token, key, .. } => {
                    &&& token == pool.queue[0]
                    &&& key == pool.slots[token].key
                    &&& after.pool.queue == pool.queue.drop_first()
                    &&& after.pool.slots == pool.slots.remove(token)
                },
                Dispatch::Dial { token, key } => {
                    &&& token == pool.queue[0]
                    &&& key == pool.slots[token].key
                    &&& after.pool.queue == pool.queue.drop_first()
                    &&& after.pool.slots == pool.slots.remove(token)
                },
            }
        }),
        forall|later: int|
            0 < later < pool.queue.len() ==> pool.dispatched(now).action.token() != Some(
                #[trigger] pool.queue[later],
            ),
{
    lemma_nothing_stale(pool);
    if pool.queue.len() > 0 {
        lemma_without(pool.queue, pool.queue[0]);
    }
}

/// A new waiter goes to the back of the queue: everybody who waited before
/// keeps their place. It gets a number that nobody had before it.
pub proof fn lemma_enqueue_at_back<Io, Mux>(pool: PoolState<Io, Mux>, key: Key, token: usize)
    requires
        pool.wf(),
        pool.queueable(),
        !pool.slots.dom().contains(token),
    ensures
        pool.enqueued(key, token).wf(),
        pool.enqueued(key, token).queue.last() == token,
        pool.enqueued(key, token).queue.drop_last() == pool.queue,
        pool.enqueued(key, token).acquired == pool.acquired,
        pool.enqueued(key, token).waits(key@, token, pool.arrivals),
{
    let after = pool.enqueued(key, token);
    assert(after.queue.drop_last() =~= pool.queue);
    assert(!pool.queue.contains(token));
    assert forall|other: usize| after.queue.contains(other) <==> after.slots.dom().contains(
        other,
    ) by {
        if after.queue.contains(other) {
            let j = choose|j: int| 0 <= j < after.queue.len() && after.queue[j] == other;
            if j < pool.queue.len() {
                assert(pool.queue[j] == other);
                assert(pool.queue.contains(other));
            }
        }
        if after.slots.dom().contains(other) {
            if other == token {
                assert(after.queue[pool.queue.len() as int] == token);
            } else {
                assert(pool.queue.contains(other));
                let j = choose|j: int| 0 <= j < pool.queue.len() && pool.queue[j] == other;
                assert(after.queue[j] == other);
            }
        }
    }
    assert forall|i: int, j: int|
        0 <= i < after.queue.len() && 0 <= j < after.queue.len() && i != j implies after.queue[i]
        != after.queue[j] by {
        if i == pool.queue.len() {
            assert(pool.queue[j] == after.queue[j]);
            assert(pool.queue.contains(after.queue[j]));
        } else if j == pool.queue.len() {
            assert(pool.queue[i] == after.queue[i]);
            assert(pool.queue.contains(after.queue[i]));
        } else {
            assert(pool.queue[i] == after.queue[i] && pool.queue[j] == after.queue[j]);
        }
    }
    assert forall|other: usize| after.slots.dom().contains(other) implies (
    #[trigger] after.slots[other]).arrival < after.arrivals by {
        if other != token {
            assert(pool.slots[other].arrival < pool.arrivals);
        }
    }
    assert forall|one: usize, other: usize|
        after.slots.dom().contains(one) && after.slots.dom().contains(other) && (
        #[trigger] after.slots[one]).arrival == (#[trigger] after.slots[other]).arrival implies one
        == other by {
        if one != token {
            assert(pool.slots[one].arrival < pool.arrivals);
        }
        if other != token {
            assert(pool.slots[other].arrival < pool.arrivals);
        }
    }
}

/// Cancellation safety. A caller that is queued and then gives up leaves
/// the pool as it was before it came, but for the count of arrivals: no
/// capacity was charged, its slot and its place in the queue are gone, and
/// whoever asks next is answered as if it had never been there. Likewise
/// capacity that was reserved for opening a connection and given back
/// leaves no trace.
pub proof fn lemma_cancellation_is_clean<Io, Mux>(
    pool: PoolState<Io, Mux>,
    key: Key,
    token: usize,
    next: Seq<char>,
    now: u64,
)
    requires
        pool.wf(),
        pool.queueable(),
        !pool.slots.dom().contains(token),
    ensures
        pool.enqueued(key, token).acquired == pool.acquired,
        pool.enqueued(key, token).abandoned(key@, token, pool.arrivals) =~= (PoolState {
            arrivals: (pool.arrivals + 1) as u64,
            ..pool
        }),
        pool.enqueued(key, token).abandoned(key@, token, pool.arrivals).acquired_for(next, now).step
            == pool.acquired_for(next, now).step,
        pool.enqueued(key, token).abandoned(key@, token, pool.arrivals).acquired_for(
            next,
            now,
        ).retired == pool.acquired_for(next, now).retired,
        pool.enqueued(key, token).abandoned(key@, token, pool.arrivals).gone(pool.arrivals),
        pool.countable() && !pool.exhausted() ==> pool.reserved().released() == pool,
{
    lemma_enqueue_at_back(pool, key, token);
    let queued = pool.enqueued(key, token);
    assert(queued.waits(key@, token, pool.arrivals));
    let at = queued.queue.index_of(token);
    assert(queued.queue[pool.queue.len() as int] == token);
    assert(queued.queue.contains(token));
    assert(at == pool.queue.len());
    assert(queued.queue.remove(at) =~= pool.queue);
    assert(queued.slots.remove(token) =~= pool.slots);
    let after = queued.abandoned(key@, token, pool.arrivals);
    assert(after =~= (PoolState { arrivals: (pool.arrivals + 1) as u64, ..pool }));
    assert forall|other: usize| after.slots.dom().contains(other) implies (
    #[trigger] after.slots[other]).arrival != pool.arrivals by {
        assert(pool.slots[other].arrival < pool.arrivals);
    }
}

/// A caller that has been served is gone: its number is nobody's any more.
pub proof fn lemma_served_is_gone<Io, Mux>(pool: PoolState<Io, Mux>, token: usize)
    requires
        pool.wf(),
        pool.slots.dom().contains(token),
    ensures
        pool.dequeued(token).gone(pool.slots[token].arrival),
{
    let after = pool.dequeued(token);
    assert forall|other: usize| after.slots.dom().contains(other) implies (
    #[trigger] after.slots[other]).arrival != pool.slots[token].arrival by {
        assert(pool.slots.dom().contains(other) && other != token);
    }
}

/// The guard of a caller that is gone is spent: when it is dropped, the
/// pool stays as it is, whoever has the caller's slot now.
pub proof fn lemma_gone_guard_is_spent<Io, Mux>(
    pool: PoolState<Io, Mux>,
    key: Seq<char>,
    token: usize,
    arrival: u64,
)
    requires
        pool.gone(arrival),
    ensures
        !pool.waits(key, token, arrival),
        pool.abandoned(key, token, arrival) == pool,
{
}

/// Exclusivity, when a candidate has been probed. The candidate counts as
/// leased while it is probed. A silent one stays leased; any other is
/// retired or dropped, and the search that follows keeps every connection
/// with one owner.
pub proof fn lemma_probe_exclusive<Io, Mux>(
    pool: PoolState<Io, Mux>,
    leased: Set<ConnectionType<Io, Mux>>,
    key: Seq<char>,
    now: u64,
    io: Io,
    created: u64,
    probe: Probe,
)
    requires
        exclusive(pool, leased),
        leased.contains(ConnectionType::H1(io)),
    ensures
        ({
            let after = pool.probed(key, now, io, created, probe);
            let rest = if probe == Probe::Pending {
                leased
            } else {
                leased.remove(ConnectionType::H1(io))
            };
            &&& probe == Probe::Pending ==> after.step.connection() == Some(
                ConnectionType::<Io, Mux>::H1(io),
            ) && after.pool == pool
            &&& probe != Probe::Pending ==> after.retired.len() > 0
                && after.retired[0].connection() == ConnectionType::<Io, Mux>::H1(io)
            &&& match after.step.connection() {
                Some(found) => exclusive(after.pool, rest.insert(found)),
                None => exclusive(after.pool, rest),
            }
        }),
{
    if probe != Probe::Pending {
        let rest = leased.remove(ConnectionType::H1(io));
        assert(exclusive(pool, rest));
        lemma_scan_exclusive(pool, rest, key, now);
        lemma_retirement_keeps(ConnectionType::<Io, Mux>::H1(io), pool.disconnect_timeout);
    } else {
        assert(leased.insert(ConnectionType::H1(io)) =~= leased);
    }
}

/// No leak, when a waiter has gone. Where a round of matching takes an
/// idle connection for a waiter and the reply cannot be delivered, handing
/// the connection back puts it on top of what the search left of its
/// endpoint's idle connections, with the time at which it was opened, and
/// undoes the reservation made for it: the pool counts as many leased
/// connections as before the round. The waiter is out of the queue and the
/// slot table all the same.
pub proof fn lemma_undelivered_goes_back<Io, Mux>(pool: PoolState<Io, Mux>, now: u64, later: u64)
    requires
        pool.wf(),
        pool.countable(),
    ensures
        pool.dispatched(now).action matches Dispatch::Deliver { token, key, io, created } ==> ({
            let searched = pool.reserved().scanned(key@, now).pool;
            let back = pool.dispatched(now).pool.returned(key@, io, created, later);
            &&& back.wf()
            &&& back.acquired == pool.acquired
            &&& back.idle[key@] == searched.idle[key@].push(
                AvailableConnection { io, created, used: later },
            )
            &&& holds(back, io)
            &&& forall|other: Seq<char>| other != key@ ==> back.idle[other] == pool.idle[other]
            &&& back.queue == pool.queue.drop_first()
            &&& back.slots == pool.slots.remove(token)
        }),
{
    lemma_nothing_stale(pool);
    lemma_dispatch_is_fifo(pool, now);
    match pool.dispatched(now).action {
        Dispatch::Deliver { token, key, io, created } => {
            let searched = pool.reserved().scanned(key@, now).pool;
            let after = pool.dispatched(now).pool;
            lemma_without(pool.queue, token);
            let back = after.returned(key@, io, created, later);
            assert(back.idle[key@][searched.idle[key@].len() as int].io == io);
            lemma_scan_conserves(pool.reserved(), key@, now);
        },
        _ => {},
    }
}

/// No leak, when a lease cannot be delivered. Handing the connection of a
/// lease back to the pool puts it on top of its endpoint's idle
/// connections and gives the capacity back once: the connection is held by
/// the registry, and the count of leased connections falls by one.
pub proof fn lemma_returned_is_held<Io, Mux>(
    pool: PoolState<Io, Mux>,
    key: Seq<char>,
    io: ConnectionType<Io, Mux>,
    created: u64,
    now: u64,
)
    requires
        pool.wf(),
        pool.acquired > 0,
    ensures
        pool.returned(key, io, created, now).wf(),
        pool.returned(key, io, created, now).acquired == pool.acquired - 1,
        pool.returned(key, io, created, now).idle[key] == pool.idle[key].push(
            AvailableConnection { io, created, used: now },
        ),
        holds(pool.returned(key, io, created, now), io),
{
    let back = pool.returned(key, io, created, now);
    assert(back.idle[key][pool.idle[key].len() as int].io == io);
}

/// Whether `tokens` are taken from `queue` in the order of the queue:
/// whether they are what is left of the queue when some of it is taken out.
pub open spec fn in_order(tokens: Seq<usize>, queue: Seq<usize>) -> bool
    decreases queue.len(),
{
    if tokens.len() == 0 {
        true
    } else if queue.len() == 0 {
        false
    } else {
        ||| tokens[0] == queue[0] && in_order(tokens.drop_first(), queue.drop_first())
        ||| in_order(tokens, queue.drop_first())
    }
}

/// The tokens of the waiters that actions are for, in the order of the
/// actions.
pub open spec fn tokens_of<Io, Mux>(actions: Seq<Dispatch<Io, Mux>>) -> Seq<usize> {
    actions.map_values(
        |action: Dispatch<Io, Mux>|
            match action.token() {
                Some(token) => token,
                None => 0,
            },
    )
}

/// What a poll of the background task keeps to, stated of the rounds from
/// one round on: see `lemma_poll_is_fifo`.
pub proof fn lemma_rounds_are_fifo<Io, Mux>(
    pool: PoolState<Io, Mux>,
    bound: nat,
    now: u64,
    gone: Seq<usize>,
)
    requires
        pool.wf(),
        pool.countable(),
    ensures
        ({
            let after = PoolState::continued(pool.dispatched(now), bound, now, gone);
            &&& after.pool.wf()
            &&& after.pool.queue.len() <= pool.queue.len()
            &&& after.pool.queue == pool.queue.skip(pool.queue.len() - after.pool.queue.len())
            &&& forall|i: int| 0 <= i < after.actions.len() ==> !(after.actions[i] is Parked)
            &&& in_order(tokens_of(after.actions), pool.queue)
        }),
    decreases bound,
{
    lemma_nothing_stale(pool);
    lemma_dispatch_is_fifo(pool, now);
    let round = pool.dispatched(now);
    let next = PoolState::settled(round, now, gone);
    let head = PoolState::shown(round, gone);
    let after = PoolState::continued(round, bound, now, gone);
    assert(pool.queue.skip(0) =~= pool.queue);
    match round.action {
        Dispatch::Parked => {
            assert(tokens_of(after.actions) =~= Seq::empty());
        },
        Dispatch::Probe { token, .. } => {
            assert(tokens_of(after.actions) =~= seq![token]);
            assert(seq![token].drop_first() =~= Seq::<usize>::empty());
            assert(in_order(seq![token].drop_first(), pool.queue.drop_first()));
            assert(in_order(seq![token], pool.queue));
        },
        _ => {
            let token = pool.queue[0];
            assert(round.action.token() == Some(token));
            lemma_without(pool.queue, token);
            assert(round.pool.wf()) by {
                let scanned = pool.reserved().scanned(pool.slots[token].key@, now);
                lemma_without(scanned.pool.queue, token);
            }
            assert(next.wf());
            assert(next.queue == pool.queue.drop_first());
            assert(pool.queue.drop_first() =~= pool.queue.skip(1));
            assert(tokens_of(head) =~= if head.len() == 0 {
                Seq::<usize>::empty()
            } else {
                seq![token]
            });
            if next.queue.len() < bound && next.countable() {
                lemma_rounds_are_fifo(next, next.queue.len(), now, gone);
                let rest = PoolState::continued(next.dispatched(now), next.queue.len(), now, gone);
                assert(after.pool == rest.pool);
                assert(after.actions == head + rest.actions);
                let shorter = pool.queue.drop_first();
                assert(shorter.skip(shorter.len() - rest.pool.queue.len()) =~= pool.queue.skip(
                    pool.queue.len() - rest.pool.queue.len(),
                ));
                assert(tokens_of(after.actions) =~= tokens_of(head) + tokens_of(rest.actions));
                assert(in_order(tokens_of(rest.actions), shorter));
                if head.len() > 0 {
                    assert(tokens_of(after.actions).drop_first() =~= tokens_of(rest.actions));
                    assert(tokens_of(after.actions)[0] == pool.queue[0]);
                    assert(in_order(tokens_of(after.actions), pool.queue));
                } else {
                    assert(tokens_of(after.actions) =~= tokens_of(rest.actions));
                    assert(in_order(tokens_of(after.actions), pool.queue));
                }
            } else {
                assert(after.actions == head);
                if head.len() > 0 {
                    assert(tokens_of(head).drop_first() =~= Seq::<usize>::empty());
                    assert(in_order(tokens_of(head).drop_first(), pool.queue.drop_first()));
                    assert(tokens_of(head)[0] == pool.queue[0]);
                }
                assert(in_order(tokens_of(after.actions), pool.queue));
            }
        },
    }
}

/// Fairness over a whole poll. However many rounds a poll of the
/// background task takes, the waiters that it acts for are taken from the
/// queue in the order in which they queued, and those that it does not
/// serve stay queued in their order, behind nobody that came after them.
pub proof fn lemma_poll_is_fifo<Io, Mux>(pool: PoolState<Io, Mux>, now: u64, gone: Seq<usize>)
    requires
        pool.wf(),
    ensures
        ({
            let after = pool.matched(now, gone);
            &&& after.pool.wf()
            &&& after.pool.queue.len() <= pool.queue.len()
            &&& after.pool.queue == pool.queue.skip(pool.queue.len() - after.pool.queue.len())
            &&& forall|i: int| 0 <= i < after.actions.len() ==> !(after.actions[i] is Parked)
            &&& in_order(tokens_of(after.actions), pool.queue)
        }),
{
    if pool.countable() {
        lemma_rounds_are_fifo(pool, pool.queue.len() + 1, now, gone);
    } else {
        assert(pool.queue.skip(0) =~= pool.queue);
        assert(tokens_of(pool.matched(now, gone).actions) =~= Seq::empty());
    }
}

/// Reuse over redial. Where the caller that has waited longest waits for
/// an endpoint whose most recently released idle connection has not
/// expired, and the pool is below its limit, a round of matching never has
/// a connection opened: it takes that idle connection for the caller, an
/// HTTP/2 session to be delivered at once, an HTTP/1 stream to be
/// delivered once the probe has found the peer silent. The caller gets the
/// connection with the time at which it was opened, leaves the queue, and
/// holds the one reservation that the round made.
pub proof fn lemma_reuse_over_redial<Io, Mux>(pool: PoolState<Io, Mux>, now: u64)
    requires
        pool.wf(),
        pool.countable(),
        !pool.exhausted(),
        pool.queue.len() > 0,
        pool.idle[pool.slots[pool.queue[0]].key@].len() > 0,
        !pool.idle[pool.slots[pool.queue[0]].key@].last().expired(
            now,
            pool.keep_alive,
            pool.lifetime,
        ),
    ensures
        ({
            let token = pool.queue[0];
            let key = pool.slots[token].key;
            let top = pool.idle[key@].last();
            let round = pool.dispatched(now);
            let served = match top.io {
                ConnectionType::H1(stream) => PoolState::served(
                    round.pool.probed(key@, now, stream, top.created, Probe::Pending),
                    token,
                    key,
                ),
                ConnectionType::H2(_) => round,
            };
            &&& round.retired.len() == 0
            &&& round.pool.acquired == pool.acquired + 1
            &&& round.pool.idle[key@] == pool.idle[key@].drop_last()
            &&& match top.io {
                ConnectionType::H1(stream) => round.action == (Dispatch::<Io, Mux>::Probe {
                    token,
                    key,
                    stream,
                    created: top.created,
                }),
                ConnectionType::H2(_) => true,
            }
            &&& served.action == (Dispatch::Deliver { token, key, io: top.io, created: top.created })
            &&& served.pool.acquired == pool.acquired + 1
            &&& served.pool.idle[key@] == pool.idle[key@].drop_last()
            &&& served.pool.queue == pool.queue.drop_first()
            &&& served.pool.slots == pool.slots.remove(token)
        }),
{
    lemma_nothing_stale(pool);
    let token = pool.queue[0];
    let key = pool.slots[token].key;
    let entries = pool.idle[key@];
    assert(entries.last() == entries[entries.len() - 1]);
    assert(fresh_top(entries, now, pool.keep_alive, pool.lifetime) == entries.len());
    lemma_scan_rejects_stale(pool.reserved(), key@, now);
    lemma_without(pool.queue, token);
    assert(entries.take(entries.len() - 1) =~= entries.drop_last());
}

/// Who owns which connection depends on the registry alone.
pub proof fn lemma_exclusive_by_registry<Io, Mux>(
    pool: PoolState<Io, Mux>,
    other: PoolState<Io, Mux>,
    leased: Set<ConnectionType<Io, Mux>>,
)
    requires
        exclusive(pool, leased),
        other.idle == pool.idle,
    ensures
        exclusive(other, leased),
        forall|io: ConnectionType<Io, Mux>| holds(other, io) == holds(pool, io),
{
    assert forall|io: ConnectionType<Io, Mux>| holds(other, io) == holds(pool, io) by {
        if holds(other, io) {
            let (k, i) = choose|k: Seq<char>, i: int|
                0 <= i < other.idle[k].len() && (#[trigger] other.idle[k][i]).io == io;
            assert(pool.idle[k][i].io == io);
        }
        if holds(pool, io) {
            let (k, i) = choose|k: Seq<char>, i: int|
                0 <= i < pool.idle[k].len() && (#[trigger] pool.idle[k][i]).io == io;
            assert(other.idle[k][i].io == io);
        }
    }
}

/// Stale rejection, of what a caller is answered. Whatever a request for
/// a connection hands out, as acquired or as a candidate, was idle for the
/// endpoint and has not expired, by keep-alive or by lifetime; all that
/// was released after it had expired and is retired; what was released
/// before it stays in the registry. A request that is refused at the limit
/// changes nothing.
pub proof fn lemma_acquire_rejects_stale<Io, Mux>(pool: PoolState<Io, Mux>, key: Seq<char>, now: u64)
    ensures
        ({
            let entries = pool.idle[key];
            let after = pool.acquired_for(key, now);
            let top = fresh_top(entries, now, pool.keep_alive, pool.lifetime) as int;
            &&& pool.exhausted() ==> after.pool == pool && after.step == Scan::<Io, Mux>::Done(
                Acquire::NotAvailable,
            ) && after.retired.len() == 0
            &&& !pool.exhausted() ==> {
                &&& 0 <= top <= entries.len()
                &&& after.step.connection().is_some() <==> top > 0
                &&& top > 0 ==> {
                    &&& after.step.connection() == Some(entries[top - 1].io)
                    &&& !entries[top - 1].expired(now, pool.keep_alive, pool.lifetime)
                    &&& after.pool.idle[key] == entries.take(top - 1)
                }
                &&& top == 0 ==> after.step == Scan::<Io, Mux>::Done(Acquire::Available)
                    && after.pool.idle[key].len() == 0
                &&& after.retired.len() == entries.len() - top
                &&& forall|i: int|
                    0 <= i < after.retired.len() ==> {
                        &&& (#[trigger] after.retired[i]).connection() == entries[entries.len()
                            - 1 - i].io
                        &&& entries[entries.len() - 1 - i].expired(
                            now,
                            pool.keep_alive,
                            pool.lifetime,
                        )
                    }
            }
        }),
{
    if !pool.exhausted() {
        lemma_scan_rejects_stale(pool.reserved(), key, now);
    }
}

/// Exclusivity, of what a caller is answered. Where every connection has
/// one owner before a request for a connection, it has one after it: the
/// connection that is handed out has left the registry, where it was once
/// and is no more, and counts as leased.
pub proof fn lemma_acquire_exclusive<Io, Mux>(
    pool: PoolState<Io, Mux>,
    leased: Set<ConnectionType<Io, Mux>>,
    key: Seq<char>,
    now: u64,
)
    requires
        exclusive(pool, leased),
    ensures
        ({
            let after = pool.acquired_for(key, now);
            match after.step.connection() {
                Some(io) => {
                    &&& holds(pool, io)
                    &&& !holds(after.pool, io)
                    &&& exclusive(after.pool, leased.insert(io))
                },
                None => exclusive(after.pool, leased),
            }
        }),
{
    if !pool.exhausted() {
        lemma_exclusive_by_registry(pool, pool.reserved(), leased);
        lemma_scan_exclusive(pool.reserved(), leased, key, now);
        lemma_scan_rejects_stale(pool.reserved(), key, now);
        let after = pool.acquired_for(key, now);
        match after.step.connection() {
            Some(io) => {
                let top = fresh_top(pool.idle[key], now, pool.keep_alive, pool.lifetime) as int;
                assert(pool.idle[key][top - 1].io == io);
            },
            None => {},
        }
    }
}

} // verus!
