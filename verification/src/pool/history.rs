//! What holds of the pool over whole histories: whatever sequence of events
//! it goes through, it counts exactly the capacity that is held in it, it
//! stays within its limit, and every connection has one owner.

use vstd::prelude::*;

use crate::pool::inner::lemma_without;
use crate::pool::laws::{
    exclusive, holds, lemma_close_exclusive, lemma_enqueue_at_back, lemma_exclusive_by_registry,
    lemma_nothing_stale, lemma_probe_exclusive, lemma_return_exclusive, lemma_scan_exclusive,
};
use crate::pool::model::{Dispatch, PoolState};
use crate::pool::types::{ConnectionType, Key, Probe};

verus! {

/// What can happen to a pool, one event at a time.
pub enum Event<Io, Mux> {
    /// A caller asks for a connection to `endpoint`.
    Acquire { endpoint: Seq<char>, now: u64 },
    /// The candidate of a caller was probed.
    Probed { endpoint: Seq<char>, now: u64, stream: Io, created: u64, probe: Probe },
    /// A connection was opened on capacity that had been reserved for it.
    Opened { io: ConnectionType<Io, Mux> },
    /// A lease ends with the connection handed back to the pool.
    Return { endpoint: Seq<char>, io: ConnectionType<Io, Mux>, created: u64, now: u64 },
    /// A lease ends with the connection closed or dropped.
    Close { io: ConnectionType<Io, Mux> },
    /// Capacity that was reserved for opening a connection is given back
    /// without a connection.
    GiveBack,
    /// A caller queues for `key` in slot `token`.
    Wait { key: Key, token: usize },
    /// The guard of the caller with the number `arrival`, which queued for
    /// `endpoint` in slot `token`, is dropped.
    GiveUp { endpoint: Seq<char>, token: usize, arrival: u64 },
    /// The background task matches capacity to the longest waiting caller.
    Dispatch { now: u64 },
    /// The candidate of a waiting caller was probed.
    DispatchProbed { token: usize, key: Key, now: u64, stream: Io, created: u64, probe: Probe },
}

/// A pool together with what is held outside it: the number of guards that
/// hold capacity in it, for leases, connections being opened and candidates
/// being probed; and the connections that are out of the registry, leased
/// or being probed.
#[verifier::reject_recursive_types(Io)]
#[verifier::reject_recursive_types(Mux)]
pub struct Ledger<Io, Mux> {
    pub pool: PoolState<Io, Mux>,
    pub held: nat,
    pub leased: Set<ConnectionType<Io, Mux>>,
}

/// The connections held outside the pool, with one more where a step
/// handed one out.
pub open spec fn joined<Io, Mux>(
    leased: Set<ConnectionType<Io, Mux>>,
    handed: Option<ConnectionType<Io, Mux>>,
) -> Set<ConnectionType<Io, Mux>> {
    match handed {
        Some(io) => leased.insert(io),
        None => leased,
    }
}

impl<Io, Mux> Dispatch<Io, Mux> {
    /// The connection that is handed out for the waiter, if any.
    pub open spec fn connection(self) -> Option<ConnectionType<Io, Mux>> {
        match self {
            Dispatch::Probe { stream, .. } => Some(ConnectionType::H1(stream)),
            Dispatch::Deliver { io, .. } => Some(io),
            _ => None,
        }
    }
}

impl<Io, Mux> Ledger<Io, Mux> {
    /// Whether the pool is well formed and counts exactly the capacity
    /// that guards hold.
    pub open spec fn balanced(self) -> bool {
        self.pool.wf() && self.pool.acquired == self.held
    }

    /// Whether, besides, every connection has one owner.
    pub open spec fn sound(self) -> bool {
        self.balanced() && exclusive(self.pool, self.leased)
    }

    /// The ledger after one event.
    ///
    /// Capacity is given back by a guard only: where no guard holds any,
    /// the events that give capacity back do not occur. A connection comes
    /// back, is closed or is probed only while it is held outside the
    /// pool, and a connection that is opened is a new one. A slot is given
    /// to a new waiter only where it is vacant, and capacity and arrivals
    /// are counted only as far as the machine's integers reach.
    pub open spec fn step(self, event: Event<Io, Mux>) -> Self {
        match event {
            Event::Acquire { endpoint, now } => if self.pool.countable()
                && !self.pool.exhausted() {
                let after = self.pool.acquired_for(endpoint, now);
                Ledger {
                    pool: after.pool,
                    held: self.held + 1,
                    leased: joined(self.leased, after.step.connection()),
                }
            } else {
                self
            },
            Event::Probed { endpoint, now, stream, created, probe } => if self.leased.contains(
                ConnectionType::H1(stream),
            ) {
                let after = self.pool.probed(endpoint, now, stream, created, probe);
                let rest = if probe == Probe::Pending {
                    self.leased
                } else {
                    self.leased.remove(ConnectionType::H1(stream))
                };
                Ledger {
                    pool: after.pool,
                    leased: joined(rest, after.step.connection()),
                    ..self
                }
            } else {
                self
            },
            Event::Opened { io } => if !self.leased.contains(io) && !holds(self.pool, io) {
                Ledger { leased: self.leased.insert(io), ..self }
            } else {
                self
            },
            Event::Return { endpoint, io, created, now } => if self.held > 0
                && self.leased.contains(io) {
                Ledger {
                    pool: self.pool.returned(endpoint, io, created, now),
                    held: (self.held - 1) as nat,
                    leased: self.leased.remove(io),
                }
            } else {
                self
            },
            Event::Close { io } => if self.held > 0 && self.leased.contains(io) {
                Ledger {
                    pool: self.pool.released(),
                    held: (self.held - 1) as nat,
                    leased: self.leased.remove(io),
                }
            } else {
                self
            },
            Event::GiveBack => if self.held > 0 {
                Ledger { pool: self.pool.released(), held: (self.held - 1) as nat, ..self }
            } else {
                self
            },
            Event::Wait { key, token } => if self.pool.queueable() && !self.pool.slots.dom().contains(
                token,
            ) {
                Ledger { pool: self.pool.enqueued(key, token), ..self }
            } else {
                self
            },
            Event::GiveUp { endpoint, token, arrival } => Ledger {
                pool: self.pool.abandoned(endpoint, token, arrival),
                ..self
            },
            Event::Dispatch { now } => if self.pool.countable() {
                let after = self.pool.dispatched(now);
                Ledger {
                    pool: after.pool,
                    held: if after.action == Dispatch::<Io, Mux>::Parked {
                        self.held
                    } else {
                        self.held + 1
                    },
                    leased: joined(self.leased, after.action.connection()),
                }
            } else {
                self
            },
            Event::DispatchProbed { token, key, now, stream, created, probe } => if self.leased.contains(
                ConnectionType::H1(stream),
            ) {
                let after = PoolState::served(
                    self.pool.probed(key@, now, stream, created, probe),
                    token,
                    key,
                );
                let rest = if probe == Probe::Pending {
                    self.leased
                } else {
                    self.leased.remove(ConnectionType::H1(stream))
                };
                Ledger {
                    pool: after.pool,
                    leased: joined(rest, after.action.connection()),
                    ..self
                }
            } else {
                self
            },
        }
    }

    /// The ledger after a sequence of events.
    pub open spec fn run(self, events: Seq<Event<Io, Mux>>) -> Self
        decreases events.len(),
    {
        if events.len() == 0 {
            self
        } else {
            self.step(events[0]).run(events.drop_first())
        }
    }
}

/// Taking a waiter out keeps the pool well formed.
pub proof fn lemma_dequeue_keeps_wf<Io, Mux>(pool: PoolState<Io, Mux>, token: usize)
    requires
        pool.wf(),
    ensures
        pool.dequeued(token).wf(),
{
    lemma_without(pool.queue, token);
}

/// One event keeps a balanced ledger balanced.
pub proof fn lemma_step_keeps_balance<Io, Mux>(ledger: Ledger<Io, Mux>, event: Event<Io, Mux>)
    requires
        ledger.balanced(),
    ensures
        ledger.step(event).balanced(),
        ledger.step(event).pool.limit == ledger.pool.limit,
{
    let pool = ledger.pool;
    match event {
        Event::Wait { key, token } => {
            if pool.queueable() && !pool.slots.dom().contains(token) {
                lemma_enqueue_at_back(pool, key, token);
            }
        },
        Event::GiveUp { endpoint, token, arrival } => {
            lemma_dequeue_keeps_wf(pool, token);
        },
        Event::Dispatch { now } => {
            lemma_nothing_stale(pool);
            if pool.queue.len() > 0 && pool.countable() && !pool.exhausted() {
                let token = pool.queue[0];
                lemma_dequeue_keeps_wf(
                    pool.reserved().scanned(pool.slots[token].key@, now).pool,
                    token,
                );
            }
        },
        Event::DispatchProbed { token, key, now, stream, created, probe } => {
            lemma_dequeue_keeps_wf(pool.probed(key@, now, stream, created, probe).pool, token);
        },
        _ => {},
    }
}

/// One event keeps every connection with one owner.
pub proof fn lemma_step_keeps_owners<Io, Mux>(ledger: Ledger<Io, Mux>, event: Event<Io, Mux>)
    requires
        ledger.sound(),
    ensures
        exclusive(ledger.step(event).pool, ledger.step(event).leased),
{
    let pool = ledger.pool;
    let leased = ledger.leased;
    match event {
        Event::Acquire { endpoint, now } => {
            if pool.countable() && !pool.exhausted() {
                lemma_exclusive_by_registry(pool, pool.reserved(), leased);
                lemma_scan_exclusive(pool.reserved(), leased, endpoint, now);
            }
        },
        Event::Probed { endpoint, now, stream, created, probe } => {
            if leased.contains(ConnectionType::H1(stream)) {
                lemma_probe_exclusive(pool, leased, endpoint, now, stream, created, probe);
            }
        },
        Event::Opened { io } => {
            if !leased.contains(io) && !holds(pool, io) {
                assert(exclusive(pool, leased.insert(io)));
            }
        },
        Event::Return { endpoint, io, created, now } => {
            if ledger.held > 0 && leased.contains(io) {
                lemma_return_exclusive(pool, leased, endpoint, io, created, now);
            }
        },
        Event::Close { io } => {
            if ledger.held > 0 && leased.contains(io) {
                lemma_close_exclusive(pool, leased, io);
            }
        },
        Event::GiveBack => {
            if ledger.held > 0 {
                lemma_exclusive_by_registry(pool, pool.released(), leased);
            }
        },
        Event::Wait { key, token } => {
            lemma_exclusive_by_registry(pool, ledger.step(event).pool, leased);
        },
        Event::GiveUp { endpoint, token, arrival } => {
            lemma_exclusive_by_registry(pool, ledger.step(event).pool, leased);
        },
        Event::Dispatch { now } => {
            if pool.countable() {
                lemma_nothing_stale(pool);
                if pool.queue.len() > 0 && !pool.exhausted() {
                    let token = pool.queue[0];
                    let key = pool.slots[token].key;
                    lemma_exclusive_by_registry(pool, pool.reserved(), leased);
                    lemma_scan_exclusive(pool.reserved(), leased, key@, now);
                    let scanned = pool.reserved().scanned(key@, now);
                    let after = PoolState::served(scanned, token, key);
                    assert(after.action.connection() == scanned.step.connection());
                    lemma_exclusive_by_registry(
                        scanned.pool,
                        after.pool,
                        joined(leased, scanned.step.connection()),
                    );
                }
            }
        },
        Event::DispatchProbed { token, key, now, stream, created, probe } => {
            if leased.contains(ConnectionType::H1(stream)) {
                lemma_probe_exclusive(pool, leased, key@, now, stream, created, probe);
                let scanned = pool.probed(key@, now, stream, created, probe);
                let after = PoolState::served(scanned, token, key);
                let rest = if probe == Probe::Pending {
                    leased
                } else {
                    leased.remove(ConnectionType::H1(stream))
                };
                assert(after.action.connection() == scanned.step.connection());
                lemma_exclusive_by_registry(
                    scanned.pool,
                    after.pool,
                    joined(rest, scanned.step.connection()),
                );
            }
        },
    }
}

/// Capacity invariant. Whatever sequence of events a pool goes through,
/// starting from a state in which it counts exactly the capacity that
/// guards hold, it still does so afterwards: the count of leased
/// connections never falls below zero, since it is the number of guards,
/// and a limited pool never counts more than its limit.
pub proof fn lemma_capacity_invariant<Io, Mux>(ledger: Ledger<Io, Mux>, events: Seq<Event<Io, Mux>>)
    requires
        ledger.balanced(),
    ensures
        ledger.run(events).balanced(),
        ledger.run(events).pool.acquired == ledger.run(events).held,
        ledger.run(events).pool.limit == ledger.pool.limit,
        ledger.pool.limit > 0 ==> ledger.run(events).pool.acquired <= ledger.pool.limit,
    decreases events.len(),
{
    if events.len() > 0 {
        lemma_step_keeps_balance(ledger, events[0]);
        lemma_capacity_invariant(ledger.step(events[0]), events.drop_first());
    }
}

/// Exclusivity invariant. Whatever sequence of events a pool goes through,
/// starting from a state in which every connection has one owner, every
/// connection has one owner afterwards: no connection is in the registry
/// twice, and none that is leased or being probed is in the registry.
pub proof fn lemma_exclusivity_invariant<Io, Mux>(
    ledger: Ledger<Io, Mux>,
    events: Seq<Event<Io, Mux>>,
)
    requires
        ledger.sound(),
    ensures
        ledger.run(events).sound(),
        forall|io: ConnectionType<Io, Mux>|
            ledger.run(events).leased.contains(io) ==> !holds(ledger.run(events).pool, io),
    decreases events.len(),
{
    if events.len() > 0 {
        lemma_step_keeps_balance(ledger, events[0]);
        lemma_step_keeps_owners(ledger, events[0]);
        lemma_exclusivity_invariant(ledger.step(events[0]), events.drop_first());
    }
}

/// One event leaves a caller that is gone gone.
pub proof fn lemma_step_keeps_gone<Io, Mux>(
    ledger: Ledger<Io, Mux>,
    event: Event<Io, Mux>,
    arrival: u64,
)
    requires
        ledger.pool.gone(arrival),
    ensures
        ledger.step(event).pool.gone(arrival),
{
    let pool = ledger.pool;
    let after = ledger.step(event).pool;
    assert forall|token: usize| after.slots.dom().contains(token) implies (
    #[trigger] after.slots[token]).arrival != arrival by {
        match event {
            Event::Wait { key, token: slot } => {
                if token != slot || !(pool.queueable() && !pool.slots.dom().contains(slot)) {
                    assert(pool.slots.dom().contains(token));
                    assert(after.slots[token] == pool.slots[token]);
                }
            },
            _ => {
                assert(pool.slots.dom().contains(token));
                assert(after.slots[token] == pool.slots[token]);
            },
        }
    }
}

/// Cancellation after the fact. Once a caller has been served or has
/// given up, whatever the pool goes through afterwards, dropping that
/// caller's guard changes nothing: a later caller that was given the same
/// slot, for the same endpoint or another, keeps its place.
pub proof fn lemma_spent_guard_stays_spent<Io, Mux>(
    ledger: Ledger<Io, Mux>,
    events: Seq<Event<Io, Mux>>,
    endpoint: Seq<char>,
    token: usize,
    arrival: u64,
)
    requires
        ledger.pool.gone(arrival),
    ensures
        ledger.run(events).pool.gone(arrival),
        ledger.run(events).step(Event::GiveUp { endpoint, token, arrival }) == ledger.run(events),
    decreases events.len(),
{
    if events.len() > 0 {
        lemma_step_keeps_gone(ledger, events[0], arrival);
        lemma_spent_guard_stays_spent(
            ledger.step(events[0]),
            events.drop_first(),
            endpoint,
            token,
            arrival,
        );
    }
}

} // verus!
