use vstd::prelude::*;

use crate::pool::inner::Inner;
use crate::pool::model::{Dispatch, Dispatched, Matched, PoolState};
use crate::pool::types::{Key, Probe, Retired};

verus! {

/// The background task of a pool: whenever it is polled it matches capacity
/// to the callers that wait, longest waiting first. It is told which
/// callers listen for their reply no longer.
pub struct ConnectorPoolSupport {
    gone: Vec<usize>,
}

/// A poll's result so far, with what follows put behind it.
pub open spec fn joined<Io, Mux>(
    actions: Seq<Dispatch<Io, Mux>>,
    retired: Seq<Retired<Io, Mux>>,
    rest: Matched<Io, Mux>,
) -> Matched<Io, Mux> {
    Matched { pool: rest.pool, actions: actions + rest.actions, retired: retired + rest.retired }
}

impl ConnectorPoolSupport {
    /// The tokens of the callers that listen no longer.
    pub closed spec fn gone(&self) -> Seq<usize> {
        self.gone@
    }

    /// The task, where the callers with these tokens listen no longer.
    pub fn new(gone: Vec<usize>) -> (task: Self)
        ensures
            task.gone() == gone@,
    {
        ConnectorPoolSupport { gone }
    }

    /// Whether the caller with this token listens no longer.
    pub fn has_gone(&self, token: usize) -> (gone: bool)
        ensures
            gone == self.gone().contains(token),
    {
        let mut at: usize = 0;
        while at < self.gone.len()
            invariant
                at <= self.gone.len(),
                forall|i: int| 0 <= i < at ==> self.gone@[i] != token,
            decreases self.gone.len() - at,
        {
            if self.gone[at] == token {
                return true;
            }
            at += 1;
        }
        false
    }

    /// One poll of the task at `now`: round after round, each for the
    /// caller that has waited longest, until nobody is left to serve, the
    /// pool is at its limit, or a candidate has to be probed. An idle
    /// connection that is taken for a caller that listens no longer goes
    /// straight back to the pool, so that the next caller can have it. The
    /// actions that are left to the caller of the task come back in their
    /// order: leases to deliver, connections to open, and, as the last one,
    /// a candidate to probe, whose answer goes to `poll_probed`.
    pub fn poll<Io, Mux>(&self, pool: &mut Inner<Io, Mux>, now: u64) -> (done: (
        Vec<Dispatch<Io, Mux>>,
        Vec<Retired<Io, Mux>>,
    ))
        requires
            old(pool)@.wf(),
        ensures
            (Matched { pool: final(pool)@, actions: done.0@, retired: done.1@ }) =~= old(
                pool,
            )@.matched(now, self.gone()),
            final(pool)@.wf(),
    {
        if pool.limit() == 0 && pool.acquired() == usize::MAX {
            return (Vec::new(), Vec::new());
        }
        let waiting = pool.waiting();
        let (action, retired) = pool.dispatch(now);
        self.go_on(pool, action, retired, Ghost((waiting + 1) as nat), waiting, now)
    }

    /// Resumes a poll after the candidate for the waiter with `token` was
    /// probed.
    pub fn poll_probed<Io, Mux>(
        &self,
        pool: &mut Inner<Io, Mux>,
        token: usize,
        key: Key,
        now: u64,
        stream: Io,
        created: u64,
        probe: Probe,
    ) -> (done: (Vec<Dispatch<Io, Mux>>, Vec<Retired<Io, Mux>>))
        requires
            old(pool)@.wf(),
            old(pool)@.acquired > 0,
        ensures
            (Matched { pool: final(pool)@, actions: done.0@, retired: done.1@ }) =~= old(
                pool,
            )@.resumed(token, key, now, stream, created, probe, self.gone()),
            final(pool)@.wf(),
    {
        let waiting = pool.waiting();
        let (action, retired) = pool.dispatch_probed(token, key, now, stream, created, probe);
        self.go_on(pool, action, retired, Ghost((waiting + 1) as nat), waiting, now)
    }

    /// Settles the round that came to `action` and goes on with further
    /// rounds. `waiting` is the length that the queue had before the round.
    fn go_on<Io, Mux>(
        &self,
        pool: &mut Inner<Io, Mux>,
        first: Dispatch<Io, Mux>,
        first_retired: Vec<Retired<Io, Mux>>,
        Ghost(bound): Ghost<nat>,
        waiting: usize,
        now: u64,
    ) -> (done: (Vec<Dispatch<Io, Mux>>, Vec<Retired<Io, Mux>>))
        requires
            old(pool)@.wf(),
            bound == waiting + 1,
            first is Deliver ==> old(pool)@.acquired > 0,
        ensures
            (Matched { pool: final(pool)@, actions: done.0@, retired: done.1@ })
                =~= PoolState::continued(
                Dispatched { pool: old(pool)@, action: first, retired: first_retired@ },
                bound,
                now,
                self.gone(),
            ),
            final(pool)@.wf(),
    {
        let ghost whole = PoolState::continued(
            Dispatched { pool: pool@, action: first, retired: first_retired@ },
            bound,
            now,
            self.gone(),
        );
        let mut actions: Vec<Dispatch<Io, Mux>> = Vec::new();
        let mut all: Vec<Retired<Io, Mux>> = Vec::new();
        let mut action = first;
        let mut more = first_retired;
        let mut ceiling: usize = waiting;
        assert(joined(
            actions@,
            all@,
            PoolState::continued(
                Dispatched { pool: pool@, action, retired: more@ },
                (ceiling + 1) as nat,
                now,
                self.gone(),
            ),
        ) =~= whole);
        loop
            invariant
                pool@.wf(),
                action is Deliver ==> pool@.acquired > 0,
                whole == PoolState::continued(
                    Dispatched { pool: old(pool)@, action: first, retired: first_retired@ },
                    bound,
                    now,
                    self.gone(),
                ),
                joined(
                    actions@,
                    all@,
                    PoolState::continued(
                        Dispatched { pool: pool@, action, retired: more@ },
                        (ceiling + 1) as nat,
                        now,
                        self.gone(),
                    ),
                ) =~= whole,
            decreases ceiling,
        {
            let ghost round = Dispatched { pool: pool@, action, retired: more@ };
            let ghost shown = PoolState::shown(round, self.gone());
            let ghost before = actions@;
            let ghost retired_before = all@;
            let stop = match &action {
                Dispatch::Parked => true,
                Dispatch::Probe { .. } => true,
                _ => false,
            };
            match action {
                Dispatch::Parked => {},
                Dispatch::Deliver { token, key, io, created } => {
                    if self.has_gone(token) {
                        let _ = pool.release_conn(&key, io, created, now);
                    } else {
                        actions.push(Dispatch::Deliver { token, key, io, created });
                    }
                },
                other => {
                    actions.push(other);
                },
            }
            all.append(&mut more);
            assert(actions@ =~= before + shown);
            assert(all@ =~= retired_before + round.retired);
            assert(pool@ =~= PoolState::settled(round, now, self.gone()));
            let waiting = pool.waiting();
            if stop || waiting > ceiling || (pool.limit() == 0 && pool.acquired() == usize::MAX) {
                return (actions, all);
            }
            if waiting == 0 {
                proof {
                    // nobody is left: one more round would be parked, and change nothing
                    let last = pool@.dispatched(now);
                    assert(pool@.queue.len() == 0);
                    assert(pool@.queue.skip(0) =~= pool@.queue);
                    assert(pool@.pruned() =~= pool@);
                    assert(last.pool =~= pool@);
                    assert(last.action is Parked);
                    assert(last.retired =~= Seq::empty());
                    let rest = PoolState::continued(last, 0, now, self.gone());
                    assert(rest.pool =~= pool@);
                    assert(rest.actions =~= Seq::empty());
                    assert(rest.retired =~= Seq::empty());
                    assert(PoolState::continued(round, (ceiling + 1) as nat, now, self.gone())
                        =~= joined(shown, round.retired, rest));
                    assert(actions@ + Seq::empty() =~= actions@);
                    assert(all@ + Seq::empty() =~= all@);
                }
                return (actions, all);
            }
            let (next, retired) = pool.dispatch(now);
            proof {
                let rest = PoolState::continued(
                    Dispatched { pool: pool@, action: next, retired: retired@ },
                    waiting as nat,
                    now,
                    self.gone(),
                );
                assert((before + shown) + rest.actions =~= before + (shown + rest.actions));
                assert((retired_before + round.retired) + rest.retired =~= retired_before + (
                round.retired + rest.retired));
            }
            action = next;
            more = retired;
            ceiling = waiting - 1;
        }
    }
}

} // verus!
