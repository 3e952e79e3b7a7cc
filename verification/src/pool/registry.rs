use std::collections::VecDeque;
use vstd::prelude::*;

use crate::pool::types::{AvailableConnection, Key};

verus! {

/// The idle connections of one endpoint, most recently released last.
pub struct Bucket<Io, Mux> {
    key: Key,
    idle: VecDeque<AvailableConnection<Io, Mux>>,
}

/// The idle connections of the endpoint `key`: those of the first bucket
/// with that key, none where no bucket has it.
pub closed spec fn lookup<Io, Mux>(buckets: Seq<Bucket<Io, Mux>>, key: Seq<char>) -> Seq<
    AvailableConnection<Io, Mux>,
>
    decreases buckets.len(),
{
    if buckets.len() == 0 {
        Seq::empty()
    } else if buckets[0].key@ == key {
        buckets[0].idle@
    } else {
        lookup(buckets.drop_first(), key)
    }
}

/// The position of the first bucket with `key`, the number of buckets where
/// there is none.
closed spec fn position<Io, Mux>(buckets: Seq<Bucket<Io, Mux>>, key: Seq<char>) -> nat
    decreases buckets.len(),
{
    if buckets.len() == 0 {
        0
    } else if buckets[0].key@ == key {
        0
    } else {
        1 + position(buckets.drop_first(), key)
    }
}

proof fn lemma_position<Io, Mux>(buckets: Seq<Bucket<Io, Mux>>, key: Seq<char>)
    ensures
        position(buckets, key) <= buckets.len(),
        forall|i: int| 0 <= i < position(buckets, key) ==> (#[trigger] buckets[i]).key@ != key,
        position(buckets, key) < buckets.len() ==> {
            &&& buckets[position(buckets, key) as int].key@ == key
            &&& lookup(buckets, key) == buckets[position(buckets, key) as int].idle@
        },
        position(buckets, key) == buckets.len() ==> lookup(buckets, key) == Seq::<
            AvailableConnection<Io, Mux>,
        >::empty(),
    decreases buckets.len(),
{
    if buckets.len() != 0 && buckets[0].key@ != key {
        let rest = buckets.drop_first();
        lemma_position(rest, key);
        assert forall|i: int| 0 <= i < position(buckets, key) implies (#[trigger] buckets[i]).key@
            != key by {
            if i > 0 {
                assert(buckets[i] == rest[i - 1]);
            }
        }
        if position(rest, key) < rest.len() {
            assert(buckets[position(buckets, key) as int] == rest[position(rest, key) as int]);
        }
    }
}

/// A first position is characterised by what precedes it.
proof fn lemma_position_is<Io, Mux>(buckets: Seq<Bucket<Io, Mux>>, key: Seq<char>, at: int)
    requires
        0 <= at <= buckets.len(),
        forall|i: int| 0 <= i < at ==> (#[trigger] buckets[i]).key@ != key,
        at < buckets.len() ==> buckets[at].key@ == key,
    ensures
        position(buckets, key) == at,
{
    lemma_position(buckets, key);
    let found = position(buckets, key) as int;
    if found < at {
        assert(buckets[found].key@ != key);
    } else if found > at {
        assert(buckets[at].key@ == key);
    }
}

/// The idle connections of every endpoint, each endpoint's list a stack.
pub struct Registry<Io, Mux> {
    buckets: Vec<Bucket<Io, Mux>>,
}

impl<Io, Mux> Registry<Io, Mux> {
    /// The idle connections of the endpoint with this key, most recently
    /// released last.
    pub closed spec fn idle(&self, key: Seq<char>) -> Seq<AvailableConnection<Io, Mux>> {
        lookup(self.buckets@, key)
    }

    /// A registry without idle connections.
    pub fn new() -> (registry: Self)
        ensures
            forall|key: Seq<char>| (#[trigger] registry.idle(key)).len() == 0,
    {
        let registry = Registry { buckets: Vec::new() };
        assert forall|key: Seq<char>| (#[trigger] registry.idle(key)).len() == 0 by {
            lemma_position(registry.buckets@, key);
        }
        registry
    }

    /// The position of the first bucket with `key`, the number of buckets
    /// where there is none.
    fn find(&self, key: &Key) -> (at: usize)
        ensures
            at == position(self.buckets@, key@),
            at <= self.buckets.len(),
    {
        let mut at: usize = 0;
        while at < self.buckets.len()
            invariant
                at <= self.buckets.len(),
                forall|i: int| 0 <= i < at ==> (#[trigger] self.buckets@[i]).key@ != key@,
            decreases self.buckets.len() - at,
        {
            if self.buckets[at].key.same(key) {
                proof {
                    lemma_position_is(self.buckets@, key@, at as int);
                }
                return at;
            }
            at += 1;
        }
        proof {
            lemma_position_is(self.buckets@, key@, at as int);
        }
        at
    }

    /// How many idle connections the endpoint has.
    pub fn idle_count(&self, key: &Key) -> (count: usize)
        ensures
            count == self.idle(key@).len(),
    {
        let at = self.find(key);
        proof {
            lemma_position(self.buckets@, key@);
        }
        if at < self.buckets.len() {
            self.buckets[at].idle.len()
        } else {
            0
        }
    }

    /// Takes the most recently released idle connection of the endpoint out
    /// of the registry, if it has one. No other endpoint is touched.
    pub fn pop_back(&mut self, key: &Key) -> (popped: Option<AvailableConnection<Io, Mux>>)
        ensures
            old(self).idle(key@).len() == 0 ==> popped.is_none() && final(self).idle(key@)
                == old(self).idle(key@),
            old(self).idle(key@).len() > 0 ==> popped == Some(old(self).idle(key@).last())
                && final(self).idle(key@) == old(self).idle(key@).drop_last(),
            forall|other: Seq<char>|
                other != key@ ==> #[trigger] final(self).idle(other) == old(self).idle(other),
    {
        let at = self.find(key);
        proof {
            lemma_position(self.buckets@, key@);
        }
        if at < self.buckets.len() {
            let ghost before = self.buckets@;
            let popped = self.buckets[at].idle.pop_back();
            proof {
                let after = self.buckets@;
                assert(after.len() == before.len());
                assert(forall|i: int|
                    0 <= i < after.len() ==> (#[trigger] after[i]).key@ == before[i].key@);
                lemma_position_is(after, key@, at as int);
                lemma_position(after, key@);
                assert forall|other: Seq<char>| other != key@ implies #[trigger] lookup(
                    after,
                    other,
                ) == lookup(before, other) by {
                    lemma_same_elsewhere(before, after, at as int, other);
                }
            }
            popped
        } else {
            None
        }
    }

    /// Puts a connection on top of the endpoint's idle connections. No other
    /// endpoint is touched.
    pub fn push_back(&mut self, key: &Key, entry: AvailableConnection<Io, Mux>)
        ensures
            final(self).idle(key@) == old(self).idle(key@).push(entry),
            forall|other: Seq<char>|
                other != key@ ==> #[trigger] final(self).idle(other) == old(self).idle(other),
    {
        let at = self.find(key);
        let ghost before = self.buckets@;
        proof {
            lemma_position(before, key@);
        }
        if at < self.buckets.len() {
            self.buckets[at].idle.push_back(entry);
            proof {
                let after = self.buckets@;
                assert(after.len() == before.len());
                assert(forall|i: int|
                    0 <= i < after.len() ==> (#[trigger] after[i]).key@ == before[i].key@);
                lemma_position_is(after, key@, at as int);
                lemma_position(after, key@);
                assert forall|other: Seq<char>| other != key@ implies #[trigger] lookup(
                    after,
                    other,
                ) == lookup(before, other) by {
                    lemma_same_elsewhere(before, after, at as int, other);
                }
            }
        } else {
            let mut idle: VecDeque<AvailableConnection<Io, Mux>> = VecDeque::new();
            idle.push_back(entry);
            self.buckets.push(Bucket { key: key.clone(), idle });
            proof {
                let after = self.buckets@;
                lemma_position_is(after, key@, at as int);
                lemma_position(after, key@);
                assert(after[at as int].idle@ =~= Seq::empty().push(entry));
                assert(before =~= after.drop_last());
                assert forall|other: Seq<char>| other != key@ implies #[trigger] lookup(
                    after,
                    other,
                ) == lookup(before, other) by {
                    lemma_position(before, other);
                    lemma_position(after, other);
                    let found = position(before, other) as int;
                    if found < before.len() {
                        lemma_position_is(after, other, found);
                    } else {
                        lemma_position_is(after, other, after.len() as int);
                    }
                }
            }
        }
    }
}

/// Two bucket lists that agree on every key, and on every idle list but the
/// one at `at`, hold the same idle connections for every key other than the
/// key at `at`.
proof fn lemma_same_elsewhere<Io, Mux>(
    before: Seq<Bucket<Io, Mux>>,
    after: Seq<Bucket<Io, Mux>>,
    at: int,
    other: Seq<char>,
)
    requires
        before.len() == after.len(),
        0 <= at < before.len(),
        forall|i: int| 0 <= i < after.len() ==> (#[trigger] after[i]).key@ == before[i].key@,
        forall|i: int| 0 <= i < after.len() && i != at ==> (#[trigger] after[i]).idle@ == before[i].idle@,
        other != before[at].key@,
    ensures
        lookup(after, other) == lookup(before, other),
{
    lemma_position(before, other);
    lemma_position(after, other);
    let found = position(before, other) as int;
    lemma_position_is(after, other, found);
    if found < before.len() {
        assert(found != at);
        assert(after[found].idle@ == before[found].idle@);
    }
}

} // verus!
