//! A cache with one entry per guild, filled on first touch.
//!
//! A key without an entry is not "known empty": the first read or write of it
//! builds the default value for that key and keeps it.

use std::collections::hash_map::Entry;
use std::collections::HashMap;
use vstd::prelude::*;
use vstd::std_specs::hash::*;

verus! {

broadcast use vstd::std_specs::hash::group_hash_axioms;

/// What a cache needs of the values that it holds.
pub trait CacheValue: Sized {
    /// The invariant that every cached value keeps.
    spec fn inv(&self) -> bool;

    /// Whether this value is the default one for `key`.
    spec fn is_default(&self, key: u64) -> bool;

    /// Builds the default value for `key`.
    fn fresh(key: u64) -> (v: Self)
        ensures
            v.is_default(key),
            v.inv(),
    ;
}

/// A map from guild id to `V` that synthesizes missing entries.
#[derive(Debug)]
pub struct GuildCache<V> {
    entries: HashMap<u64, V>,
}

impl<V: CacheValue> GuildCache<V> {
    /// The entries that exist right now.
    pub closed spec fn view(&self) -> Map<u64, V> {
        self.entries@
    }

    /// Every entry keeps the invariant of its type.
    pub open spec fn wf(&self) -> bool {
        forall|k: u64| self@.contains_key(k) ==> (#[trigger] self@[k]).inv()
    }

    /// Whether `v` is what a reader or writer finds at `key`: the entry, or
    /// where there is none a default value for the key.
    pub open spec fn observes(&self, key: u64, v: V) -> bool {
        if self@.contains_key(key) {
            v == self@[key]
        } else {
            v.is_default(key)
        }
    }

    /// A cache without entries.
    pub fn new() -> (c: Self)
        ensures
            c.wf(),
            c@ == Map::<u64, V>::empty(),
    {
        GuildCache { entries: HashMap::new() }
    }

    /// Whether `key` has an entry.
    pub fn contains(&self, key: u64) -> (r: bool)
        ensures
            r == self@.contains_key(key),
    {
        self.entries.contains_key(&key)
    }

    /// The entry of `key`, if it has one. Nothing is synthesized.
    pub fn peek(&self, key: u64) -> (r: Option<&V>)
        ensures
            match r {
                Some(v) => self@.contains_key(key) && *v == self@[key],
                None => !self@.contains_key(key),
            },
    {
        self.entries.get(&key)
    }

    /// Stores `value` as the entry of `key`; an entry that was there is replaced.
    pub fn populate(&mut self, key: u64, value: V)
        requires
            old(self).wf(),
            value.inv(),
        ensures
            final(self).wf(),
            final(self)@ == old(self)@.insert(key, value),
    {
        let _ = self.entries.insert(key, value);
    }

    /// Drops the entry of `key`, if it has one.
    pub fn evict(&mut self, key: u64)
        requires
            old(self).wf(),
        ensures
            final(self).wf(),
            final(self)@ == old(self)@.remove(key),
    {
        let _ = self.entries.remove(&key);
    }

    /// The entry of `key` for reading; a missing entry is created first.
    pub fn entry(&mut self, key: u64) -> (v: &V)
        requires
            old(self).wf(),
        ensures
            old(self).observes(key, *v),
            v.inv(),
            final(self).wf(),
            final(self)@ == old(self)@.insert(key, *v),
    {
        if !self.entries.contains_key(&key) {
            let value = V::fresh(key);
            let _ = self.entries.insert(key, value);
        }
        let r = self.entries.get(&key);
        assert(self@ =~= old(self)@.insert(key, self@[key]));
        r.unwrap()
    }

    /// The entry of `key` for writing; a missing entry is created first.
    pub fn entry_mut(&mut self, key: u64) -> (v: &mut V)
        requires
            old(self).wf(),
        ensures
            old(self).observes(key, *v),
            v.inv(),
            final(self)@ == old(self)@.insert(key, *final(v)),
            final(v).inv() ==> final(self).wf(),
    {
        match self.entries.entry(key) {
            Entry::Occupied(occupied) => occupied.into_mut(),
            Entry::Vacant(vacant) => vacant.insert(V::fresh(key)),
        }
    }

    /// Shows the value at `key` to `viewer` and hands back what it returns.
    /// A missing entry is created first, and stays.
    pub fn read<R, F: FnOnce(&V) -> R>(&mut self, key: u64, viewer: F) -> (r: R)
        requires
            old(self).wf(),
            forall|v: V| old(self).observes(key, v) && v.inv() ==> call_requires(viewer, (&v,)),
        ensures
            final(self).wf(),
            final(self)@.contains_key(key),
            old(self).observes(key, final(self)@[key]),
            final(self)@ == old(self)@.insert(key, final(self)@[key]),
            call_ensures(viewer, (&final(self)@[key],), r),
    {
        let v = self.entry(key);
        viewer(v)
    }

    /// Hands the value at `key` to `mutator` and stores the value that it gives
    /// back, together with returning its result. A missing entry is created
    /// first. Nothing else can touch the cache while the mutator runs.
    pub fn write<R, F: FnOnce(V) -> (V, R)>(&mut self, key: u64, mutator: F) -> (r: R)
        requires
            old(self).wf(),
            forall|v: V| old(self).observes(key, v) && v.inv() ==> call_requires(mutator, (v,)),
            forall|v: V, out: (V, R)|
                old(self).observes(key, v) && v.inv() && call_ensures(mutator, (v,), out)
                    ==> out.0.inv(),
        ensures
            final(self).wf(),
            final(self)@.contains_key(key),
            final(self)@ == old(self)@.insert(key, final(self)@[key]),
            exists|v: V|
                old(self).observes(key, v) && v.inv() && #[trigger] call_ensures(
                    mutator,
                    (v,),
                    (final(self)@[key], r),
                ),
    {
        let current = match self.entries.remove(&key) {
            Some(v) => v,
            None => V::fresh(key),
        };
        let ghost seen = current;
        proof {
            if old(self)@.contains_key(key) {
                assert(current == old(self)@[key]);
                assert(old(self)@[key].inv());
            }
            assert(old(self).observes(key, current));
            assert(current.inv());
        }
        let (next, r) = mutator(current);
        let _ = self.entries.insert(key, next);
        proof {
            assert(self@ =~= old(self)@.insert(key, next));
            assert(call_ensures(mutator, (seen,), (self@[key], r)));
        }
        r
    }
}

/// A key that was never populated shows a default value for that key.
pub proof fn lemma_unpopulated_is_default<V: CacheValue>(c: GuildCache<V>, key: u64, v: V)
    requires
        !c@.contains_key(key),
        c.observes(key, v),
    ensures
        v.is_default(key),
{
}

/// Once a touch of `key` has stored what it observed, every later look at any
/// key finds a value that could be observed before: the stored one at `key`
/// (nothing is synthesized a second time), and what was there elsewhere.
pub proof fn lemma_touch_keeps_values<V: CacheValue>(
    before: GuildCache<V>,
    after: GuildCache<V>,
    key: u64,
    seen: V,
)
    requires
        before.observes(key, seen),
        after@ == before@.insert(key, seen),
    ensures
        forall|v: V| after.observes(key, v) <==> v == seen,
        forall|k: u64, v: V| after.observes(k, v) ==> before.observes(k, v),
{
}

/// What one write of a run does: it stores, under the key, a value that
/// counts one more than a value that it observed there.
pub open spec fn counts_one_more<V: CacheValue>(
    before: GuildCache<V>,
    after: GuildCache<V>,
    key: u64,
    count: spec_fn(V) -> int,
) -> bool {
    after@.contains_key(key) && exists|v: V|
        #[trigger] before.observes(key, v) && count(after@[key]) == count(v) + 1
}

/// No update is lost: after a run of writes to one key, each of which stores
/// a value that counts one more than the value it observed, the key counts
/// as many more than at the start as there were writes. A key without an
/// entry at the start counts what every default value counts. `states` holds
/// the cache before the first write and after each write.
pub proof fn lemma_writes_accumulate<V: CacheValue>(
    states: Seq<GuildCache<V>>,
    key: u64,
    count: spec_fn(V) -> int,
    default_count: int,
)
    requires
        states.len() >= 2,
        forall|v: V| #[trigger] v.is_default(key) ==> count(v) == default_count,
        forall|i: int|
            0 <= i < states.len() - 1 ==> counts_one_more(
                #[trigger] states[i],
                states[i + 1],
                key,
                count,
            ),
    ensures
        states.last()@.contains_key(key),
        count(states.last()@[key]) == (if states[0]@.contains_key(key) {
            count(states[0]@[key])
        } else {
            default_count
        }) + states.len() - 1,
    decreases states.len(),
{
    let last = states.len() - 1;
    assert(counts_one_more(states[last - 1], states[last], key, count));
    let seen = choose|v: V|
        #[trigger] states[last - 1].observes(key, v) && count(states[last]@[key]) == count(v) + 1;
    if states.len() > 2 {
        let before = states.drop_last();
        assert forall|i: int| 0 <= i < before.len() - 1 implies counts_one_more(
            #[trigger] before[i],
            before[i + 1],
            key,
            count,
        ) by {
            assert(counts_one_more(states[i], states[i + 1], key, count));
        }
        lemma_writes_accumulate(before, key, count, default_count);
        assert(before.last() == states[last - 1]);
        assert(before[0] == states[0]);
    }
}

} // verus!
