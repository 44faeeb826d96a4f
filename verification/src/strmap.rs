//! A small map keyed by text, kept as a list of entries with distinct keys.

use vstd::prelude::*;
use crate::text::same_text;

verus! {

/// The value that a list of entries gives to `key`: that of the last entry
/// with this key, if there is one.
pub open spec fn lookup<V>(pairs: Seq<(Seq<char>, V)>, key: Seq<char>) -> Option<V>
    decreases pairs.len(),
{
    if pairs.len() == 0 {
        None
    } else if pairs.last().0 == key {
        Some(pairs.last().1)
    } else {
        lookup(pairs.drop_last(), key)
    }
}

/// No two entries share a key.
pub open spec fn distinct_keys<V>(pairs: Seq<(Seq<char>, V)>) -> bool {
    forall|i: int, j: int| 0 <= i < j < pairs.len() ==> (#[trigger] pairs[i]).0 != (
    #[trigger] pairs[j]).0
}

/// The map that a list of entries stands for.
pub open spec fn map_of<V>(pairs: Seq<(Seq<char>, V)>) -> Map<Seq<char>, V> {
    Map::new(|k: Seq<char>| lookup(pairs, k) is Some, |k: Seq<char>| lookup(pairs, k)->0)
}

/// A key that no entry has is not in the map.
pub proof fn lemma_lookup_absent<V>(pairs: Seq<(Seq<char>, V)>, key: Seq<char>)
    requires
        forall|i: int| 0 <= i < pairs.len() ==> (#[trigger] pairs[i]).0 != key,
    ensures
        lookup(pairs, key) is None,
    decreases pairs.len(),
{
    if pairs.len() > 0 {
        lemma_lookup_absent(pairs.drop_last(), key);
    }
}

/// With distinct keys, the entry at `i` is what its key maps to.
pub proof fn lemma_lookup_at<V>(pairs: Seq<(Seq<char>, V)>, i: int)
    requires
        distinct_keys(pairs),
        0 <= i < pairs.len(),
    ensures
        lookup(pairs, pairs[i].0) == Some(pairs[i].1),
    decreases pairs.len(),
{
    if i < pairs.len() - 1 {
        assert(pairs[i].0 != pairs[pairs.len() - 1].0);
        let rest = pairs.drop_last();
        assert(rest[i] == pairs[i]);
        lemma_lookup_at(rest, i);
    }
}

/// Taking out an entry leaves every other key as it was.
pub proof fn lemma_lookup_remove<V>(pairs: Seq<(Seq<char>, V)>, i: int, key: Seq<char>)
    requires
        0 <= i < pairs.len(),
        pairs[i].0 != key,
    ensures
        lookup(pairs.remove(i), key) == lookup(pairs, key),
    decreases pairs.len(),
{
    if i == pairs.len() - 1 {
        assert(pairs.remove(i) =~= pairs.drop_last());
    } else {
        let shorter = pairs.remove(i);
        assert(shorter.last() == pairs.last());
        assert(shorter.drop_last() =~= pairs.drop_last().remove(i));
        lemma_lookup_remove(pairs.drop_last(), i, key);
    }
}

/// A map from text to `V`.
#[derive(Debug)]
pub struct StringMap<V> {
    entries: Vec<(String, V)>,
}

impl<V> StringMap<V> {
    /// The entries in the order in which they are kept.
    pub closed spec fn pairs(&self) -> Seq<(Seq<char>, V)> {
        Seq::new(self.entries@.len(), |i: int| (self.entries@[i].0@, self.entries@[i].1))
    }

    /// The invariant of the type: keys are distinct.
    pub open spec fn wf(&self) -> bool {
        distinct_keys(self.pairs())
    }

    /// The map that this value stands for.
    pub open spec fn view(&self) -> Map<Seq<char>, V> {
        map_of(self.pairs())
    }

    /// An empty map.
    pub fn new() -> (m: Self)
        ensures
            m.wf(),
            m.pairs() == Seq::<(Seq<char>, V)>::empty(),
            m@ == Map::<Seq<char>, V>::empty(),
    {
        let m = StringMap { entries: Vec::new() };
        assert(m.pairs() =~= Seq::<(Seq<char>, V)>::empty());
        assert(m@ =~= Map::<Seq<char>, V>::empty());
        m
    }

    /// The number of entries.
    pub fn len(&self) -> (n: usize)
        ensures
            n == self.pairs().len(),
    {
        self.entries.len()
    }

    fn position(&self, key: &str) -> (r: Option<usize>)
        ensures
            match r {
                Some(i) => i < self.pairs().len() && self.pairs()[i as int].0 == key@,
                None => forall|i: int|
                    0 <= i < self.pairs().len() ==> (#[trigger] self.pairs()[i]).0 != key@,
            },
    {
        let mut i: usize = 0;
        while i < self.entries.len()
            invariant
                i <= self.entries.len(),
                forall|j: int| 0 <= j < i ==> (#[trigger] self.pairs()[j]).0 != key@,
            decreases self.entries.len() - i,
        {
            if same_text(self.entries[i].0.as_str(), key) {
                return Some(i);
            }
            i += 1;
        }
        None
    }

    /// The value stored under `key`, if any.
    pub fn get(&self, key: &str) -> (r: Option<&V>)
        requires
            self.wf(),
        ensures
            match r {
                Some(v) => self@.contains_key(key@) && self@[key@] == *v,
                None => !self@.contains_key(key@),
            },
    {
        match self.position(key) {
            Some(i) => {
                proof {
                    lemma_lookup_at(self.pairs(), i as int);
                }
                Some(&self.entries[i].1)
            },
            None => {
                proof {
                    lemma_lookup_absent(self.pairs(), key@);
                }
                None
            },
        }
    }

    /// The key of the entry at `i`.
    pub fn key_at(&self, i: usize) -> (k: &String)
        requires
            i < self.pairs().len(),
        ensures
            k@ == self.pairs()[i as int].0,
    {
        &self.entries[i].0
    }

    /// The value of the entry at `i`.
    pub fn value_at(&self, i: usize) -> (v: &V)
        requires
            i < self.pairs().len(),
        ensures
            *v == self.pairs()[i as int].1,
    {
        &self.entries[i].1
    }

    /// Stores `value` under `key`, replacing what was stored there before.
    pub fn insert(&mut self, key: String, value: V)
        requires
            old(self).wf(),
        ensures
            final(self).wf(),
            final(self)@ == old(self)@.insert(key@, value),
    {
        let ghost before = self.pairs();
        let found = self.position(key.as_str());
        let ghost kept = match found {
            Some(i) => before.remove(i as int),
            None => before,
        };
        if let Some(i) = found {
            let _ = self.entries.remove(i);
        }
        proof {
            assert(self.pairs() =~= kept);
            assert forall|k: Seq<char>| k != key@ implies lookup(kept, k) == lookup(
                before,
                k,
            ) by {
                if let Some(i) = found {
                    lemma_lookup_remove(before, i as int, k);
                }
            }
            assert(forall|j: int| 0 <= j < kept.len() ==> (#[trigger] kept[j]).0 != key@);
        }
        self.entries.push((key, value));
        proof {
            let after = self.pairs();
            assert(after =~= kept.push((key@, value)));
            assert(after.drop_last() =~= kept);
            assert(final(self)@ =~= old(self)@.insert(key@, value));
        }
    }
}

impl StringMap<String> {
    /// The entries with their values read as text.
    pub open spec fn text_pairs(&self) -> Seq<(Seq<char>, Seq<char>)> {
        Seq::new(self.pairs().len(), |i: int| (self.pairs()[i].0, self.pairs()[i].1@))
    }

    /// The map with its values read as text.
    pub open spec fn text_map(&self) -> Map<Seq<char>, Seq<char>> {
        Map::new(|k: Seq<char>| self@.contains_key(k), |k: Seq<char>| self@[k]@)
    }
}

} // verus!
