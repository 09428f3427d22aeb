//! A verified association map with string keys, backed by a vector of
//! key/value pairs with pairwise-distinct keys.  Its view is a mathematical
//! `Map` from character sequences to values.  Several subsystems keep small
//! read-mostly tables of this shape: worker cursors, the failed-worker
//! registry, consumer and tier tables, and the per-consumer rate counters.

use vstd::prelude::*;
use vstd::string::StringExecFns;
use crate::strutil::str_eq;

verus! {

/// The map held by an association list; later entries win, though with
/// distinct keys every entry is visible.
pub open spec fn assoc_map<V>(entries: Seq<(String, V)>) -> Map<Seq<char>, V>
    decreases entries.len(),
{
    if entries.len() == 0 {
        Map::empty()
    } else {
        assoc_map(entries.drop_last()).insert(entries.last().0@, entries.last().1)
    }
}

/// Pairwise-distinct keys.
pub open spec fn distinct_keys<V>(entries: Seq<(String, V)>) -> bool {
    forall|i: int, j: int|
        0 <= i < j < entries.len() ==> #[trigger] entries[i].0@ != #[trigger] entries[j].0@
}

proof fn lemma_assoc_found<V>(entries: Seq<(String, V)>, i: int)
    requires
        distinct_keys(entries),
        0 <= i < entries.len(),
    ensures
        assoc_map(entries).contains_key(entries[i].0@),
        assoc_map(entries)[entries[i].0@] == entries[i].1,
    decreases entries.len(),
{
    if i == entries.len() - 1 {
    } else {
        assert(distinct_keys(entries.drop_last()));
        lemma_assoc_found(entries.drop_last(), i);
        assert(entries.last().0@ != entries[i].0@);
    }
}

proof fn lemma_assoc_absent<V>(entries: Seq<(String, V)>, k: Seq<char>)
    requires
        forall|i: int| 0 <= i < entries.len() ==> #[trigger] entries[i].0@ != k,
    ensures
        !assoc_map(entries).contains_key(k),
    decreases entries.len(),
{
    if entries.len() > 0 {
        lemma_assoc_absent(entries.drop_last(), k);
    }
}

proof fn lemma_assoc_update<V>(entries: Seq<(String, V)>, i: int, p: (String, V))
    requires
        distinct_keys(entries),
        0 <= i < entries.len(),
        p.0@ == entries[i].0@,
    ensures
        assoc_map(entries.update(i, p)) == assoc_map(entries).insert(p.0@, p.1),
        distinct_keys(entries.update(i, p)),
    decreases entries.len(),
{
    let updated = entries.update(i, p);
    assert(distinct_keys(updated));
    if i == entries.len() - 1 {
        assert(updated.drop_last() =~= entries.drop_last());
        assert(updated.last() == p);
        assert(assoc_map(entries.drop_last()).insert(entries.last().0@, entries.last().1).insert(
            p.0@,
            p.1,
        ) =~= assoc_map(entries.drop_last()).insert(p.0@, p.1));
    } else {
        assert(updated.drop_last() =~= entries.drop_last().update(i, p));
        assert(distinct_keys(entries.drop_last()));
        lemma_assoc_update(entries.drop_last(), i, p);
        assert(updated.last() == entries.last());
        let l = entries.last();
        assert(l.0@ != p.0@);
        assert(assoc_map(entries.drop_last()).insert(p.0@, p.1).insert(l.0@, l.1)
            =~= assoc_map(entries.drop_last()).insert(l.0@, l.1).insert(p.0@, p.1));
    }
}

proof fn lemma_assoc_remove<V>(entries: Seq<(String, V)>, i: int)
    requires
        distinct_keys(entries),
        0 <= i < entries.len(),
    ensures
        assoc_map(entries.remove(i)) == assoc_map(entries).remove(entries[i].0@),
        distinct_keys(entries.remove(i)),
    decreases entries.len(),
{
    let shorter = entries.remove(i);
    assert(distinct_keys(shorter)) by {
        assert forall|a: int, b: int| 0 <= a < b < shorter.len() implies #[trigger] shorter[a].0@
            != #[trigger] shorter[b].0@ by {
            let a0 = if a < i { a } else { a + 1 };
            let b0 = if b < i { b } else { b + 1 };
            assert(shorter[a] == entries[a0]);
            assert(shorter[b] == entries[b0]);
        }
    }
    if i == entries.len() - 1 {
        assert(shorter =~= entries.drop_last());
        lemma_assoc_absent(entries.drop_last(), entries[i].0@);
        assert(assoc_map(entries.drop_last()) =~= assoc_map(entries.drop_last()).insert(
            entries.last().0@,
            entries.last().1,
        ).remove(entries.last().0@));
    } else {
        assert(shorter.drop_last() =~= entries.drop_last().remove(i));
        assert(distinct_keys(entries.drop_last()));
        lemma_assoc_remove(entries.drop_last(), i);
        assert(shorter.last() == entries.last());
        let l = entries.last();
        assert(l.0@ != entries[i].0@);
        assert(assoc_map(entries.drop_last()).remove(entries[i].0@).insert(l.0@, l.1)
            =~= assoc_map(entries.drop_last()).insert(l.0@, l.1).remove(entries[i].0@));
    }
}

/// A table from string keys to values, with each key present at most once.
pub struct StrMap<V> {
    entries: Vec<(String, V)>,
}

impl<V> StrMap<V> {
    /// The mathematical map this table holds.
    pub closed spec fn view(&self) -> Map<Seq<char>, V> {
        assoc_map(self.entries@)
    }

    /// Keys are pairwise distinct; every operation preserves this.
    pub closed spec fn wf(&self) -> bool {
        distinct_keys(self.entries@)
    }

    pub fn new() -> (r: Self)
        ensures
            r.view() == Map::<Seq<char>, V>::empty(),
            r.wf(),
    {
        StrMap { entries: Vec::new() }
    }

    /// The index holding `key`, if any.
    fn find(&self, key: &str) -> (r: Option<usize>)
        ensures
            match r {
                Some(i) => i < self.entries@.len() && self.entries@[i as int].0@ == key@,
                None => forall|i: int|
                    0 <= i < self.entries@.len() ==> #[trigger] self.entries@[i].0@ != key@,
            },
    {
        let mut i: usize = 0;
        while i < self.entries.len()
            invariant
                0 <= i <= self.entries@.len(),
                forall|j: int| 0 <= j < i ==> #[trigger] self.entries@[j].0@ != key@,
            decreases self.entries@.len() - i,
        {
            if str_eq(self.entries[i].0.as_str(), key) {
                return Some(i);
            }
            i = i + 1;
        }
        None
    }

    /// Looks a key up.
    pub fn get(&self, key: &str) -> (r: Option<&V>)
        requires
            self.wf(),
        ensures
            match r {
                Some(v) => self.view().contains_key(key@) && *v == self.view()[key@],
                None => !self.view().contains_key(key@),
            },
    {
        match self.find(key) {
            Some(i) => {
                proof {
                    lemma_assoc_found(self.entries@, i as int);
                }
                Some(&self.entries[i].1)
            },
            None => {
                proof {
                    lemma_assoc_absent(self.entries@, key@);
                }
                None
            },
        }
    }

    /// Binds `key` to `value`, replacing any previous binding.
    pub fn insert(&mut self, key: &str, value: V)
        requires
            old(self).wf(),
        ensures
            final(self).wf(),
            final(self).view() == old(self).view().insert(key@, value),
    {
        let new_key = String::from_str(key);
        match self.find(key) {
            Some(i) => {
                proof {
                    lemma_assoc_update(self.entries@, i as int, (new_key, value));
                }
                self.entries[i] = (new_key, value);
            },
            None => {
                proof {
                    let pushed = self.entries@.push((new_key, value));
                    assert(pushed.drop_last() =~= self.entries@);
                    assert(distinct_keys(pushed));
                }
                self.entries.push((new_key, value));
            },
        }
    }

    /// Removes and returns the value bound to `key`, if any.
    pub fn take(&mut self, key: &str) -> (r: Option<V>)
        requires
            old(self).wf(),
        ensures
            final(self).wf(),
            final(self).view() == old(self).view().remove(key@),
            match r {
                Some(v) => old(self).view().contains_key(key@) && v == old(self).view()[key@],
                None => !old(self).view().contains_key(key@),
            },
    {
        match self.find(key) {
            Some(i) => {
                proof {
                    lemma_assoc_found(self.entries@, i as int);
                    lemma_assoc_remove(self.entries@, i as int);
                }
                let pair = self.entries.remove(i);
                Some(pair.1)
            },
            None => {
                proof {
                    lemma_assoc_absent(self.entries@, key@);
                    assert(assoc_map(self.entries@) =~= assoc_map(self.entries@).remove(key@));
                }
                None
            },
        }
    }

    /// Removes any binding of `key`.
    pub fn remove(&mut self, key: &str)
        requires
            old(self).wf(),
        ensures
            final(self).wf(),
            final(self).view() == old(self).view().remove(key@),
    {
        match self.find(key) {
            Some(i) => {
                proof {
                    lemma_assoc_remove(self.entries@, i as int);
                }
                let _ = self.entries.remove(i);
            },
            None => {
                proof {
                    lemma_assoc_absent(self.entries@, key@);
                    assert(assoc_map(self.entries@) =~= assoc_map(self.entries@).remove(key@));
                }
            },
        }
    }

}

} // verus!
