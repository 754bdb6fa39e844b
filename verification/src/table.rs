//! A map from text to values, for a handful of entries at a time.
//!
//! Entries keep the order in which their keys first came in.

use vstd::prelude::*;

use crate::text::same_str;

verus! {

/// A map from text to values.
#[derive(Debug)]
pub struct Table<V> {
    pub entries: Vec<(String, V)>,
}

/// The value that goes with a key in a list of entries.
pub open spec fn lookup<V>(entries: Seq<(String, V)>, key: Seq<char>) -> Option<V>
    decreases entries.len(),
{
    if entries.len() == 0 {
        None
    } else if entries.last().0@ == key {
        Some(entries.last().1)
    } else {
        lookup(entries.drop_last(), key)
    }
}

/// No key stands in two entries.
pub open spec fn distinct_keys<V>(entries: Seq<(String, V)>) -> bool {
    forall|i: int, j: int|
        0 <= i < j < entries.len() ==> #[trigger] entries[i].0@ != #[trigger] entries[j].0@
}

pub proof fn lemma_lookup<V>(entries: Seq<(String, V)>, key: Seq<char>)
    requires
        distinct_keys(entries),
    ensures
        forall|i: int|
            0 <= i < entries.len() && #[trigger] entries[i].0@ == key ==> lookup(entries, key)
                == Some(entries[i].1),
        (lookup(entries, key) is None) == (forall|i: int|
            0 <= i < entries.len() ==> #[trigger] entries[i].0@ != key),
    decreases entries.len(),
{
    if entries.len() > 0 {
        let head = entries.drop_last();
        assert(distinct_keys(head)) by {
            assert forall|i: int, j: int| 0 <= i < j < head.len() implies #[trigger] head[i].0@
                != #[trigger] head[j].0@ by {
                assert(head[i] == entries[i] && head[j] == entries[j]);
            }
        }
        lemma_lookup(head, key);
        assert forall|i: int|
            0 <= i < entries.len() && #[trigger] entries[i].0@ == key implies lookup(entries, key)
            == Some(entries[i].1) by {
            if i < head.len() {
                assert(head[i] == entries[i]);
                assert(entries[i].0@ != entries[entries.len() - 1].0@);
            }
        }
        if lookup(entries, key) is None {
            assert forall|i: int| 0 <= i < entries.len() implies #[trigger] entries[i].0@
                != key by {
                if i < head.len() {
                    assert(head[i] == entries[i]);
                }
            }
        } else {
            if entries.last().0@ != key {
                let i = choose|i: int| 0 <= i < head.len() && #[trigger] head[i].0@ == key;
                assert(entries[i].0@ == key);
            } else {
                assert(entries[entries.len() - 1].0@ == key);
            }
        }
    }
}

impl<V> View for Table<V> {
    type V = Map<Seq<char>, V>;

    open spec fn view(&self) -> Map<Seq<char>, V> {
        Map::new(
            |key: Seq<char>| lookup(self.entries@, key) is Some,
            |key: Seq<char>| lookup(self.entries@, key)->0,
        )
    }
}

impl<V> Table<V> {
    pub open spec fn wf(self) -> bool {
        distinct_keys(self.entries@)
    }

    pub fn new() -> (r: Self)
        ensures
            r.wf(),
            r@ == Map::<Seq<char>, V>::empty(),
            r.entries@.len() == 0,
    {
        let r = Table { entries: Vec::new() };
        assert(r@ =~= Map::<Seq<char>, V>::empty());
        r
    }

    pub fn is_empty(&self) -> (r: bool)
        requires
            self.wf(),
        ensures
            r == (self@ == Map::<Seq<char>, V>::empty()),
            r == (self.entries@.len() == 0),
    {
        if self.entries.len() == 0 {
            assert(self@ =~= Map::<Seq<char>, V>::empty());
            true
        } else {
            proof {
                lemma_lookup(self.entries@, self.entries@[0].0@);
                assert(self@.dom().contains(self.entries@[0].0@));
            }
            false
        }
    }

    /// The position of a key among the entries, or the number of entries.
    pub fn position(&self, key: &str) -> (r: usize)
        requires
            self.wf(),
        ensures
            r <= self.entries@.len(),
            r < self.entries@.len() ==> self.entries@[r as int].0@ == key@ && self@.contains_key(
                key@,
            ) && self@[key@] == self.entries@[r as int].1,
            r == self.entries@.len() ==> !self@.contains_key(key@) && forall|i: int|
                0 <= i < self.entries@.len() ==> #[trigger] self.entries@[i].0@ != key@,
    {
        let mut i: usize = 0;
        while i < self.entries.len() && !same_str(self.entries[i].0.as_str(), key)
            invariant
                i <= self.entries@.len(),
                forall|j: int| 0 <= j < i ==> #[trigger] self.entries@[j].0@ != key@,
            decreases self.entries@.len() - i,
        {
            i += 1;
        }
        proof {
            lemma_lookup(self.entries@, key@);
        }
        i
    }

    pub fn contains(&self, key: &str) -> (r: bool)
        requires
            self.wf(),
        ensures
            r == self@.contains_key(key@),
    {
        self.position(key) < self.entries.len()
    }

    pub fn get(&self, key: &str) -> (r: Option<&V>)
        requires
            self.wf(),
        ensures
            r is Some == self@.contains_key(key@),
            r matches Some(v) ==> *v == self@[key@],
    {
        let i: usize = self.position(key);
        if i < self.entries.len() {
            Some(&self.entries[i].1)
        } else {
            None
        }
    }

    /// Put a value under a key, in place of the one that was there.
    pub fn insert(&mut self, key: String, value: V)
        requires
            old(self).wf(),
        ensures
            final(self).wf(),
            final(self)@ == old(self)@.insert(key@, value),
    {
        let i: usize = self.position(key.as_str());
        let ghost before = self.entries@;
        if i < self.entries.len() {
            self.entries[i] = (key, value);
            assert(self.entries@ == before.update(i as int, (key, value)));
            assert(distinct_keys(self.entries@)) by {
                assert forall|a: int, b: int| 0 <= a < b < self.entries@.len() implies #[trigger] self.entries@[a].0@
                    != #[trigger] self.entries@[b].0@ by {
                    assert(before[a].0@ != before[b].0@);
                }
            }
        } else {
            self.entries.push((key, value));
        }
        proof {
            let after = self.entries@;
            assert forall|k: Seq<char>| lookup(after, k) == (if k == key@ {
                Some(value)
            } else {
                lookup(before, k)
            }) by {
                lemma_lookup(before, k);
                lemma_lookup(after, k);
                if k == key@ {
                    assert(after[i as int].0@ == k);
                } else if lookup(before, k) is Some {
                    let j = choose|j: int| 0 <= j < before.len() && #[trigger] before[j].0@ == k;
                    assert(after[j].0@ == k);
                } else {
                    assert forall|j: int| 0 <= j < after.len() implies #[trigger] after[j].0@
                        != k by {
                        if j < before.len() && j != i {
                            assert(before[j].0@ != k);
                        }
                    }
                }
            }
            assert(self@ =~= old(self)@.insert(key@, value));
        }
    }

    /// Put a value under a key that is not there yet.
    pub fn insert_new(&mut self, key: String, value: V)
        requires
            old(self).wf(),
            !old(self)@.contains_key(key@),
        ensures
            final(self).wf(),
            final(self).entries@ == old(self).entries@.push((key, value)),
            final(self)@ == old(self)@.insert(key@, value),
    {
        let ghost before = self.entries@;
        self.entries.push((key, value));
        proof {
            let after = self.entries@;
            lemma_lookup(before, key@);
            assert(lookup(before, key@) is None);
            assert(after.drop_last() =~= before);
            assert(distinct_keys(after)) by {
                assert forall|a: int, b: int| 0 <= a < b < after.len() implies #[trigger] after[a].0@
                    != #[trigger] after[b].0@ by {
                    assert(after[a] == before[a]);
                    if b < before.len() {
                        assert(after[b] == before[b]);
                    }
                }
            }
            assert(self@ =~= old(self)@.insert(key@, value));
        }
    }

    /// Take out the entry at a position.
    pub fn remove_at(&mut self, i: usize) -> (r: V)
        requires
            old(self).wf(),
            i < old(self).entries@.len(),
        ensures
            final(self).wf(),
            final(self).entries@ == old(self).entries@.remove(i as int),
            final(self)@ == old(self)@.remove(old(self).entries@[i as int].0@),
            r == old(self).entries@[i as int].1,
    {
        let ghost before = self.entries@;
        let ghost key = before[i as int].0@;
        let (_, value) = self.entries.remove(i);
        proof {
            let after = self.entries@;
            assert(after =~= before.remove(i as int));
            assert(distinct_keys(after)) by {
                assert forall|a: int, b: int| 0 <= a < b < after.len() implies #[trigger] after[a].0@
                    != #[trigger] after[b].0@ by {
                    let a0 = if a < i { a } else { a + 1 };
                    let b0 = if b < i { b } else { b + 1 };
                    assert(before[a0].0@ != before[b0].0@);
                }
            }
            assert forall|k: Seq<char>| lookup(after, k) == (if k == key {
                None
            } else {
                lookup(before, k)
            }) by {
                lemma_lookup(before, k);
                lemma_lookup(after, k);
                if k == key {
                    assert forall|j: int| 0 <= j < after.len() implies #[trigger] after[j].0@
                        != k by {
                        let j0 = if j < i { j } else { j + 1 };
                        assert(before[j0].0@ != before[i as int].0@);
                    }
                } else if lookup(before, k) is Some {
                    let j = choose|j: int| 0 <= j < before.len() && #[trigger] before[j].0@ == k;
                    let j1 = if j < i { j } else { j - 1 };
                    assert(after[j1].0@ == k);
                } else {
                    assert forall|j: int| 0 <= j < after.len() implies #[trigger] after[j].0@
                        != k by {
                        let j0 = if j < i { j } else { j + 1 };
                        assert(before[j0].0@ != k);
                    }
                }
            }
            assert(self@ =~= old(self)@.remove(key));
        }
        value
    }

    /// Take a key and its value out.
    pub fn remove(&mut self, key: &str) -> (r: Option<V>)
        requires
            old(self).wf(),
        ensures
            final(self).wf(),
            final(self)@ == old(self)@.remove(key@),
            r is Some == old(self)@.contains_key(key@),
            r matches Some(v) ==> v == old(self)@[key@],
    {
        let i: usize = self.position(key);
        if i == self.entries.len() {
            assert(self@ =~= old(self)@.remove(key@));
            return None;
        }
        Some(self.remove_at(i))
    }
}

} // verus!
