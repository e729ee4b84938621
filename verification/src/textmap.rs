//! A map from texts to values, kept as a list of entries.

use crate::text::same;
use vstd::prelude::*;

verus! {

/// A map from texts to values.
pub struct TextMap<V> {
    entries: Vec<(String, V)>,
}

/// The position of the first entry with the key, or the number of entries
/// where there is none.
pub closed spec fn entry_at<V>(entries: Seq<(String, V)>, key: Seq<char>) -> int
    decreases entries.len(),
{
    if entries.len() == 0 || entries[0].0@ == key {
        0
    } else {
        1 + entry_at(entries.drop_first(), key)
    }
}

impl<V> TextMap<V> {
    /// No key occurs twice.
    pub closed spec fn wf(self) -> bool {
        forall|i: int, j: int|
            0 <= i < j < self.entries@.len() ==> (#[trigger] self.entries@[i]).0@ != (
            #[trigger] self.entries@[j]).0@
    }

    /// The map that the entries make.
    pub closed spec fn map(self) -> Map<Seq<char>, V> {
        Map::new(
            |k: Seq<char>| entry_at(self.entries@, k) < self.entries@.len(),
            |k: Seq<char>| self.entries@[entry_at(self.entries@, k)].1,
        )
    }
}

proof fn lemma_entry_at<V>(entries: Seq<(String, V)>, key: Seq<char>)
    ensures
        0 <= entry_at(entries, key) <= entries.len(),
        forall|i: int| 0 <= i < entry_at(entries, key) ==> (#[trigger] entries[i]).0@ != key,
        entry_at(entries, key) < entries.len() ==> entries[entry_at(entries, key)].0@ == key,
    decreases entries.len(),
{
    if entries.len() > 0 && entries[0].0@ != key {
        let t = entries.drop_first();
        lemma_entry_at(t, key);
        assert forall|i: int| 0 <= i < entry_at(entries, key) implies (#[trigger] entries[i]).0@
            != key by {
            if i > 0 {
                assert(entries[i] == t[i - 1]);
            }
        }
        if entry_at(entries, key) < entries.len() {
            assert(entries[entry_at(entries, key)] == t[entry_at(t, key)]);
        }
    }
}

proof fn lemma_entry_is<V>(entries: Seq<(String, V)>, key: Seq<char>, k: int)
    requires
        0 <= k <= entries.len(),
        forall|i: int| 0 <= i < k ==> (#[trigger] entries[i]).0@ != key,
        k < entries.len() ==> entries[k].0@ == key,
    ensures
        entry_at(entries, key) == k,
{
    lemma_entry_at(entries, key);
    let e = entry_at(entries, key);
    if e < k {
        assert(entries[e].0@ == key);
    } else if k < e {
        assert(entries[k].0@ != key);
    }
}

impl<V> TextMap<V> {
    /// A map without entries.
    pub fn new() -> (r: TextMap<V>)
        ensures
            r.wf(),
            r.map() == Map::<Seq<char>, V>::empty(),
    {
        let r = TextMap { entries: Vec::new() };
        proof {
            assert(r.map() =~= Map::<Seq<char>, V>::empty());
        }
        r
    }

    fn find(&self, key: &str) -> (r: usize)
        ensures
            r <= self.entries@.len(),
            r == entry_at(self.entries@, key@),
            r < self.entries@.len() ==> self.entries@[r as int].0@ == key@,
    {
        let n: usize = self.entries.len();
        let mut i: usize = 0;
        while i < n && !same(self.entries[i].0.as_str(), key)
            invariant
                n == self.entries@.len(),
                0 <= i <= n,
                forall|j: int| 0 <= j < i ==> (#[trigger] self.entries@[j]).0@ != key@,
            decreases n - i,
        {
            i = i + 1;
        }
        proof {
            lemma_entry_is(self.entries@, key@, i as int);
        }
        i
    }

    /// The value under a key.
    pub fn get(&self, key: &str) -> (r: Option<&V>)
        ensures
            match r {
                Some(v) => self.map().contains_key(key@) && self.map()[key@] == *v,
                None => !self.map().contains_key(key@),
            },
    {
        let i = self.find(key);
        if i < self.entries.len() {
            Some(&self.entries[i].1)
        } else {
            None
        }
    }

    /// Whether there is a value under a key.
    pub fn contains(&self, key: &str) -> (r: bool)
        ensures
            r == self.map().contains_key(key@),
    {
        self.find(key) < self.entries.len()
    }

    /// Puts a value under a key, in place of one that was there.
    pub fn insert(&mut self, key: &str, value: V)
        requires
            old(self).wf(),
        ensures
            final(self).wf(),
            final(self).map() == old(self).map().insert(key@, value),
    {
        let i = self.find(key);
        let ghost before = self.entries@;
        if i < self.entries.len() {
            self.entries[i] = (key.to_owned(), value);
        } else {
            self.entries.push((key.to_owned(), value));
        }
        proof {
            let after = self.entries@;
            lemma_entry_at(before, key@);
            assert forall|k: Seq<char>| #[trigger] entry_at(after, k) == (if k == key@ {
                i as int
            } else if entry_at(before, k) < before.len() {
                entry_at(before, k)
            } else {
                after.len() as int
            }) by {
                lemma_entry_at(before, k);
                if k == key@ {
                    lemma_entry_is(after, k, i as int);
                } else if entry_at(before, k) < before.len() {
                    lemma_entry_is(after, k, entry_at(before, k));
                } else {
                    lemma_entry_is(after, k, after.len() as int);
                }
            }
            assert(self.map() =~= old(self).map().insert(key@, value)) by {
                assert forall|k: Seq<char>| self.map().contains_key(k) == old(self).map().insert(
                    key@,
                    value,
                ).contains_key(k) by {
                    lemma_entry_at(before, k);
                    assert(entry_at(after, k) == entry_at(after, k));
                }
                assert forall|k: Seq<char>| #[trigger] self.map().contains_key(k) implies self.map()[k]
                    == old(self).map().insert(key@, value)[k] by {
                    lemma_entry_at(before, k);
                    assert(entry_at(after, k) == entry_at(after, k));
                }
            }
            assert(self.wf()) by {
                assert forall|a: int, b: int| 0 <= a < b < after.len() implies (#[trigger] after[a]).0@
                    != (#[trigger] after[b]).0@ by {
                    if i < before.len() {
                        assert(after[a].0@ == before[a].0@);
                        assert(after[b].0@ == before[b].0@);
                    } else if b < before.len() {
                        assert(after[a] == before[a]);
                        assert(after[b] == before[b]);
                    } else {
                        assert(after[a] == before[a]);
                    }
                }
            }
        }
    }

    /// Takes the value under a key out of the map.
    pub fn remove(&mut self, key: &str) -> (r: Option<V>)
        requires
            old(self).wf(),
        ensures
            final(self).wf(),
            final(self).map() == old(self).map().remove(key@),
            match r {
                Some(v) => old(self).map().contains_key(key@) && old(self).map()[key@] == v,
                None => !old(self).map().contains_key(key@),
            },
    {
        let i = self.find(key);
        let ghost before = self.entries@;
        if i < self.entries.len() {
            let entry = self.entries.remove(i);
            proof {
                let after = self.entries@;
                lemma_entry_at(before, key@);
                assert(after =~= before.remove(i as int));
                assert forall|k: Seq<char>| #[trigger] entry_at(after, k) == (if k == key@ {
                    after.len() as int
                } else if entry_at(before, k) < i {
                    entry_at(before, k)
                } else {
                    entry_at(before, k) - 1
                }) by {
                    lemma_entry_at(before, k);
                    if k == key@ {
                        assert forall|j: int| 0 <= j < after.len() implies (#[trigger] after[j]).0@
                            != k by {
                            if j < i {
                                assert(after[j] == before[j]);
                            } else {
                                assert(after[j] == before[j + 1]);
                                assert(before[i as int].0@ != before[j + 1].0@);
                            }
                        }
                        lemma_entry_is(after, k, after.len() as int);
                    } else {
                        let e = entry_at(before, k);
                        let target = if e < i {
                            e
                        } else {
                            e - 1
                        };
                        if e == i {
                            assert(before[e].0@ == key@);
                        }
                        assert forall|j: int| 0 <= j < target implies (#[trigger] after[j]).0@
                            != k by {
                            if j < i {
                                assert(after[j] == before[j]);
                            } else {
                                assert(after[j] == before[j + 1]);
                            }
                        }
                        if target < after.len() {
                            if e < i {
                                assert(after[target] == before[e]);
                            } else {
                                assert(after[target] == before[e]);
                            }
                        }
                        lemma_entry_is(after, k, target);
                    }
                }
                assert(self.map() =~= old(self).map().remove(key@)) by {
                    assert forall|k: Seq<char>| self.map().contains_key(k) == old(
                        self,
                    ).map().remove(key@).contains_key(k) by {
                        lemma_entry_at(before, k);
                        assert(entry_at(after, k) == entry_at(after, k));
                        if k != key@ && entry_at(before, k) == i {
                            assert(before[i as int].0@ == k);
                        }
                    }
                    assert forall|k: Seq<char>| #[trigger] self.map().contains_key(k) implies self.map()[k]
                        == old(self).map().remove(key@)[k] by {
                        lemma_entry_at(before, k);
                        assert(entry_at(after, k) == entry_at(after, k));
                    }
                }
                assert(self.wf()) by {
                    assert forall|a: int, b: int| 0 <= a < b < after.len() implies (
                    #[trigger] after[a]).0@ != (#[trigger] after[b]).0@ by {
                        let a2 = if a < i {
                            a
                        } else {
                            a + 1
                        };
                        let b2 = if b < i {
                            b
                        } else {
                            b + 1
                        };
                        assert(after[a] == before[a2]);
                        assert(after[b] == before[b2]);
                    }
                }
            }
            Some(entry.1)
        } else {
            proof {
                lemma_entry_at(before, key@);
                assert(self.map() =~= old(self).map().remove(key@));
            }
            None
        }
    }
}

} // verus!
