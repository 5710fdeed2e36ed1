//! A small association list with unique integer keys, viewed as a `Map`.
//!
//! The session tables of the TUN path (TCP, UDP, NAT) key their entries by
//! a 4-tuple packed into one integer; this list gives them a verified map
//! with exact contracts. Lookups are linear, which suits tables whose
//! contracts matter more than their constant factors.

use vstd::prelude::*;

verus! {

/// The map encoded by an entry sequence: later entries shadow earlier ones
/// (with unique keys nothing shadows).
pub open spec fn kv_map<V>(s: Seq<(u128, V)>) -> Map<u128, V>
    decreases s.len(),
{
    if s.len() == 0 {
        Map::empty()
    } else {
        kv_map(s.drop_last()).insert(s.last().0, s.last().1)
    }
}

/// No two entries share a key.
pub open spec fn kv_keys_unique<V>(s: Seq<(u128, V)>) -> bool {
    forall|i: int, j: int| 0 <= i < j < s.len() ==> s[i].0 != s[j].0
}

/// A key is in the map exactly when some entry carries it.
pub proof fn lemma_kv_contains<V>(s: Seq<(u128, V)>, k: u128)
    ensures
        kv_map(s).dom().contains(k) <==> (exists|i: int| 0 <= i < s.len() && s[i].0 == k),
    decreases s.len(),
{
    if s.len() > 0 {
        lemma_kv_contains(s.drop_last(), k);
        if s.last().0 == k {
            assert(s[s.len() - 1].0 == k);
        } else if exists|i: int| 0 <= i < s.len() && s[i].0 == k {
            let i = choose|i: int| 0 <= i < s.len() && s[i].0 == k;
            assert(s.drop_last()[i] == s[i]);
        }
    }
}

/// With unique keys, entry `i` is what the map holds for its key.
pub proof fn lemma_kv_index<V>(s: Seq<(u128, V)>, i: int)
    requires
        kv_keys_unique(s),
        0 <= i < s.len(),
    ensures
        kv_map(s).dom().contains(s[i].0),
        kv_map(s)[s[i].0] == s[i].1,
    decreases s.len(),
{
    if i == s.len() - 1 {
    } else {
        assert(kv_keys_unique(s.drop_last())) by {
            assert(forall|x: int, y: int|
                0 <= x < y < s.drop_last().len() ==> s.drop_last()[x] == s[x] && s.drop_last()[y]
                    == s[y]);
        }
        assert(s.drop_last()[i] == s[i]);
        lemma_kv_index(s.drop_last(), i);
        assert(s[i].0 != s.last().0);
    }
}

/// Updating entry `i` to a new value under its own key updates the map.
pub proof fn lemma_kv_update<V>(s: Seq<(u128, V)>, i: int, v: V)
    requires
        kv_keys_unique(s),
        0 <= i < s.len(),
    ensures
        kv_map(s.update(i, (s[i].0, v))) == kv_map(s).insert(s[i].0, v),
        kv_keys_unique(s.update(i, (s[i].0, v))),
    decreases s.len(),
{
    let s2 = s.update(i, (s[i].0, v));
    assert(kv_keys_unique(s2));
    if i == s.len() - 1 {
        assert(s2.drop_last() =~= s.drop_last());
        assert(kv_map(s2) == kv_map(s.drop_last()).insert(s[i].0, v));
        assert(kv_map(s).insert(s[i].0, v) =~= kv_map(s.drop_last()).insert(s.last().0, s.last().1)
            .insert(s[i].0, v));
    } else {
        assert(kv_keys_unique(s.drop_last())) by {
            assert(forall|x: int, y: int|
                0 <= x < y < s.drop_last().len() ==> s.drop_last()[x] == s[x] && s.drop_last()[y]
                    == s[y]);
        }
        assert(s.drop_last()[i] == s[i]);
        lemma_kv_update(s.drop_last(), i, v);
        assert(s2.drop_last() =~= s.drop_last().update(i, (s[i].0, v)));
        assert(s2.last() == s.last());
        assert(kv_map(s2) == kv_map(s.drop_last()).insert(s[i].0, v).insert(
            s.last().0,
            s.last().1,
        ));
        assert(s[i].0 != s.last().0);
        assert(kv_map(s.drop_last()).insert(s[i].0, v).insert(s.last().0, s.last().1) =~= kv_map(
            s.drop_last(),
        ).insert(s.last().0, s.last().1).insert(s[i].0, v));
    }
}

/// Removing entry `i` removes its key from the map.
pub proof fn lemma_kv_remove<V>(s: Seq<(u128, V)>, i: int)
    requires
        kv_keys_unique(s),
        0 <= i < s.len(),
    ensures
        kv_map(s.remove(i)) == kv_map(s).remove(s[i].0),
        kv_keys_unique(s.remove(i)),
    decreases s.len(),
{
    let s2 = s.remove(i);
    assert(kv_keys_unique(s2)) by {
        assert(forall|x: int|
            0 <= x < s2.len() ==> s2[x] == (if x < i {
                s[x]
            } else {
                s[x + 1]
            }));
    }
    if i == s.len() - 1 {
        assert(s2 =~= s.drop_last());
        lemma_kv_contains(s.drop_last(), s[i].0);
        assert(forall|j: int| 0 <= j < s.drop_last().len() ==> s.drop_last()[j] == s[j]);
        assert(!kv_map(s.drop_last()).dom().contains(s[i].0));
        assert(kv_map(s.drop_last()) =~= kv_map(s.drop_last()).insert(s.last().0, s.last().1)
            .remove(s[i].0));
    } else {
        assert(kv_keys_unique(s.drop_last())) by {
            assert(forall|x: int, y: int|
                0 <= x < y < s.drop_last().len() ==> s.drop_last()[x] == s[x] && s.drop_last()[y]
                    == s[y]);
        }
        assert(s.drop_last()[i] == s[i]);
        lemma_kv_remove(s.drop_last(), i);
        assert(s2.drop_last() =~= s.drop_last().remove(i));
        assert(s2.last() == s.last());
        assert(kv_map(s2) == kv_map(s.drop_last()).remove(s[i].0).insert(s.last().0, s.last().1));
        assert(s[i].0 != s.last().0);
        assert(kv_map(s.drop_last()).remove(s[i].0).insert(s.last().0, s.last().1) =~= kv_map(
            s.drop_last(),
        ).insert(s.last().0, s.last().1).remove(s[i].0));
    }
}

/// An association list with unique `u128` keys.
pub struct KvList<V> {
    pub entries: Vec<(u128, V)>,
}

impl<V> KvList<V> {
    /// The entries in insertion order.
    pub open spec fn spec_entries(&self) -> Seq<(u128, V)> {
        self.entries@
    }

    /// Keys are pairwise distinct.
    pub open spec fn wf(&self) -> bool {
        kv_keys_unique(self.entries@)
    }

    /// The map this list encodes.
    pub open spec fn as_map(&self) -> Map<u128, V> {
        kv_map(self.entries@)
    }

    /// An empty list.
    pub fn new() -> (r: KvList<V>)
        ensures
            r.wf(),
            r.as_map() == Map::<u128, V>::empty(),
            r.spec_entries().len() == 0,
    {
        let r = KvList { entries: Vec::new() };
        proof {
            assert(kv_map(r.entries@) =~= Map::<u128, V>::empty());
        }
        r
    }

    /// How many entries the list holds.
    pub fn len(&self) -> (n: usize)
        ensures
            n == self.spec_entries().len(),
    {
        self.entries.len()
    }

    /// The index holding key `k`, if any.
    fn find(&self, k: u128) -> (r: Option<usize>)
        ensures
            match r {
                Some(i) => i < self.entries@.len() && self.entries@[i as int].0 == k,
                None => forall|i: int| 0 <= i < self.entries@.len() ==> self.entries@[i].0 != k,
            },
    {
        let n = self.entries.len();
        let mut i: usize = 0;
        while i < n
            invariant
                i <= n,
                n == self.entries@.len(),
                forall|j: int| 0 <= j < i ==> self.entries@[j].0 != k,
            decreases n - i,
        {
            if self.entries[i].0 == k {
                return Some(i);
            }
            i = i + 1;
        }
        None
    }

    /// Whether key `k` is present.
    pub fn contains(&self, k: u128) -> (r: bool)
        ensures
            r == self.as_map().dom().contains(k),
    {
        let r = self.find(k);
        proof {
            lemma_kv_contains(self.entries@, k);
            match r {
                Some(i) => {
                    assert(self.entries@[i as int].0 == k);
                },
                None => {
                    assert(forall|i: int| 0 <= i < self.entries@.len() ==> self.entries@[i].0 != k);
                },
            }
        }
        r.is_some()
    }

    /// The value under key `k`, if any.
    pub fn get(&self, k: u128) -> (r: Option<&V>)
        requires
            self.wf(),
        ensures
            match r {
                Some(v) => self.as_map().dom().contains(k) && *v == self.as_map()[k],
                None => !self.as_map().dom().contains(k),
            },
    {
        let f = self.find(k);
        proof {
            lemma_kv_contains(self.entries@, k);
            match f {
                Some(i) => {
                    assert(self.entries@[i as int].0 == k);
                    lemma_kv_index(self.entries@, i as int);
                },
                None => {
                    assert(forall|i: int| 0 <= i < self.entries@.len() ==> self.entries@[i].0 != k);
                },
            }
        }
        match f {
            Some(i) => Some(&self.entries[i].1),
            None => None,
        }
    }

    /// Insert `v` under `k`, replacing what was there.
    pub fn insert(&mut self, k: u128, v: V)
        requires
            old(self).wf(),
        ensures
            final(self).wf(),
            final(self).as_map() == old(self).as_map().insert(k, v),
            final(self).spec_entries().len() <= old(self).spec_entries().len() + 1,
    {
        proof {
            lemma_kv_contains(self.entries@, k);
        }
        match self.find(k) {
            Some(i) => {
                proof {
                    lemma_kv_update(self.entries@, i as int, v);
                }
                let ghost s = self.entries@;
                self.entries[i] = (k, v);
                proof {
                    assert(self.entries@ =~= s.update(i as int, (s[i as int].0, v)));
                }
            },
            None => {
                let ghost s = self.entries@;
                proof {
                    assert(forall|i: int| 0 <= i < s.len() ==> s[i].0 != k);
                }
                self.entries.push((k, v));
                proof {
                    assert(self.entries@.drop_last() =~= s);
                    assert(kv_map(self.entries@) == kv_map(s).insert(k, v));
                    assert(forall|i: int|
                        0 <= i < s.len() ==> self.entries@[i] == s[i]);
                    assert(kv_keys_unique(self.entries@));
                }
            },
        }
    }

    /// Remove key `k` if present.
    pub fn remove(&mut self, k: u128)
        requires
            old(self).wf(),
        ensures
            final(self).wf(),
            final(self).as_map() == old(self).as_map().remove(k),
    {
        proof {
            lemma_kv_contains(self.entries@, k);
        }
        match self.find(k) {
            Some(i) => {
                proof {
                    lemma_kv_remove(self.entries@, i as int);
                }
                let ghost s = self.entries@;
                self.entries.remove(i);
                proof {
                    assert(self.entries@ =~= s.remove(i as int));
                }
            },
            None => {
                proof {
                    assert(forall|i: int|
                        0 <= i < self.entries@.len() ==> self.entries@[i].0 != k);
                    lemma_kv_contains(self.entries@, k);
                    assert(!self.as_map().dom().contains(k));
                    assert(self.as_map() =~= self.as_map().remove(k));
                }
            },
        }
    }

    /// The key of entry `i`.
    pub fn key_at(&self, i: usize) -> (k: u128)
        requires
            i < self.spec_entries().len(),
        ensures
            k == self.spec_entries()[i as int].0,
            self.wf() ==> self.as_map().dom().contains(k) && self.as_map()[k]
                == self.spec_entries()[i as int].1,
    {
        proof {
            if self.wf() {
                lemma_kv_index(self.entries@, i as int);
            }
        }
        self.entries[i].0
    }

    /// The value of entry `i`.
    pub fn value_at(&self, i: usize) -> (v: &V)
        requires
            i < self.spec_entries().len(),
        ensures
            *v == self.spec_entries()[i as int].1,
    {
        &self.entries[i].1
    }

    /// Remove entry `i`.
    pub fn remove_at(&mut self, i: usize)
        requires
            old(self).wf(),
            i < old(self).spec_entries().len(),
        ensures
            final(self).wf(),
            final(self).as_map() == old(self).as_map().remove(
                old(self).spec_entries()[i as int].0,
            ),
            final(self).spec_entries() == old(self).spec_entries().remove(i as int),
    {
        proof {
            lemma_kv_remove(self.entries@, i as int);
        }
        let ghost s = self.entries@;
        self.entries.remove(i);
        proof {
            assert(self.entries@ =~= s.remove(i as int));
        }
    }
}

} // verus!
