//! A small map keyed by names, kept as a list without duplicate names.
use vstd::prelude::*;

use crate::text::str_eq;

verus! {

/// No name occurs twice.
pub open spec fn distinct_keys<V>(s: Seq<(Seq<char>, V)>) -> bool {
    forall|i: int, j: int| 0 <= i < s.len() && 0 <= j < s.len() && i != j ==> s[i].0 != s[j].0
}

/// The entries as a map.
pub open spec fn pairs_map<V>(s: Seq<(Seq<char>, V)>) -> Map<Seq<char>, V> {
    Map::new(
        |k: Seq<char>| exists|i: int| 0 <= i < s.len() && #[trigger] s[i].0 == k,
        |k: Seq<char>| s[choose|i: int| 0 <= i < s.len() && #[trigger] s[i].0 == k].1,
    )
}

proof fn lemma_pairs_map_at<V>(s: Seq<(Seq<char>, V)>, i: int)
    requires
        distinct_keys(s),
        0 <= i < s.len(),
    ensures
        pairs_map(s).dom().contains(s[i].0),
        pairs_map(s)[s[i].0] == s[i].1,
{
    let k = s[i].0;
    assert(exists|j: int| 0 <= j < s.len() && #[trigger] s[j].0 == k);
    let j = choose|j: int| 0 <= j < s.len() && #[trigger] s[j].0 == k;
    assert(j == i);
}

/// A map from names to values, kept as a list in which no name occurs twice.
pub struct NameMap<V> {
    entries: Vec<(String, V)>,
}

impl<V> NameMap<V> {
    pub closed spec fn pairs(&self) -> Seq<(Seq<char>, V)> {
        self.entries@.map_values(|p: (String, V)| (p.0@, p.1))
    }

    pub open spec fn wf(&self) -> bool {
        distinct_keys(self.pairs())
    }

    /// The entries by name.
    pub open spec fn map(&self) -> Map<Seq<char>, V> {
        pairs_map(self.pairs())
    }

    pub fn new() -> (r: NameMap<V>)
        ensures
            r.wf(),
            r.map() == Map::<Seq<char>, V>::empty(),
    {
        let r = NameMap { entries: Vec::new() };
        assert(r.map() =~= Map::<Seq<char>, V>::empty());
        r
    }

    fn find(&self, key: &str) -> (r: Option<usize>)
        requires
            self.wf(),
        ensures
            match r {
                Some(i) => i < self.pairs().len() && self.pairs()[i as int].0 == key@,
                None => !self.map().dom().contains(key@),
            },
    {
        let mut i: usize = 0;
        while i < self.entries.len()
            invariant
                self.wf(),
                i <= self.entries@.len(),
                forall|j: int| 0 <= j < i ==> self.pairs()[j].0 != key@,
            decreases self.entries@.len() - i,
        {
            if str_eq(self.entries[i].0.as_str(), key) {
                return Some(i);
            }
            i = i + 1;
        }
        None
    }

    /// Whether `key` has an entry.
    pub fn contains(&self, key: &str) -> (r: bool)
        requires
            self.wf(),
        ensures
            r == self.map().dom().contains(key@),
    {
        match self.find(key) {
            Some(i) => {
                proof {
                    lemma_pairs_map_at(self.pairs(), i as int);
                }
                true
            },
            None => false,
        }
    }

    /// The value for `key`, if any.
    pub fn get(&self, key: &str) -> (r: Option<&V>)
        requires
            self.wf(),
        ensures
            match r {
                Some(v) => self.map().dom().contains(key@) && *v == self.map()[key@],
                None => !self.map().dom().contains(key@),
            },
    {
        match self.find(key) {
            Some(i) => {
                proof {
                    lemma_pairs_map_at(self.pairs(), i as int);
                }
                Some(&self.entries[i].1)
            },
            None => None,
        }
    }

    /// Sets (or replaces) the value for `key`.
    pub fn insert(&mut self, key: String, value: V)
        requires
            old(self).wf(),
        ensures
            final(self).wf(),
            final(self).map() == old(self).map().insert(key@, value),
    {
        let ghost old_pairs = self.pairs();
        let ghost kv = (key@, value);
        match self.find(key.as_str()) {
            Some(i) => {
                self.entries.set(i, (key, value));
                proof {
                    let np = self.pairs();
                    assert(np =~= old_pairs.update(i as int, kv));
                    assert forall|k: Seq<char>| self.map().dom().contains(k) <==> old(self).map().insert(
                        kv.0,
                        kv.1,
                    ).dom().contains(k) by {
                        if exists|j: int| 0 <= j < np.len() && #[trigger] np[j].0 == k {
                            let j = choose|j: int| 0 <= j < np.len() && #[trigger] np[j].0 == k;
                            if j != i {
                                assert(old_pairs[j].0 == k);
                            }
                        }
                        if exists|j: int| 0 <= j < old_pairs.len() && #[trigger] old_pairs[j].0 == k {
                            let j = choose|j: int| 0 <= j < old_pairs.len() && #[trigger] old_pairs[j].0 == k;
                            assert(np[j].0 == k);
                        }
                        if k == kv.0 {
                            assert(np[i as int].0 == k);
                        }
                    }
                    assert forall|k: Seq<char>| self.map().dom().contains(k) implies self.map()[k]
                        == old(self).map().insert(kv.0, kv.1)[k] by {
                        let j = choose|j: int| 0 <= j < np.len() && #[trigger] np[j].0 == k;
                        lemma_pairs_map_at(np, j);
                        if j != i {
                            lemma_pairs_map_at(old_pairs, j);
                        }
                    }
                    assert(self.map() =~= old(self).map().insert(kv.0, kv.1));
                }
            },
            None => {
                self.entries.push((key, value));
                proof {
                    let np = self.pairs();
                    assert(np =~= old_pairs.push(kv));
                    assert forall|a: int, b: int| 0 <= a < np.len() && 0 <= b < np.len() && a != b implies np[a].0 != np[b].0 by {
                        if a == old_pairs.len() as int {
                            if np[b].0 == kv.0 {
                                assert(old_pairs[b].0 == kv.0);
                                lemma_pairs_map_at(old_pairs, b);
                            }
                        } else if b == old_pairs.len() as int {
                            if np[a].0 == kv.0 {
                                assert(old_pairs[a].0 == kv.0);
                                lemma_pairs_map_at(old_pairs, a);
                            }
                        }
                    }
                    assert forall|k: Seq<char>| self.map().dom().contains(k) <==> old(self).map().insert(
                        kv.0,
                        kv.1,
                    ).dom().contains(k) by {
                        if exists|j: int| 0 <= j < np.len() && #[trigger] np[j].0 == k {
                            let j = choose|j: int| 0 <= j < np.len() && #[trigger] np[j].0 == k;
                            if j < old_pairs.len() {
                                assert(old_pairs[j].0 == k);
                            }
                        }
                        if exists|j: int| 0 <= j < old_pairs.len() && #[trigger] old_pairs[j].0 == k {
                            let j = choose|j: int| 0 <= j < old_pairs.len() && #[trigger] old_pairs[j].0 == k;
                            assert(np[j].0 == k);
                        }
                        if k == kv.0 {
                            assert(np[old_pairs.len() as int].0 == k);
                        }
                    }
                    assert forall|k: Seq<char>| self.map().dom().contains(k) implies self.map()[k]
                        == old(self).map().insert(kv.0, kv.1)[k] by {
                        let j = choose|j: int| 0 <= j < np.len() && #[trigger] np[j].0 == k;
                        lemma_pairs_map_at(np, j);
                        if j < old_pairs.len() {
                            lemma_pairs_map_at(old_pairs, j);
                        }
                    }
                    assert(self.map() =~= old(self).map().insert(kv.0, kv.1));
                }
            },
        }
    }

    /// Removes the entry for `key`, if any.
    pub fn remove(&mut self, key: &str)
        requires
            old(self).wf(),
        ensures
            final(self).wf(),
            final(self).map() == old(self).map().remove(key@),
    {
        let ghost old_pairs = self.pairs();
        match self.find(key) {
            Some(i) => {
                self.entries.remove(i);
                proof {
                    let np = self.pairs();
                    assert(np =~= old_pairs.remove(i as int));
                    assert forall|a: int, b: int| 0 <= a < np.len() && 0 <= b < np.len() && a != b implies np[a].0 != np[b].0 by {
                        let a2 = if a < i { a } else { a + 1 };
                        let b2 = if b < i { b } else { b + 1 };
                        assert(np[a] == old_pairs[a2]);
                        assert(np[b] == old_pairs[b2]);
                    }
                    assert forall|k: Seq<char>| self.map().dom().contains(k) <==> old(self).map().remove(
                        key@,
                    ).dom().contains(k) by {
                        if exists|j: int| 0 <= j < np.len() && #[trigger] np[j].0 == k {
                            let j = choose|j: int| 0 <= j < np.len() && #[trigger] np[j].0 == k;
                            let j2 = if j < i { j } else { j + 1 };
                            assert(old_pairs[j2].0 == k);
                            assert(j2 != i);
                        }
                        if k != key@ && exists|j: int| 0 <= j < old_pairs.len() && #[trigger] old_pairs[j].0 == k {
                            let j = choose|j: int| 0 <= j < old_pairs.len() && #[trigger] old_pairs[j].0 == k;
                            if j < i {
                                assert(np[j].0 == k);
                            } else {
                                assert(np[j - 1].0 == k);
                            }
                        }
                    }
                    assert forall|k: Seq<char>| self.map().dom().contains(k) implies self.map()[k]
                        == old(self).map().remove(key@)[k] by {
                        let j = choose|j: int| 0 <= j < np.len() && #[trigger] np[j].0 == k;
                        let j2 = if j < i { j } else { j + 1 };
                        lemma_pairs_map_at(np, j);
                        lemma_pairs_map_at(old_pairs, j2);
                    }
                    assert(self.map() =~= old(self).map().remove(key@));
                }
            },
            None => {
                assert(self.map() =~= old(self).map().remove(key@));
            },
        }
    }
}

} // verus!
