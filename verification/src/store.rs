//! A small in-memory map from text keys to values, used for session and
//! public-key records.
use vstd::prelude::*;

verus! {

/// Entries keyed by text, each key at most once.
pub struct Store<V> {
    entries: Vec<(String, V)>,
}

impl<V> Store<V> {
    /// No key occurs in two entries.
    pub closed spec fn wf(&self) -> bool {
        forall|i: int, j: int|
            0 <= i < self.entries@.len() && 0 <= j < self.entries@.len() && (
            #[trigger] self.entries@[i]).0@ == (#[trigger] self.entries@[j]).0@ ==> i == j
    }

    closed spec fn has_key(&self, k: Seq<char>) -> bool {
        exists|i: int| 0 <= i < self.entries@.len() && (#[trigger] self.entries@[i]).0@ == k
    }

    closed spec fn index_of(&self, k: Seq<char>) -> int {
        choose|i: int| 0 <= i < self.entries@.len() && (#[trigger] self.entries@[i]).0@ == k
    }

    /// The map from each key to the value of its entry.
    pub closed spec fn as_map(&self) -> Map<Seq<char>, V> {
        Map::new(|k: Seq<char>| self.has_key(k), |k: Seq<char>| self.entries@[self.index_of(k)].1)
    }

    proof fn lemma_lookup(&self, i: int)
        requires
            self.wf(),
            0 <= i < self.entries@.len(),
        ensures
            self.as_map().contains_key(self.entries@[i].0@),
            self.as_map()[self.entries@[i].0@] == self.entries@[i].1,
    {
        let k = self.entries@[i].0@;
        assert(self.has_key(k));
        let j: int = self.index_of(k);
        assert(self.entries@[j].0@ == k);
    }

    /// An empty store.
    pub fn new() -> (s: Self)
        ensures
            s.wf(),
            s.as_map() == Map::<Seq<char>, V>::empty(),
    {
        let s = Store { entries: Vec::new() };
        proof {
            assert(s.as_map() =~= Map::<Seq<char>, V>::empty());
        }
        s
    }

    fn find(&self, key: &String) -> (res: Option<usize>)
        requires
            self.wf(),
        ensures
            match res {
                Some(i) => i < self.entries@.len() && self.entries@[i as int].0@ == key@,
                None => !self.as_map().contains_key(key@),
            },
    {
        let mut i: usize = 0;
        while i < self.entries.len()
            invariant
                i <= self.entries@.len(),
                forall|j: int| 0 <= j < i ==> (#[trigger] self.entries@[j]).0@ != key@,
            decreases self.entries.len() - i,
        {
            if self.entries[i].0 == *key {
                return Some(i);
            }
            i = i + 1;
        }
        None
    }

    /// The value stored under `key`, if any.
    pub fn get(&self, key: &str) -> (res: Option<&V>)
        requires
            self.wf(),
        ensures
            match res {
                Some(v) => self.as_map().contains_key(key@) && *v == self.as_map()[key@],
                None => !self.as_map().contains_key(key@),
            },
    {
        let k = key.to_owned();
        match self.find(&k) {
            Some(i) => {
                proof {
                    self.lemma_lookup(i as int);
                }
                Some(&self.entries[i].1)
            },
            None => None,
        }
    }

    /// Stores `value` under `key`, replacing the value stored there before.
    pub fn insert(&mut self, key: String, value: V)
        requires
            old(self).wf(),
        ensures
            final(self).wf(),
            final(self).as_map() == old(self).as_map().insert(key@, value),
    {
        let ghost old_map = self.as_map();
        let ghost k = key@;
        match self.find(&key) {
            Some(i) => {
                self.entries.set(i, (key, value));
                proof {
                    let new_map = self.as_map();
                    assert forall|a: Seq<char>| #[trigger]
                        new_map.contains_key(a) == old_map.insert(k, value).contains_key(a) by {
                        if old(self).has_key(a) {
                            let j: int = old(self).index_of(a);
                            assert(self.entries@[j].0@ == a);
                        }
                        if self.has_key(a) {
                            let j: int = self.index_of(a);
                            if j != i {
                                assert(old(self).entries@[j].0@ == a);
                            }
                        }
                    }
                    assert forall|a: Seq<char>| #[trigger] new_map.contains_key(a) implies new_map[a]
                        == old_map.insert(k, value)[a] by {
                        let j: int = self.index_of(a);
                        if a == k {
                            assert(j == i);
                        } else {
                            assert(j != i);
                            assert(old(self).entries@[j].0@ == a);
                            old(self).lemma_lookup(j);
                        }
                    }
                    assert(new_map =~= old_map.insert(k, value));
                }
            },
            None => {
                self.entries.push((key, value));
                proof {
                    let n: nat = old(self).entries@.len();
                    let new_map = self.as_map();
                    assert forall|a: Seq<char>| #[trigger]
                        new_map.contains_key(a) == old_map.insert(k, value).contains_key(a) by {
                        if old(self).has_key(a) {
                            let j: int = old(self).index_of(a);
                            assert(self.entries@[j].0@ == a);
                        }
                        if a == k {
                            assert(self.entries@[n as int].0@ == a);
                        }
                        if self.has_key(a) {
                            let j: int = self.index_of(a);
                            if j < n {
                                assert(old(self).entries@[j].0@ == a);
                            }
                        }
                    }
                    assert forall|a: Seq<char>| #[trigger] new_map.contains_key(a) implies new_map[a]
                        == old_map.insert(k, value)[a] by {
                        let j: int = self.index_of(a);
                        if a == k {
                            assert(j == n);
                        } else {
                            assert(j < n);
                            assert(old(self).entries@[j].0@ == a);
                            old(self).lemma_lookup(j);
                        }
                    }
                    assert(new_map =~= old_map.insert(k, value));
                }
            },
        }
    }
}

/// After `insert(key, value)`, `get(key)` finds `value`, and every other key
/// is present and holds its value exactly as before.
pub proof fn law_get_after_insert<V>(before: Store<V>, after: Store<V>, key: Seq<char>, value: V)
    requires
        after@ == before@.insert(key, value),
    ensures
        after@.contains_key(key),
        after@[key] == value,
        forall|other: Seq<char>|
            other != key ==> (#[trigger] after@.contains_key(other) == before@.contains_key(other)
                && (before@.contains_key(other) ==> after@[other] == before@[other])),
{
}

impl<V> View for Store<V> {
    type V = Map<Seq<char>, V>;

    open spec fn view(&self) -> Map<Seq<char>, V> {
        self.as_map()
    }
}

} // verus!
