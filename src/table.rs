use vstd::prelude::*;

verus! {

/// No two entries share a key.
pub open spec fn keys_unique<V>(s: Seq<(String, V)>) -> bool {
    forall|i: int, j: int|
        0 <= i < s.len() && 0 <= j < s.len() && (#[trigger] s[i].0)@ == (#[trigger] s[j].0)@
            ==> i == j
}

pub open spec fn has_key<V>(s: Seq<(String, V)>, k: Seq<char>) -> bool {
    exists|i: int| 0 <= i < s.len() && (#[trigger] s[i].0)@ == k
}

/// The map that a sequence of entries with unique keys stands for.
pub open spec fn entries_map<V>(s: Seq<(String, V)>) -> Map<Seq<char>, V> {
    Map::new(
        |k: Seq<char>| has_key(s, k),
        |k: Seq<char>| s[choose|i: int| 0 <= i < s.len() && (#[trigger] s[i].0)@ == k].1,
    )
}

pub proof fn lemma_entry_lookup<V>(s: Seq<(String, V)>, i: int)
    requires
        keys_unique(s),
        0 <= i < s.len(),
    ensures
        entries_map(s).contains_key(s[i].0@),
        entries_map(s)[s[i].0@] == s[i].1,
{
    let k = s[i].0@;
    assert(has_key(s, k));
    let j = choose|j: int| 0 <= j < s.len() && (#[trigger] s[j].0)@ == k;
    assert(j == i);
}

/// A map from string keys to values, kept as a vector of entries in the
/// order of first insertion.
pub struct KeyedTable<V> {
    pub entries: Vec<(String, V)>,
}

impl<V> View for KeyedTable<V> {
    type V = Map<Seq<char>, V>;

    open spec fn view(&self) -> Map<Seq<char>, V> {
        entries_map(self.entries@)
    }
}

impl<V> KeyedTable<V> {
    pub open spec fn wf(&self) -> bool {
        keys_unique(self.entries@)
    }

    pub fn new() -> (r: Self)
        ensures
            r.wf(),
            r@ == Map::<Seq<char>, V>::empty(),
    {
        let r = KeyedTable { entries: Vec::new() };
        assert(r@ =~= Map::<Seq<char>, V>::empty());
        r
    }

    pub fn len(&self) -> (r: usize)
        ensures
            r == self.entries@.len(),
    {
        self.entries.len()
    }

    /// The position of the entry for `k`.
    pub fn find(&self, k: &str) -> (r: Option<usize>)
        requires
            self.wf(),
        ensures
            match r {
                Some(i) => i < self.entries@.len() && self.entries@[i as int].0@ == k@,
                None => !self@.contains_key(k@),
            },
    {
        let key = k.to_owned();
        let mut i: usize = 0;
        while i < self.entries.len()
            invariant
                0 <= i <= self.entries@.len(),
                key@ == k@,
                forall|j: int| 0 <= j < i ==> (#[trigger] self.entries@[j].0)@ != k@,
            decreases self.entries@.len() - i,
        {
            if self.entries[i].0 == key {
                return Some(i);
            }
            i = i + 1;
        }
        None
    }

    pub fn contains_key(&self, k: &str) -> (r: bool)
        requires
            self.wf(),
        ensures
            r == self@.contains_key(k@),
    {
        match self.find(k) {
            Some(i) => {
                proof {
                    lemma_entry_lookup(self.entries@, i as int);
                }
                true
            },
            None => false,
        }
    }

    pub fn get(&self, k: &str) -> (r: Option<&V>)
        requires
            self.wf(),
        ensures
            match r {
                Some(v) => self@.contains_key(k@) && *v == self@[k@],
                None => !self@.contains_key(k@),
            },
    {
        match self.find(k) {
            Some(i) => {
                proof {
                    lemma_entry_lookup(self.entries@, i as int);
                }
                Some(&self.entries[i].1)
            },
            None => None,
        }
    }

    /// Sets the value for `k`, in place where `k` has an entry.
    pub fn insert(&mut self, k: String, v: V)
        requires
            old(self).wf(),
        ensures
            final(self).wf(),
            final(self)@ == old(self)@.insert(k@, v),
    {
        let ghost s0 = self.entries@;
        match self.find(k.as_str()) {
            Some(i) => {
                self.entries.set(i, (k, v));
                proof {
                    let s1 = self.entries@;
                    assert(s1 == s0.update(i as int, s1[i as int]));
                    assert(keys_unique(s1)) by {
                        assert forall|a: int, b: int|
                            0 <= a < s1.len() && 0 <= b < s1.len() && (#[trigger] s1[a].0)@ == (
                            #[trigger] s1[b].0)@ implies a == b by {
                            assert(s0[a].0@ == s1[a].0@);
                            assert(s0[b].0@ == s1[b].0@);
                        }
                    }
                    assert forall|key: Seq<char>|
                        has_key(s1, key) == (has_key(s0, key) || key == s1[i as int].0@) by {
                        if has_key(s0, key) {
                            let j = choose|j: int| 0 <= j < s0.len() && (#[trigger] s0[j].0)@ == key;
                            assert(s1[j].0@ == key);
                        }
                        if has_key(s1, key) {
                            let j = choose|j: int| 0 <= j < s1.len() && (#[trigger] s1[j].0)@ == key;
                            assert(s0[j].0@ == key);
                        }
                    }
                    assert forall|key: Seq<char>| #[trigger]
                        entries_map(s1).contains_key(key) && key != s1[i as int].0@ implies entries_map(
                        s1)[key] == entries_map(s0)[key] by {
                        let j = choose|j: int| 0 <= j < s1.len() && (#[trigger] s1[j].0)@ == key;
                        lemma_entry_lookup(s1, j);
                        lemma_entry_lookup(s0, j);
                    }
                    lemma_entry_lookup(s1, i as int);
                    assert(self@ =~= old(self)@.insert(k@, v));
                }
            },
            None => {
                self.entries.push((k, v));
                proof {
                    let s1 = self.entries@;
                    let n = s0.len() as int;
                    assert(s1 == s0.push(s1[n]));
                    assert(keys_unique(s1)) by {
                        assert forall|a: int, b: int|
                            0 <= a < s1.len() && 0 <= b < s1.len() && (#[trigger] s1[a].0)@ == (
                            #[trigger] s1[b].0)@ implies a == b by {
                            if a < n && b == n {
                                assert(has_key(s0, s0[a].0@));
                            }
                            if b < n && a == n {
                                assert(has_key(s0, s0[b].0@));
                            }
                        }
                    }
                    assert forall|key: Seq<char>|
                        has_key(s1, key) == (has_key(s0, key) || key == k@) by {
                        if has_key(s0, key) {
                            let j = choose|j: int| 0 <= j < s0.len() && (#[trigger] s0[j].0)@ == key;
                            assert(s1[j].0@ == key);
                        }
                        if has_key(s1, key) {
                            let j = choose|j: int| 0 <= j < s1.len() && (#[trigger] s1[j].0)@ == key;
                            if j < n {
                                assert(s0[j].0@ == key);
                            }
                        }
                        if key == k@ {
                            assert(s1[n].0@ == key);
                        }
                    }
                    assert forall|key: Seq<char>| #[trigger]
                        entries_map(s1).contains_key(key) && key != k@ implies entries_map(s1)[key]
                        == entries_map(s0)[key] by {
                        let j = choose|j: int| 0 <= j < s1.len() && (#[trigger] s1[j].0)@ == key;
                        lemma_entry_lookup(s1, j);
                        lemma_entry_lookup(s0, j);
                    }
                    lemma_entry_lookup(s1, n);
                    assert(self@ =~= old(self)@.insert(k@, v));
                }
            },
        }
    }

    /// Drops the entry for `k`, if any, and hands its value back.
    pub fn remove(&mut self, k: &str) -> (r: Option<V>)
        requires
            old(self).wf(),
        ensures
            final(self).wf(),
            final(self)@ == old(self)@.remove(k@),
            match r {
                Some(v) => old(self)@.contains_key(k@) && v == old(self)@[k@],
                None => !old(self)@.contains_key(k@),
            },
    {
        let ghost s0 = self.entries@;
        match self.find(k) {
            Some(i) => {
                proof {
                    lemma_entry_lookup(s0, i as int);
                }
                let (_, v) = self.entries.remove(i);
                proof {
                    let s1 = self.entries@;
                    assert(s1 =~= s0.remove(i as int));
                    assert forall|a: int| 0 <= a < s1.len() implies #[trigger] s1[a] == s0[if a < i {
                        a
                    } else {
                        a + 1
                    }] by {}
                    assert(keys_unique(s1)) by {
                        assert forall|a: int, b: int|
                            0 <= a < s1.len() && 0 <= b < s1.len() && (#[trigger] s1[a].0)@ == (
                            #[trigger] s1[b].0)@ implies a == b by {
                            let a0 = if a < i {
                                a
                            } else {
                                a + 1
                            };
                            let b0 = if b < i {
                                b
                            } else {
                                b + 1
                            };
                            assert(s1[a] == s0[a0]);
                            assert(s1[b] == s0[b0]);
                        }
                    }
                    assert forall|key: Seq<char>|
                        has_key(s1, key) == (has_key(s0, key) && key != k@) by {
                        if has_key(s0, key) && key != k@ {
                            let j = choose|j: int| 0 <= j < s0.len() && (#[trigger] s0[j].0)@ == key;
                            assert(j != i);
                            let j1 = if j < i {
                                j
                            } else {
                                j - 1
                            };
                            assert(s1[j1] == s0[j]);
                        }
                        if has_key(s1, key) {
                            let j = choose|j: int| 0 <= j < s1.len() && (#[trigger] s1[j].0)@ == key;
                            let j0 = if j < i {
                                j
                            } else {
                                j + 1
                            };
                            assert(s1[j] == s0[j0]);
                            assert(j0 != i);
                        }
                    }
                    assert forall|key: Seq<char>| #[trigger]
                        entries_map(s1).contains_key(key) implies entries_map(s1)[key]
                        == entries_map(s0)[key] by {
                        let j = choose|j: int| 0 <= j < s1.len() && (#[trigger] s1[j].0)@ == key;
                        let j0 = if j < i {
                            j
                        } else {
                            j + 1
                        };
                        assert(s1[j] == s0[j0]);
                        lemma_entry_lookup(s1, j);
                        lemma_entry_lookup(s0, j0);
                    }
                    assert(self@ =~= old(self)@.remove(k@));
                }
                Some(v)
            },
            None => {
                proof {
                    assert(self@ =~= old(self)@.remove(k@));
                }
                None
            },
        }
    }
}

} // verus!
