use vstd::prelude::*;

verus! {

/// A string-keyed collection in which no key appears twice, viewed as the map
/// from each key to its value.
pub struct KeyedEntries<T> {
    items: Vec<(String, T)>,
    contents: Ghost<Map<Seq<char>, T>>,
}

impl<T> View for KeyedEntries<T> {
    type V = Map<Seq<char>, T>;

    closed spec fn view(&self) -> Map<Seq<char>, T> {
        self.contents@
    }
}

/// The keys of `items` are pairwise distinct.
pub open spec fn distinct_keys<T>(items: Seq<(String, T)>) -> bool {
    forall|i: int, j: int|
        0 <= i < items.len() && 0 <= j < items.len() && i != j ==> #[trigger] items[i].0@
            != #[trigger] items[j].0@
}

/// `items` lists exactly the entries of `m`, each key once.
pub open spec fn lists_map<T>(items: Seq<(String, T)>, m: Map<Seq<char>, T>) -> bool {
    &&& distinct_keys(items)
    &&& forall|i: int|
        0 <= i < items.len() ==> #[trigger] m.contains_key(items[i].0@) && m[items[i].0@]
            == items[i].1
    &&& forall|k: Seq<char>|
        #[trigger] m.contains_key(k) ==> exists|i: int| 0 <= i < items.len() && items[i].0@ == k
}

impl<T> KeyedEntries<T> {
    pub closed spec fn wf(&self) -> bool {
        lists_map(self.items@, self.contents@)
    }

    pub fn new() -> (r: Self)
        ensures
            r.wf(),
            r@ == Map::<Seq<char>, T>::empty(),
    {
        KeyedEntries { items: Vec::new(), contents: Ghost(Map::empty()) }
    }

    fn position(&self, key: &String) -> (r: Option<usize>)
        requires
            self.wf(),
        ensures
            match r {
                Some(i) => i < self.items@.len() && self.items@[i as int].0@ == key@,
                None => !self@.contains_key(key@),
            },
    {
        let mut i: usize = 0;
        while i < self.items.len()
            invariant
                i <= self.items@.len(),
                forall|j: int| 0 <= j < i ==> self.items@[j].0@ != key@,
            decreases self.items@.len() - i,
        {
            if self.items[i].0 == *key {
                return Some(i);
            }
            i = i + 1;
        }
        None
    }

    pub fn contains_key(&self, key: &String) -> (r: bool)
        requires
            self.wf(),
        ensures
            r == self@.contains_key(key@),
    {
        self.position(key).is_some()
    }

    pub fn get(&self, key: &String) -> (r: Option<&T>)
        requires
            self.wf(),
        ensures
            match r {
                Some(v) => self@.contains_key(key@) && *v == self@[key@],
                None => !self@.contains_key(key@),
            },
    {
        match self.position(key) {
            Some(i) => {
                proof {
                    assert(self@.contains_key(self.items@[i as int].0@));
                }
                Some(&self.items[i].1)
            },
            None => None,
        }
    }

    pub fn len(&self) -> (r: usize)
        requires
            self.wf(),
        ensures
            r == self@.dom().len(),
    {
        proof {
            self.lemma_len();
        }
        self.items.len()
    }

    proof fn lemma_len(&self)
        requires
            self.wf(),
        ensures
            self.items@.len() == self@.dom().len(),
        decreases self.items@.len(),
    {
        let items = self.items@;
        let m = self@;
        let keys = items.map_values(|e: (String, T)| e.0@);
        assert(keys.no_duplicates());
        assert(keys.to_set() =~= m.dom()) by {
            assert forall|k: Seq<char>| m.dom().contains(k) implies keys.to_set().contains(k) by {
                let i = choose|i: int| 0 <= i < items.len() && items[i].0@ == k;
                assert(keys[i] == k);
            }
            assert forall|k: Seq<char>| keys.to_set().contains(k) implies m.dom().contains(k) by {
                let i = choose|i: int| 0 <= i < keys.len() && keys[i] == k;
                assert(m.contains_key(items[i].0@));
            }
        }
        keys.unique_seq_to_set();
    }

    /// Sets `key` to `value`, replacing any earlier value of the key.
    pub fn insert(&mut self, key: String, value: T)
        requires
            old(self).wf(),
        ensures
            final(self).wf(),
            final(self)@ == old(self)@.insert(key@, value),
    {
        self.remove(&key);
        let ghost k = key@;
        let ghost before = self.items@;
        let ghost m0 = self.contents@;
        self.items.push((key, value));
        self.contents = Ghost(self.contents@.insert(k, value));
        assert(self.items@.last().0@ == k);
        assert forall|i: int| 0 <= i < before.len() implies before[i].0@ != k by {
            assert(m0.contains_key(before[i].0@));
        }
        assert(distinct_keys(self.items@)) by {
            assert forall|i: int, j: int|
                0 <= i < self.items@.len() && 0 <= j < self.items@.len() && i != j implies self.items@[i].0@
                    != self.items@[j].0@ by {
                if i < before.len() && j < before.len() {
                    assert(self.items@[i] == before[i]);
                    assert(self.items@[j] == before[j]);
                } else if i < before.len() {
                    assert(self.items@[i] == before[i]);
                } else {
                    assert(self.items@[j] == before[j]);
                }
            }
        }
        assert forall|i: int| 0 <= i < self.items@.len() implies #[trigger] self.contents@.contains_key(
            self.items@[i].0@,
        ) && self.contents@[self.items@[i].0@] == self.items@[i].1 by {
            if i < before.len() {
                assert(self.items@[i] == before[i]);
                assert(m0.contains_key(before[i].0@));
            }
        }
        assert forall|kk: Seq<char>| #[trigger] self.contents@.contains_key(kk) implies exists|
            i: int,
        | 0 <= i < self.items@.len() && self.items@[i].0@ == kk by {
            if kk != k {
                let i = choose|i: int| 0 <= i < before.len() && before[i].0@ == kk;
                assert(self.items@[i] == before[i]);
            } else {
                assert(self.items@[before.len() as int].0@ == kk);
            }
        }
    }

    /// Takes `key` out, if it is there.
    pub fn remove(&mut self, key: &String)
        requires
            old(self).wf(),
        ensures
            final(self).wf(),
            final(self)@ == old(self)@.remove(key@),
    {
        match self.position(key) {
            None => {
                assert(self.contents@.remove(key@) =~= self.contents@);
            },
            Some(i) => {
                let ghost before = self.items@;
                let _ = self.items.remove(i);
                self.contents = Ghost(self.contents@.remove(key@));
                assert forall|j: int| 0 <= j < self.items@.len() implies #[trigger] self.contents@.contains_key(self.items@[j].0@) && self.contents@[self.items@[j].0@] == self.items@[j].1 by {
                    if j < i {
                        assert(self.items@[j] == before[j]);
                    } else {
                        assert(self.items@[j] == before[j + 1]);
                    }
                }
                assert forall|kk: Seq<char>| #[trigger] self.contents@.contains_key(kk) implies exists|
                    j: int,
                | 0 <= j < self.items@.len() && self.items@[j].0@ == kk by {
                    let j = choose|j: int| 0 <= j < before.len() && before[j].0@ == kk;
                    if j < i {
                        assert(self.items@[j] == before[j]);
                    } else {
                        assert(self.items@[j - 1] == before[j]);
                    }
                }
            },
        }
    }

    /// Hands out the entries, each key once.
    pub fn into_vec(self) -> (r: Vec<(String, T)>)
        requires
            self.wf(),
        ensures
            lists_map(r@, self@),
    {
        self.items
    }
}

} // verus!
