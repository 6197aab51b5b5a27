use vstd::prelude::*;

verus! {

/// A finite map from strings to values, kept as a list of entries in the
/// order in which their keys were first inserted; no key occurs twice.
#[derive(Clone)]
pub struct KeyedList<T> {
    entries: Vec<(String, T)>,
    contents: Ghost<Map<Seq<char>, T>>,
}

impl<T> KeyedList<T> {
    /// The map that the list stands for.
    pub closed spec fn map(&self) -> Map<Seq<char>, T> {
        self.contents@
    }

    /// The keys in list order.
    pub closed spec fn key_seq(&self) -> Seq<Seq<char>> {
        self.entries@.map_values(|e: (String, T)| e.0@)
    }

    /// No key twice, and the entries hold exactly the map.
    pub closed spec fn wf(&self) -> bool {
        &&& forall|i: int, j: int|
            0 <= i < j < self.entries@.len() ==> #[trigger] self.entries@[i].0@
                != #[trigger] self.entries@[j].0@
        &&& forall|i: int|
            0 <= i < self.entries@.len() ==> self.contents@.contains_key(
                #[trigger] self.entries@[i].0@,
            ) && self.contents@[self.entries@[i].0@] == self.entries@[i].1
        &&& forall|k: Seq<char>| #[trigger]
            self.contents@.contains_key(k) ==> exists|i: int|
                0 <= i < self.entries@.len() && #[trigger] self.entries@[i].0@ == k
    }

    pub fn new() -> (r: Self)
        ensures
            r.wf(),
            r.map() == Map::<Seq<char>, T>::empty(),
    {
        KeyedList { entries: Vec::new(), contents: Ghost(Map::empty()) }
    }

    /// The position of `key` in the list.
    fn find(&self, key: &str) -> (r: Option<usize>)
        requires
            self.wf(),
        ensures
            r matches Some(i) ==> i < self.entries@.len() && self.entries@[i as int].0@ == key@,
            r is None ==> !self.map().contains_key(key@),
    {
        let k = key.to_owned();
        let mut i: usize = 0;
        while i < self.entries.len()
            invariant
                self.wf(),
                k@ == key@,
                i <= self.entries@.len(),
                forall|j: int| 0 <= j < i ==> #[trigger] self.entries@[j].0@ != key@,
            decreases self.entries.len() - i,
        {
            if self.entries[i].0 == k {
                return Some(i);
            }
            i = i + 1;
        }
        None
    }

    /// The value stored under `key`.
    pub fn get(&self, key: &str) -> (r: Option<&T>)
        requires
            self.wf(),
        ensures
            r matches Some(v) ==> self.map().contains_key(key@) && *v == self.map()[key@],
            r is None ==> !self.map().contains_key(key@),
    {
        match self.find(key) {
            Some(i) => Some(&self.entries[i].1),
            None => None,
        }
    }

    /// Stores `value` under `key`, replacing what was there.
    pub fn insert(&mut self, key: String, value: T)
        requires
            old(self).wf(),
        ensures
            final(self).wf(),
            final(self).map() == old(self).map().insert(key@, value),
            forall|k: Seq<char>|
                old(self).map().contains_key(k) ==> #[trigger] final(self).key_seq().contains(k)
                    == old(self).key_seq().contains(k),
    {
        let ghost old_self = *self;
        match self.find(key.as_str()) {
            Some(i) => {
                self.contents = Ghost(self.contents@.insert(key@, value));
                self.entries.set(i, (key, value));
                proof {
                    assert forall|k: Seq<char>| #[trigger] self.contents@.contains_key(k) implies exists|j: int|
                        0 <= j < self.entries@.len() && #[trigger] self.entries@[j].0@ == k by {
                        if k != old_self.entries@[i as int].0@ {
                            let j: int = choose|j: int|
                                0 <= j < old_self.entries@.len() && #[trigger] old_self.entries@[j].0@ == k;
                            assert(self.entries@[j].0@ == k);
                        } else {
                            assert(self.entries@[i as int].0@ == k);
                        }
                    }
                }
            },
            None => {
                self.contents = Ghost(self.contents@.insert(key@, value));
                self.entries.push((key, value));
                proof {
                    let n: int = old_self.entries@.len() as int;
                    assert forall|k: Seq<char>| #[trigger] self.contents@.contains_key(k) implies exists|j: int|
                        0 <= j < self.entries@.len() && #[trigger] self.entries@[j].0@ == k by {
                        if k != self.entries@[n].0@ {
                            let j: int = choose|j: int|
                                0 <= j < old_self.entries@.len() && #[trigger] old_self.entries@[j].0@ == k;
                            assert(self.entries@[j].0@ == k);
                        }
                    }
                }
            },
        }
        proof {
            assert forall|k: Seq<char>| old_self.map().contains_key(k) implies #[trigger] self.key_seq().contains(k)
                == old_self.key_seq().contains(k) by {
                let j: int = choose|j: int| 0 <= j < old_self.entries@.len() && #[trigger] old_self.entries@[j].0@ == k;
                assert(old_self.key_seq()[j] == k);
                assert(self.key_seq()[j] == k);
            }
        }
    }

    /// Removes `key`; tells whether it was there.
    pub fn remove(&mut self, key: &str) -> (r: bool)
        requires
            old(self).wf(),
        ensures
            final(self).wf(),
            final(self).map() == old(self).map().remove(key@),
            r == old(self).map().contains_key(key@),
    {
        let ghost old_self = *self;
        match self.find(key) {
            Some(i) => {
                self.contents = Ghost(self.contents@.remove(key@));
                self.entries.remove(i);
                proof {
                    assert forall|j: int, l: int|
                        0 <= j < l < self.entries@.len() implies #[trigger] self.entries@[j].0@
                            != #[trigger] self.entries@[l].0@ by {
                        let oj: int = if j < i { j } else { j + 1 };
                        let ol: int = if l < i { l } else { l + 1 };
                        assert(self.entries@[j] == old_self.entries@[oj]);
                        assert(self.entries@[l] == old_self.entries@[ol]);
                    }
                    assert forall|j: int| 0 <= j < self.entries@.len() implies self.contents@.contains_key(
                        #[trigger] self.entries@[j].0@,
                    ) && self.contents@[self.entries@[j].0@] == self.entries@[j].1 by {
                        let oj: int = if j < i { j } else { j + 1 };
                        assert(self.entries@[j] == old_self.entries@[oj]);
                        assert(old_self.entries@[oj].0@ != old_self.entries@[i as int].0@);
                    }
                    assert forall|k: Seq<char>| #[trigger] self.contents@.contains_key(k) implies exists|j: int|
                        0 <= j < self.entries@.len() && #[trigger] self.entries@[j].0@ == k by {
                        let oj: int = choose|j: int|
                            0 <= j < old_self.entries@.len() && #[trigger] old_self.entries@[j].0@ == k;
                        assert(oj != i);
                        let j: int = if oj < i { oj } else { oj - 1 };
                        assert(self.entries@[j] == old_self.entries@[oj]);
                    }
                }
                true
            },
            None => {
                assert(self.contents@.remove(key@) =~= self.contents@);
                false
            },
        }
    }

    /// The keys, in the order in which they were first inserted.
    pub fn keys(&self) -> (r: Vec<String>)
        requires
            self.wf(),
        ensures
            r@.map_values(|s: String| s@) == self.key_seq(),
            forall|k: Seq<char>| self.map().contains_key(k) <==> exists|i: int|
                0 <= i < r@.len() && #[trigger] r@[i]@ == k,
            forall|i: int, j: int|
                0 <= i < r@.len() && 0 <= j < r@.len() && i != j ==> r@[i]@ != r@[j]@,
    {
        let mut r: Vec<String> = Vec::new();
        let mut i: usize = 0;
        while i < self.entries.len()
            invariant
                i <= self.entries@.len(),
                r@.map_values(|s: String| s@) == self.key_seq().take(i as int),
            decreases self.entries.len() - i,
        {
            let ghost old_r = r@;
            let key = self.entries[i].0.clone();
            assert(key@ == self.key_seq()[i as int]);
            r.push(key);
            assert(r@ == old_r.push(key));
            assert(r@.map_values(|s: String| s@) =~= old_r.map_values(|s: String| s@).push(key@));
            assert(self.key_seq().take(i + 1) =~= self.key_seq().take(i as int).push(key@));
            i = i + 1;
        }
        assert(self.key_seq().take(i as int) =~= self.key_seq());
        assert forall|j: int| 0 <= j < r@.len() implies #[trigger] r@[j]@ == self.entries@[j].0@ by {
            assert(r@.map_values(|s: String| s@)[j] == r@[j]@);
        }
        assert forall|k: Seq<char>| self.map().contains_key(k) <==> exists|j: int|
            0 <= j < r@.len() && #[trigger] r@[j]@ == k by {
            if self.map().contains_key(k) {
                let j: int = choose|j: int| 0 <= j < self.entries@.len() && #[trigger] self.entries@[j].0@ == k;
                assert(r@[j]@ == k);
            }
        }
        assert forall|a: int, b: int| 0 <= a < r@.len() && 0 <= b < r@.len() && a != b
            implies r@[a]@ != r@[b]@ by {
            if a < b {
                assert(self.entries@[a].0@ != self.entries@[b].0@);
            } else {
                assert(self.entries@[b].0@ != self.entries@[a].0@);
            }
        }
        r
    }
}

} // verus!
