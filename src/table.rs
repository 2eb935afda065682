//! A keyed record store: the durable key-value collaborator that every
//! component keeps its records in.
use vstd::prelude::*;

verus! {

/// Records keyed by text; each key names at most one record.
pub struct Table<V> {
    entries: Vec<(String, V)>,
}

impl<V> Table<V> {
    /// No key is held twice.
    pub closed spec fn wf(self) -> bool {
        forall|i: int, j: int|
            0 <= i < j < self.entries.len() ==> self.entries[i].0@ != self.entries[j].0@
    }

    spec fn holds_at(self, key: Seq<char>, i: int) -> bool {
        0 <= i < self.entries.len() && self.entries[i].0@ == key
    }
}

impl<V> View for Table<V> {
    type V = Map<Seq<char>, V>;

    closed spec fn view(&self) -> Map<Seq<char>, V> {
        Map::new(
            |k: Seq<char>| exists|i: int| self.holds_at(k, i),
            |k: Seq<char>| self.entries[choose|i: int| self.holds_at(k, i)].1,
        )
    }
}

impl<V> Table<V> {
    proof fn lemma_view_at(&self, i: int)
        requires
            self.wf(),
            0 <= i < self.entries.len(),
        ensures
            self@.contains_key(self.entries[i].0@),
            self@[self.entries[i].0@] == self.entries[i].1,
    {
        let k = self.entries[i].0@;
        assert(self.holds_at(k, i));
        let j = choose|j: int| self.holds_at(k, j);
        assert(i == j);
    }

    pub fn new() -> (r: Self)
        ensures
            r.wf(),
            r@ == Map::<Seq<char>, V>::empty(),
    {
        let r = Table { entries: Vec::new() };
        assert(r@ =~= Map::<Seq<char>, V>::empty());
        r
    }

    fn find(&self, key: &String) -> (r: Option<usize>)
        ensures
            match r {
                Some(i) => self.holds_at(key@, i as int),
                None => forall|i: int| !self.holds_at(key@, i),
            },
    {
        let mut i: usize = 0;
        while i < self.entries.len()
            invariant
                i <= self.entries.len(),
                forall|j: int| 0 <= j < i ==> !self.holds_at(key@, j),
            decreases self.entries.len() - i,
        {
            if self.entries[i].0 == *key {
                return Some(i);
            }
            i = i + 1;
        }
        None
    }

    pub fn contains_key(&self, key: &String) -> (r: bool)
        requires
            self.wf(),
        ensures
            r == self@.contains_key(key@),
    {
        match self.find(key) {
            Some(_) => true,
            None => false,
        }
    }

    pub fn get(&self, key: &String) -> (r: Option<&V>)
        requires
            self.wf(),
        ensures
            match r {
                Some(v) => self@.contains_key(key@) && *v == self@[key@],
                None => !self@.contains_key(key@),
            },
    {
        match self.find(key) {
            Some(i) => {
                proof {
                    self.lemma_view_at(i as int);
                }
                Some(&self.entries[i].1)
            },
            None => None,
        }
    }

    pub fn insert(&mut self, key: String, value: V)
        requires
            old(self).wf(),
        ensures
            final(self).wf(),
            final(self)@ == old(self)@.insert(key@, value),
    {
        let ghost k = key@;
        let ghost pre = *self;
        match self.find(&key) {
            Some(i) => {
                self.entries[i] = (key, value);
                proof {
                    assert forall|j: int| 0 <= j < self.entries.len() implies
                        #[trigger] self.entries[j].0@ == pre.entries[j].0@ by {}
                    assert forall|q: Seq<char>| #[trigger] self@.contains_key(q) == pre@.insert(k, value).contains_key(q)
                        && (self@.contains_key(q) ==> self@[q] == pre@.insert(k, value)[q]) by {
                        if q == k {
                            self.lemma_view_at(i as int);
                        } else if pre@.contains_key(q) {
                            let j = choose|j: int| pre.holds_at(q, j);
                            assert(self.holds_at(q, j));
                            pre.lemma_view_at(j);
                            self.lemma_view_at(j);
                        } else {
                            if self@.contains_key(q) {
                                let j = choose|j: int| self.holds_at(q, j);
                                assert(pre.holds_at(q, j));
                            }
                        }
                    }
                    assert(self@ =~= pre@.insert(k, value));
                }
            },
            None => {
                self.entries.push((key, value));
                proof {
                    let n = pre.entries.len() as int;
                    assert forall|i: int, j: int|
                        0 <= i < j < self.entries.len() implies
                        self.entries[i].0@ != self.entries[j].0@ by {
                        if j == n {
                            assert(!pre.holds_at(k, i));
                        }
                    }
                    assert forall|q: Seq<char>| #[trigger] self@.contains_key(q) == pre@.insert(k, value).contains_key(q)
                        && (self@.contains_key(q) ==> self@[q] == pre@.insert(k, value)[q]) by {
                        if q == k {
                            self.lemma_view_at(n);
                        } else if pre@.contains_key(q) {
                            let j = choose|j: int| pre.holds_at(q, j);
                            assert(self.holds_at(q, j));
                            pre.lemma_view_at(j);
                            self.lemma_view_at(j);
                        } else {
                            if self@.contains_key(q) {
                                let j = choose|j: int| self.holds_at(q, j);
                                assert(pre.holds_at(q, j));
                            }
                        }
                    }
                    assert(self@ =~= pre@.insert(k, value));
                }
            },
        }
    }
}

} // verus!
