//! A small map keyed by account or interface names, with unique keys and an
//! explicit entry order.
use vstd::prelude::*;

verus! {

/// One entry of a keyed store.
pub struct KeyedEntry<V> {
    pub key: String,
    pub value: V,
}

/// A map from names to values, held as a list of entries with unique keys.
pub struct KeyedStore<V> {
    pub entries: Vec<KeyedEntry<V>>,
}

impl<V> KeyedStore<V> {
    /// No key appears twice.
    pub open spec fn wf(&self) -> bool {
        forall|i: int, j: int| 0 <= i < j < self.entries@.len() ==> self.entries@[i].key@ != self.entries@[j].key@
    }

    /// The key has an entry.
    pub open spec fn contains(&self, k: Seq<char>) -> bool {
        exists|i: int| 0 <= i < self.entries@.len() && self.entries@[i].key@ == k
    }

    /// The position of the key's entry.
    pub open spec fn index_of(&self, k: Seq<char>) -> int {
        choose|i: int| 0 <= i < self.entries@.len() && self.entries@[i].key@ == k
    }

    /// The value under a key that has an entry.
    pub open spec fn lookup(&self, k: Seq<char>) -> V {
        self.entries@[self.index_of(k)].value
    }

    /// `self` holds the entries of `old` except for the key `k`.
    pub open spec fn agrees_except(&self, old: &Self, k: Seq<char>) -> bool {
        forall|x: Seq<char>| x != k ==> {
            &&& (#[trigger] self.contains(x)) == old.contains(x)
            &&& self.contains(x) ==> self.lookup(x) == old.lookup(x)
        }
    }

    proof fn lemma_index(&self, i: int)
        requires
            self.wf(),
            0 <= i < self.entries@.len(),
        ensures
            self.contains(self.entries@[i].key@),
            self.index_of(self.entries@[i].key@) == i,
    {
        let k = self.entries@[i].key@;
        assert(self.contains(k));
        let j = self.index_of(k);
        if j < i {
            assert(self.entries@[j].key@ != self.entries@[i].key@);
        } else if i < j {
            assert(self.entries@[i].key@ != self.entries@[j].key@);
        }
    }

    /// An empty store.
    pub fn new() -> (r: Self)
        ensures
            r.wf(),
            forall|k: Seq<char>| !r.contains(k),
    {
        KeyedStore { entries: Vec::new() }
    }

    fn find(&self, k: &String) -> (r: Option<usize>)
        requires
            self.wf(),
        ensures
            match r {
                Some(i) => i < self.entries@.len() && self.entries@[i as int].key@ == k@ && self.contains(k@)
                    && self.index_of(k@) == i,
                None => !self.contains(k@),
            },
    {
        let mut i: usize = 0;
        while i < self.entries.len()
            invariant
                self.wf(),
                i <= self.entries@.len(),
                forall|j: int| 0 <= j < i ==> self.entries@[j].key@ != k@,
            decreases self.entries@.len() - i,
        {
            if self.entries[i].key.eq(k) {
                proof {
                    self.lemma_index(i as int);
                }
                return Some(i);
            }
            i = i + 1;
        }
        None
    }

    /// The value under a key, if any.
    pub fn get(&self, k: &String) -> (r: Option<&V>)
        requires
            self.wf(),
        ensures
            match r {
                Some(v) => self.contains(k@) && *v == self.lookup(k@),
                None => !self.contains(k@),
            },
    {
        match self.find(k) {
            Some(i) => Some(&self.entries[i].value),
            None => None,
        }
    }

    /// Whether the key has an entry.
    pub fn contains_key(&self, k: &String) -> (r: bool)
        requires
            self.wf(),
        ensures
            r == self.contains(k@),
    {
        self.find(k).is_some()
    }

    /// Puts `v` under `k`; returns whether the key is new.
    pub fn insert(&mut self, k: String, v: V) -> (r: bool)
        requires
            old(self).wf(),
        ensures
            final(self).wf(),
            r == !old(self).contains(k@),
            final(self).contains(k@),
            final(self).lookup(k@) == v,
            final(self).agrees_except(old(self), k@),
    {
        let found = self.find(&k);
        let ghost old_entries = self.entries@;
        let ghost key = k@;
        let i: usize = match found {
            Some(i) => {
                self.entries[i].value = v;
                i
            },
            None => {
                let n = self.entries.len();
                self.entries.push(KeyedEntry { key: k, value: v });
                n
            },
        };
        proof {
            let e = self.entries@;
            assert(e[i as int].key@ == key);
            assert forall|a: int, b: int| 0 <= a < b < e.len() implies e[a].key@ != e[b].key@ by {
                if b < old_entries.len() {
                    assert(e[a].key == old_entries[a].key);
                    assert(e[b].key == old_entries[b].key);
                } else {
                    assert(e[a] == old_entries[a]);
                }
            }
            self.lemma_index(i as int);
            assert forall|x: Seq<char>| x != key implies {
                &&& (#[trigger] self.contains(x)) == old(self).contains(x)
                &&& self.contains(x) ==> self.lookup(x) == old(self).lookup(x)
            } by {
                if old(self).contains(x) {
                    let m = old(self).index_of(x);
                    assert(e[m] == old_entries[m]);
                    self.lemma_index(m);
                }
                if self.contains(x) {
                    let m = self.index_of(x);
                    assert(m != i);
                    assert(e[m] == old_entries[m]);
                    assert(old(self).contains(x));
                }
            }
        }
        found.is_none()
    }

    /// Removes the entry of `k`; returns whether there was one.
    pub fn remove(&mut self, k: &String) -> (r: bool)
        requires
            old(self).wf(),
        ensures
            final(self).wf(),
            r == old(self).contains(k@),
            !final(self).contains(k@),
            final(self).agrees_except(old(self), k@),
    {
        let i = match self.find(k) {
            Some(i) => i,
            None => return false,
        };
        let ghost old_entries = self.entries@;
        let _ = self.entries.remove(i);
        proof {
            let e = self.entries@;
            assert(forall|j: int| 0 <= j < i ==> e[j] == old_entries[j]);
            assert(forall|j: int| i <= j < e.len() ==> e[j] == old_entries[j + 1]);
            assert forall|a: int, b: int| 0 <= a < b < e.len() implies e[a].key@ != e[b].key@ by {
                let oa = if a < i { a } else { a + 1 };
                let ob = if b < i { b } else { b + 1 };
                assert(e[a] == old_entries[oa]);
                assert(e[b] == old_entries[ob]);
            }
            assert forall|j: int| 0 <= j < e.len() implies e[j].key@ != k@ by {
                let oj = if j < i { j } else { j + 1 };
                assert(e[j] == old_entries[oj]);
                assert(old_entries[oj].key@ != old_entries[i as int].key@);
            }
            assert forall|x: Seq<char>| x != k@ implies {
                &&& (#[trigger] self.contains(x)) == old(self).contains(x)
                &&& self.contains(x) ==> self.lookup(x) == old(self).lookup(x)
            } by {
                if old(self).contains(x) {
                    let m = old(self).index_of(x);
                    assert(m != i);
                    let nm = if m < i { m } else { m - 1 };
                    assert(e[nm] == old_entries[m]);
                    self.lemma_index(nm);
                }
                if self.contains(x) {
                    let m = self.index_of(x);
                    let om = if m < i { m } else { m + 1 };
                    assert(e[m] == old_entries[om]);
                    old(self).lemma_index(om);
                }
            }
        }
        true
    }
}

} // verus!
