use vstd::prelude::*;

verus! {

/// A finite map from strings to values, held as a vector of entries whose keys
/// are pairwise distinct. Its view is the mathematical map it stands for.
pub struct StrMap<V> {
    entries: Vec<(String, V)>,
    model: Ghost<Map<Seq<char>, V>>,
}

impl<V> View for StrMap<V> {
    type V = Map<Seq<char>, V>;

    closed spec fn view(&self) -> Map<Seq<char>, V> {
        self.model@
    }
}

impl<V> StrMap<V> {
    /// Keys are distinct, every entry is in the model, and every key of the
    /// model has an entry.
    pub closed spec fn wf(&self) -> bool {
        &&& forall|i: int, j: int|
            0 <= i < j < self.entries@.len() ==> (#[trigger] self.entries@[i]).0@
                != (#[trigger] self.entries@[j]).0@
        &&& forall|i: int|
            0 <= i < self.entries@.len() ==> self.model@.contains_key(
                (#[trigger] self.entries@[i]).0@,
            ) && self.model@[self.entries@[i].0@] == self.entries@[i].1
        &&& forall|k: Seq<char>|
            #[trigger] self.model@.contains_key(k) ==> exists|i: int|
                0 <= i < self.entries@.len() && (#[trigger] self.entries@[i]).0@ == k
    }

    /// The key stored at position `i`.
    pub closed spec fn key_at(&self, i: int) -> Seq<char> {
        self.entries@[i].0@
    }

    /// The number of entries.
    pub closed spec fn spec_len(&self) -> nat {
        self.entries@.len()
    }

    pub fn new() -> (r: Self)
        ensures
            r.wf(),
            r@ == Map::<Seq<char>, V>::empty(),
    {
        StrMap { entries: Vec::new(), model: Ghost(Map::empty()) }
    }

    /// Position of the entry with key `k`, if there is one.
    fn find(&self, k: &str) -> (r: Option<usize>)
        requires
            self.wf(),
        ensures
            match r {
                Some(i) => i < self.entries@.len() && self.entries@[i as int].0@ == k@,
                None => !self@.contains_key(k@),
            },
    {
        let mut i: usize = 0;
        while i < self.entries.len()
            invariant
                self.wf(),
                i <= self.entries@.len(),
                forall|j: int| 0 <= j < i ==> (#[trigger] self.entries@[j]).0@ != k@,
            decreases self.entries@.len() - i,
        {
            if str_eq(self.entries[i].0.as_str(), k) {
                return Some(i);
            }
            i = i + 1;
        }
        None
    }

    pub fn len(&self) -> (r: usize)
        requires
            self.wf(),
        ensures
            r == self@.len(),
    {
        proof {
            self.lemma_len();
        }
        self.entries.len()
    }

    /// The model has exactly as many keys as there are entries.
    proof fn lemma_len(&self)
        requires
            self.wf(),
        ensures
            self@.len() == self.entries@.len(),
            self@.dom().finite(),
    {
        let keys = self.entries@.map_values(|e: (String, V)| e.0@);
        assert(keys.no_duplicates()) by {
            assert forall|i: int, j: int| 0 <= i < keys.len() && 0 <= j < keys.len() && i != j
                implies keys[i] != keys[j] by {
                if i < j {
                    assert(self.entries@[i].0@ != self.entries@[j].0@);
                } else {
                    assert(self.entries@[j].0@ != self.entries@[i].0@);
                }
            }
        }
        assert(keys.to_set() =~= self@.dom()) by {
            assert forall|k: Seq<char>| keys.to_set().contains(k) implies self@.dom().contains(k) by {
                let i = choose|i: int| 0 <= i < keys.len() && keys[i] == k;
                assert(self.entries@[i].0@ == k);
            }
            assert forall|k: Seq<char>| self@.dom().contains(k) implies keys.to_set().contains(k) by {
                let i = choose|i: int| 0 <= i < self.entries@.len() && (#[trigger] self.entries@[i]).0@ == k;
                assert(keys[i] == k);
            }
        }
        keys.unique_seq_to_set();
    }

    pub fn get(&self, k: &str) -> (r: Option<&V>)
        requires
            self.wf(),
        ensures
            match r {
                Some(v) => self@.contains_key(k@) && *v == self@[k@],
                None => !self@.contains_key(k@),
            },
    {
        match self.find(k) {
            Some(i) => Some(&self.entries[i].1),
            None => None,
        }
    }

    pub fn contains_key(&self, k: &str) -> (r: bool)
        requires
            self.wf(),
        ensures
            r == self@.contains_key(k@),
    {
        self.find(k).is_some()
    }

    /// Stores `v` under `k` and hands back the value it replaces.
    pub fn insert(&mut self, k: String, v: V) -> (r: Option<V>)
        requires
            old(self).wf(),
        ensures
            final(self).wf(),
            final(self)@ == old(self)@.insert(k@, v),
            match r {
                Some(p) => old(self)@.contains_key(k@) && p == old(self)@[k@],
                None => !old(self)@.contains_key(k@),
            },
    {
        let ghost key = k@;
        let ghost new_model = self.model@.insert(key, v);
        match self.find(k.as_str()) {
            Some(i) => {
                let (_, prev) = self.entries.remove(i);
                let ghost mid = self.entries@;
                self.entries.insert(i, (k, v));
                self.model = Ghost(new_model);
                assert(self.entries@ == old(self).entries@.update(i as int, self.entries@[i as int]));
                assert forall|k2: Seq<char>| #[trigger] self.model@.contains_key(k2) implies exists|j: int|
                    0 <= j < self.entries@.len() && (#[trigger] self.entries@[j]).0@ == k2 by {
                    if k2 == key {
                        assert(self.entries@[i as int].0@ == k2);
                    } else {
                        let j = choose|j: int| 0 <= j < old(self).entries@.len()
                            && (#[trigger] old(self).entries@[j]).0@ == k2;
                        assert(self.entries@[j].0@ == k2);
                    }
                }
                Some(prev)
            },
            None => {
                self.entries.push((k, v));
                self.model = Ghost(new_model);
                let n = self.entries.len() - 1;
                assert forall|k2: Seq<char>| #[trigger] self.model@.contains_key(k2) implies exists|j: int|
                    0 <= j < self.entries@.len() && (#[trigger] self.entries@[j]).0@ == k2 by {
                    if k2 == key {
                        assert(self.entries@[n as int].0@ == k2);
                    } else {
                        let j = choose|j: int| 0 <= j < old(self).entries@.len()
                            && (#[trigger] old(self).entries@[j]).0@ == k2;
                        assert(self.entries@[j].0@ == k2);
                    }
                }
                None
            },
        }
    }

    /// Removes the entry of `k` and hands back its value.
    pub fn remove(&mut self, k: &str) -> (r: Option<V>)
        requires
            old(self).wf(),
        ensures
            final(self).wf(),
            final(self)@ == old(self)@.remove(k@),
            match r {
                Some(p) => old(self)@.contains_key(k@) && p == old(self)@[k@],
                None => !old(self)@.contains_key(k@),
            },
    {
        match self.find(k) {
            Some(i) => {
                let ghost new_model = self.model@.remove(k@);
                let (_, prev) = self.entries.remove(i);
                self.model = Ghost(new_model);
                assert forall|j: int| 0 <= j < self.entries@.len() implies
                    (#[trigger] self.entries@[j]).0@ != k@ by {
                    if j < i {
                        assert(old(self).entries@[j] == self.entries@[j]);
                    } else {
                        assert(old(self).entries@[j + 1] == self.entries@[j]);
                    }
                }
                assert forall|k2: Seq<char>| #[trigger] self.model@.contains_key(k2) implies exists|j: int|
                    0 <= j < self.entries@.len() && (#[trigger] self.entries@[j]).0@ == k2 by {
                    let j = choose|j: int| 0 <= j < old(self).entries@.len()
                        && (#[trigger] old(self).entries@[j]).0@ == k2;
                    if j < i {
                        assert(self.entries@[j].0@ == k2);
                    } else {
                        assert(j != i);
                        assert(self.entries@[j - 1].0@ == k2);
                    }
                }
                Some(prev)
            },
            None => {
                assert(self.model@.remove(k@) =~= self.model@);
                None
            },
        }
    }

    pub fn clear(&mut self)
        requires
            old(self).wf(),
        ensures
            final(self).wf(),
            final(self)@ == Map::<Seq<char>, V>::empty(),
    {
        self.entries.clear();
        self.model = Ghost(Map::empty());
    }

    /// The entry at position `i`, for walking the map in storage order.
    pub fn entry_at(&self, i: usize) -> (r: (&String, &V))
        requires
            self.wf(),
            i < self.spec_len(),
        ensures
            r.0@ == self.key_at(i as int),
            self@.contains_key(r.0@),
            *r.1 == self@[r.0@],
    {
        let e = &self.entries[i];
        (&e.0, &e.1)
    }

    /// The keys at distinct positions differ, and each key of the map has a
    /// position.
    pub proof fn lemma_positions(&self)
        requires
            self.wf(),
        ensures
            self.spec_len() == self@.len(),
            forall|i: int, j: int|
                0 <= i < j < self.spec_len() ==> self.key_at(i) != self.key_at(j),
            forall|i: int| 0 <= i < self.spec_len() ==> self@.contains_key(#[trigger] self.key_at(i)),
            forall|k: Seq<char>|
                #[trigger] self@.contains_key(k) ==> exists|i: int|
                    0 <= i < self.spec_len() && #[trigger] self.key_at(i) == k,
    {
        self.lemma_len();
        assert forall|k: Seq<char>| #[trigger] self@.contains_key(k) implies exists|i: int|
            0 <= i < self.spec_len() && #[trigger] self.key_at(i) == k by {
            let i = choose|i: int| 0 <= i < self.entries@.len() && (#[trigger] self.entries@[i]).0@ == k;
            assert(self.key_at(i) == k);
        }
    }
}


impl<V: Clone> Clone for StrMap<V> {
    /// A map with the same keys, each value a clone.
    fn clone(&self) -> (r: Self)
        ensures
            self.wf() ==> r.wf(),
            r@.dom() == self@.dom(),
            self.wf() ==> forall|k: Seq<char>| #[trigger] r@.contains_key(k) ==> cloned(self@[k], r@[k]),
    {
        let mut entries: Vec<(String, V)> = Vec::new();
        let mut i: usize = 0;
        while i < self.entries.len()
            invariant
                i <= self.entries@.len(),
                entries@.len() == i,
                forall|j: int| 0 <= j < i ==> (#[trigger] entries@[j]).0@ == self.entries@[j].0@
                    && cloned(self.entries@[j].1, entries@[j].1),
            decreases self.entries@.len() - i,
        {
            let k = self.entries[i].0.clone();
            let v = self.entries[i].1.clone();
            entries.push((k, v));
            i = i + 1;
        }
        let ghost model = Map::new(
            |k: Seq<char>| self.model@.contains_key(k),
            |k: Seq<char>| entries@[choose|j: int| 0 <= j < entries@.len() && entries@[j].0@ == k].1,
        );
        let r = StrMap { entries: entries, model: Ghost(model) };
        proof {
            if self.wf() {
                assert forall|j: int| 0 <= j < r.entries@.len() implies r.model@.contains_key(
                    (#[trigger] r.entries@[j]).0@) && r.model@[r.entries@[j].0@] == r.entries@[j].1 by {
                    let k = r.entries@[j].0@;
                    assert(self.entries@[j].0@ == k);
                    let c = choose|c: int| 0 <= c < entries@.len() && entries@[c].0@ == k;
                    if c != j {
                        if c < j {
                            assert(self.entries@[c].0@ != self.entries@[j].0@);
                        } else {
                            assert(self.entries@[j].0@ != self.entries@[c].0@);
                        }
                    }
                }
                assert forall|a: int, b: int| 0 <= a < b < r.entries@.len() implies
                    (#[trigger] r.entries@[a]).0@ != (#[trigger] r.entries@[b]).0@ by {
                    assert(self.entries@[a].0@ != self.entries@[b].0@);
                }
                assert forall|k: Seq<char>| #[trigger] r.model@.contains_key(k) implies exists|j: int|
                    0 <= j < r.entries@.len() && (#[trigger] r.entries@[j]).0@ == k by {
                    let j = choose|j: int| 0 <= j < self.entries@.len() && (#[trigger] self.entries@[j]).0@ == k;
                    assert(r.entries@[j].0@ == k);
                }
                assert forall|k: Seq<char>| #[trigger] r@.contains_key(k) implies cloned(self@[k], r@[k]) by {
                    let j = choose|j: int| 0 <= j < self.entries@.len() && (#[trigger] self.entries@[j]).0@ == k;
                    assert(r.entries@[j].0@ == k);
                    let c = choose|c: int| 0 <= c < entries@.len() && entries@[c].0@ == k;
                    if c != j {
                        if c < j {
                            assert(self.entries@[c].0@ != self.entries@[j].0@);
                        } else {
                            assert(self.entries@[j].0@ != self.entries@[c].0@);
                        }
                    }
                }
            }
            assert(r@.dom() =~= self@.dom());
        }
        r
    }
}

/// The first position at or after `from` that holds `c`, or the length if
/// there is none.
pub fn find_char(s: &str, c: char, from: usize) -> (r: usize)
    requires
        from <= s@.len(),
    ensures
        from <= r <= s@.len(),
        r < s@.len() ==> s@[r as int] == c,
        forall|j: int| from <= j < r ==> s@[j] != c,
{
    let n = s.unicode_len();
    let mut i = from;
    while i < n
        invariant
            n == s@.len(),
            from <= i <= n,
            forall|j: int| from <= j < i ==> s@[j] != c,
        decreases n - i,
    {
        if s.get_char(i) == c {
            return i;
        }
        i = i + 1;
    }
    i
}

/// Character-wise equality of two strings.
pub fn str_eq(a: &str, b: &str) -> (r: bool)
    ensures
        r == (a@ == b@),
{
    let n = a.unicode_len();
    if n != b.unicode_len() {
        return false;
    }
    let mut i: usize = 0;
    while i < n
        invariant
            n == a@.len(),
            n == b@.len(),
            i <= n,
            forall|j: int| 0 <= j < i ==> a@[j] == b@[j],
        decreases n - i,
    {
        if a.get_char(i) != b.get_char(i) {
            return false;
        }
        i = i + 1;
    }
    assert(a@ =~= b@);
    true
}

} // verus!
