use vstd::prelude::*;

use crate::clock::now_millis;
use crate::str_map::StrMap;

verus! {

/// Milliseconds between `stamp` and `now`; a stamp from the future has age 0.
pub open spec fn age(stamp: u64, now: u64) -> int {
    if now >= stamp {
        now - stamp
    } else {
        0
    }
}

/// Whether an entry stamped at `stamp` (milliseconds) is still fresh at `now`
/// under a window of `window` seconds; a window of 0 never expires.
pub open spec fn fresh(window: u64, stamp: u64, now: u64) -> bool {
    window == 0 || age(stamp, now) <= window * 1000
}

/// A map from string keys to values, each stamped with the time it was
/// inserted, read through a single freshness window. Stale entries are treated
/// as absent by reads but stay until they are removed or overwritten.
pub struct HashCache<T> {
    cache: StrMap<(T, u64)>,
    duration: u64,
}

impl<T> HashCache<T> {
    pub closed spec fn wf(&self) -> bool {
        self.cache.wf()
    }

    /// Every entry: its value and the millisecond it was inserted.
    pub closed spec fn entries(&self) -> Map<Seq<char>, (T, u64)> {
        self.cache@
    }

    /// The freshness window in seconds.
    pub closed spec fn window(&self) -> u64 {
        self.duration
    }

    /// Whether `key` holds an entry that is fresh at `now`.
    pub open spec fn live_at(&self, key: Seq<char>, now: u64) -> bool {
        self.entries().contains_key(key) && fresh(self.window(), self.entries()[key].1, now)
    }

    /// The keys whose entries are fresh at `now`.
    pub open spec fn live_keys(&self, now: u64) -> Set<Seq<char>> {
        Set::new(|k: Seq<char>| self.live_at(k, now))
    }

    /// An empty cache whose entries stay fresh for `duration` seconds
    /// (0: until they are removed).
    pub fn new(duration: u64) -> (r: Self)
        ensures
            r.wf(),
            r.entries() == Map::<Seq<char>, (T, u64)>::empty(),
            r.window() == duration,
    {
        HashCache { cache: StrMap::new(), duration: duration }
    }

    fn ignore_dur(&self) -> (r: bool)
        ensures
            r == (self.window() == 0),
    {
        self.duration == 0
    }

    fn is_fresh(&self, stamp: u64, now: u64) -> (r: bool)
        ensures
            r == fresh(self.window(), stamp, now),
    {
        self.ignore_dur() || (now.saturating_sub(stamp) as u128) <= (self.duration as u128) * 1000
    }

    /// Stores a clone of `val` under `key`, stamped `now`, and hands back the
    /// value it replaces, fresh or not.
    pub fn insert_at(&mut self, key: &str, val: &T, now: u64) -> (r: Option<T>)
        where
            T: Clone,
        requires
            old(self).wf(),
        ensures
            final(self).wf(),
            final(self).window() == old(self).window(),
            final(self).entries().dom() == old(self).entries().dom().insert(key@),
            forall|k: Seq<char>|
                k != key@ && #[trigger] old(self).entries().contains_key(k) ==> final(self).entries()[k]
                    == old(self).entries()[k],
            cloned(*val, final(self).entries()[key@].0),
            final(self).entries()[key@].1 == now,
            match r {
                Some(p) => old(self).entries().contains_key(key@) && p == old(self).entries()[key@].0,
                None => !old(self).entries().contains_key(key@),
            },
    {
        let v = val.clone();
        match self.cache.insert(key.to_owned(), (v, now)) {
            Some((p, _)) => Some(p),
            None => None,
        }
    }

    /// Stores a clone of `val` under `key`, stamped with the clock.
    pub fn insert(&mut self, key: &str, val: &T) -> (r: Option<T>)
        where
            T: Clone,
        requires
            old(self).wf(),
        ensures
            final(self).wf(),
            final(self).window() == old(self).window(),
            final(self).entries().dom() == old(self).entries().dom().insert(key@),
            forall|k: Seq<char>|
                k != key@ && #[trigger] old(self).entries().contains_key(k) ==> final(self).entries()[k]
                    == old(self).entries()[k],
            cloned(*val, final(self).entries()[key@].0),
            match r {
                Some(p) => old(self).entries().contains_key(key@) && p == old(self).entries()[key@].0,
                None => !old(self).entries().contains_key(key@),
            },
    {
        let now = now_millis();
        self.insert_at(key, val, now)
    }

    /// A clone of the value under `key` if its entry is fresh at `now`.
    pub fn get_at(&self, key: &str, now: u64) -> (r: Option<T>)
        where
            T: Clone,
        requires
            self.wf(),
        ensures
            match r {
                Some(v) => self.live_at(key@, now) && cloned(self.entries()[key@].0, v),
                None => !self.live_at(key@, now),
            },
    {
        match self.cache.get(key) {
            Some(entry) => {
                if self.is_fresh(entry.1, now) {
                    Some(entry.0.clone())
                } else {
                    None
                }
            },
            None => None,
        }
    }

    /// A clone of the value under `key` if its entry is fresh by the clock.
    pub fn get(&self, key: &str) -> (r: Option<T>)
        where
            T: Clone,
        requires
            self.wf(),
        ensures
            match r {
                Some(v) => self.entries().contains_key(key@) && cloned(self.entries()[key@].0, v),
                None => true,
            },
            !self.entries().contains_key(key@) ==> r is None,
            exists|t: u64| (r is Some <==> #[trigger] self.live_at(key@, t)),
            self.window() == 0 ==> (r is Some <==> self.entries().contains_key(key@)),
    {
        let now = now_millis();
        let r = self.get_at(key, now);
        assert(r is Some <==> self.live_at(key@, now));
        r
    }

    /// Clones of all the values whose entries are fresh at `now`.
    pub fn get_all_at(&self, now: u64) -> (r: StrMap<T>)
        where
            T: Clone,
        requires
            self.wf(),
        ensures
            r.wf(),
            forall|k: Seq<char>| #[trigger] r@.contains_key(k) <==> self.live_at(k, now),
            forall|k: Seq<char>|
                #[trigger] r@.contains_key(k) ==> cloned(self.entries()[k].0, r@[k]),
    {
        let mut res: StrMap<T> = StrMap::new();
        let n = self.cache.len();
        proof {
            self.cache.lemma_positions();
        }
        let mut i: usize = 0;
        while i < n
            invariant
                self.wf(),
                n == self.cache.spec_len(),
                i <= n,
                res.wf(),
                forall|k: Seq<char>|
                    #[trigger] res@.contains_key(k) ==> self.live_at(k, now) && cloned(
                        self.entries()[k].0,
                        res@[k],
                    ) && exists|j: int| 0 <= j < i && self.cache.key_at(j) == k,
                forall|j: int|
                    0 <= j < i && self.live_at(#[trigger] self.cache.key_at(j), now)
                        ==> res@.contains_key(self.cache.key_at(j)),
            decreases n - i,
        {
            let (k, entry) = self.cache.entry_at(i);
            if self.is_fresh(entry.1, now) {
                let v = entry.0.clone();
                res.insert(k.clone(), v);
            }
            proof {
                self.cache.lemma_positions();
            }
            i = i + 1;
        }
        proof {
            self.cache.lemma_positions();
            assert forall|k: Seq<char>| self.live_at(k, now) implies #[trigger] res@.contains_key(k) by {
                let j = choose|j: int| 0 <= j < self.cache.spec_len() && #[trigger] self.cache.key_at(j) == k;
            }
        }
        res
    }

    /// Clones of all the values whose entries are fresh by the clock.
    pub fn get_all(&self) -> (r: StrMap<T>)
        where
            T: Clone,
        requires
            self.wf(),
        ensures
            r.wf(),
            forall|k: Seq<char>| #[trigger] r@.contains_key(k) ==> self.entries().contains_key(k)
                && cloned(self.entries()[k].0, r@[k]),
            exists|t: u64| r@.dom() == #[trigger] self.live_keys(t),
            self.window() == 0 ==> r@.dom() == self.entries().dom(),
    {
        let now = now_millis();
        let r = self.get_all_at(now);
        assert(r@.dom() =~= self.live_keys(now));
        assert(self.window() == 0 ==> r@.dom() =~= self.entries().dom());
        r
    }

    /// Removes the entry of `key` and hands back its value, fresh or not.
    pub fn remove(&mut self, key: &str) -> (r: Option<T>)
        requires
            old(self).wf(),
        ensures
            final(self).wf(),
            final(self).window() == old(self).window(),
            final(self).entries() == old(self).entries().remove(key@),
            match r {
                Some(p) => old(self).entries().contains_key(key@) && p == old(self).entries()[key@].0,
                None => !old(self).entries().contains_key(key@),
            },
    {
        match self.cache.remove(key) {
            Some((p, _)) => Some(p),
            None => None,
        }
    }

    /// Removes every entry.
    pub fn clear(&mut self)
        requires
            old(self).wf(),
        ensures
            final(self).wf(),
            final(self).window() == old(self).window(),
            final(self).entries() == Map::<Seq<char>, (T, u64)>::empty(),
    {
        self.cache.clear();
    }
}

} // verus!
