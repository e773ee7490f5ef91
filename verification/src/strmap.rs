//! A map keyed by strings, kept as two parallel vectors in insertion order.

use vstd::prelude::*;
use crate::text::{owned, str_eq, views};

verus! {

/// A finite map from strings to values; keys keep their insertion order.
pub struct StrMap<V> {
    keys: Vec<String>,
    vals: Vec<V>,
}

/// The position of `k` among `ks` (meaningful when it occurs).
pub open spec fn key_pos(ks: Seq<Seq<char>>, k: Seq<char>) -> int {
    choose|i: int| 0 <= i < ks.len() && #[trigger] ks[i] == k
}

impl<V> StrMap<V> {
    /// The keys in order.
    pub closed spec fn key_seq(&self) -> Seq<Seq<char>> {
        views(self.keys@)
    }

    /// The values in key order.
    pub closed spec fn val_seq(&self) -> Seq<V> {
        self.vals@
    }

    /// Keys are distinct and each has a value.
    pub closed spec fn wf(&self) -> bool {
        &&& self.keys@.len() == self.vals@.len()
        &&& self.key_seq().no_duplicates()
    }

    /// The map that the two vectors stand for.
    pub open spec fn map(&self) -> Map<Seq<char>, V> {
        Map::new(
            |k: Seq<char>| self.key_seq().contains(k),
            |k: Seq<char>| self.val_seq()[key_pos(self.key_seq(), k)],
        )
    }

    proof fn lemma_pos(&self, i: int)
        requires
            self.wf(),
            0 <= i < self.key_seq().len(),
        ensures
            key_pos(self.key_seq(), self.key_seq()[i]) == i,
            self.map().contains_key(self.key_seq()[i]),
            self.map()[self.key_seq()[i]] == self.val_seq()[i],
    {
        let ks = self.key_seq();
        assert(ks[i] == ks[i]);
        let p = key_pos(ks, ks[i]);
        if p != i {
            assert(ks[p] == ks[i]);
        }
    }

    /// The key at a position is in the map, with the value at that position.
    pub proof fn lemma_key_in_map(&self, i: int)
        requires
            self.wf(),
            0 <= i < self.key_seq().len(),
        ensures
            self.map().contains_key(self.key_seq()[i]),
            self.map()[self.key_seq()[i]] == self.val_seq()[i],
    {
        self.lemma_pos(i);
    }

    /// In a well-formed map no key is stored twice.
    pub proof fn lemma_keys_distinct(&self)
        requires
            self.wf(),
        ensures
            self.key_seq().no_duplicates(),
    {
    }

    /// The number of entries.
    pub open spec fn size(&self) -> nat {
        self.key_seq().len()
    }

    /// An empty map.
    pub fn new() -> (m: Self)
        ensures
            m.wf(),
            m.map() == Map::<Seq<char>, V>::empty(),
            m.size() == 0,
    {
        let m = StrMap { keys: Vec::new(), vals: Vec::new() };
        proof {
            assert(m.key_seq() =~= Seq::<Seq<char>>::empty());
            assert(m.map() =~= Map::<Seq<char>, V>::empty());
        }
        m
    }

    /// The number of entries.
    pub fn len(&self) -> (n: usize)
        requires
            self.wf(),
        ensures
            n == self.size(),
            n == self.map().dom().len(),
    {
        proof {
            self.key_seq().unique_seq_to_set();
            assert(self.map().dom() =~= self.key_seq().to_set());
        }
        self.keys.len()
    }

    /// The `i`-th key.
    pub fn key_at(&self, i: usize) -> (k: &String)
        requires
            self.wf(),
            i < self.size(),
        ensures
            k@ == self.key_seq()[i as int],
    {
        &self.keys[i]
    }

    /// The `i`-th value.
    pub fn value_at(&self, i: usize) -> (v: &V)
        requires
            self.wf(),
            i < self.size(),
        ensures
            *v == self.val_seq()[i as int],
            *v == self.map()[self.key_seq()[i as int]],
            self.map().contains_key(self.key_seq()[i as int]),
    {
        proof {
            self.lemma_pos(i as int);
        }
        &self.vals[i]
    }

    /// Where `k` is stored, if it is.
    pub fn position(&self, k: &str) -> (r: Option<usize>)
        requires
            self.wf(),
        ensures
            match r {
                Some(i) => i < self.size() && self.key_seq()[i as int] == k@ && self.map().contains_key(k@)
                    && self.map()[k@] == self.val_seq()[i as int],
                None => !self.map().contains_key(k@),
            },
    {
        let mut i: usize = 0;
        while i < self.keys.len()
            invariant
                self.wf(),
                i <= self.keys@.len(),
                forall|j: int| 0 <= j < i ==> #[trigger] self.key_seq()[j] != k@,
            decreases self.keys@.len() - i,
        {
            if str_eq(self.keys[i].as_str(), k) {
                proof {
                    assert(self.key_seq()[i as int] == k@);
                    self.lemma_pos(i as int);
                }
                return Some(i);
            }
            proof {
                assert(self.key_seq()[i as int] == self.keys@[i as int]@);
            }
            i = i + 1;
        }
        proof {
            if self.key_seq().contains(k@) {
                let j = choose|j: int| 0 <= j < self.key_seq().len() && #[trigger] self.key_seq()[j] == k@;
                assert(self.key_seq()[j] != k@);
            }
        }
        None
    }

    /// Whether `k` has an entry.
    pub fn contains_key(&self, k: &str) -> (r: bool)
        requires
            self.wf(),
        ensures
            r == self.map().contains_key(k@),
    {
        self.position(k).is_some()
    }

    /// The value stored for `k`.
    pub fn get(&self, k: &str) -> (r: Option<&V>)
        requires
            self.wf(),
        ensures
            match r {
                Some(v) => self.map().contains_key(k@) && *v == self.map()[k@],
                None => !self.map().contains_key(k@),
            },
    {
        match self.position(k) {
            Some(i) => Some(&self.vals[i]),
            None => None,
        }
    }

    /// Sets the value for `k`, keeping its place when it is already present
    /// and appending it otherwise.
    pub fn insert(&mut self, k: &str, v: V)
        requires
            old(self).wf(),
        ensures
            final(self).wf(),
            final(self).map() == old(self).map().insert(k@, v),
            old(self).map().contains_key(k@) ==> final(self).key_seq() == old(self).key_seq(),
            !old(self).map().contains_key(k@) ==> final(self).key_seq() == old(self).key_seq().push(k@),
    {
        let ghost m0 = self.map();
        let ghost ks0 = self.key_seq();
        match self.position(k) {
            Some(i) => {
                self.vals.set(i, v);
                proof {
                    assert(self.key_seq() == ks0);
                    assert forall|x: Seq<char>| #[trigger] self.map().contains_key(x) == m0.insert(k@, v).contains_key(x) by {}
                    assert forall|x: Seq<char>| self.map().contains_key(x) implies #[trigger] self.map()[x] == m0.insert(k@, v)[x] by {
                        let p = key_pos(ks0, x);
                        assert(0 <= p < ks0.len() && ks0[p] == x);
                        self.lemma_pos(p);
                        if x != k@ {
                            assert(p != i);
                        } else {
                            assert(p == i);
                        }
                    }
                    assert(self.map() =~= m0.insert(k@, v));
                }
            },
            None => {
                self.keys.push(owned(k));
                self.vals.push(v);
                proof {
                    assert(self.key_seq() =~= ks0.push(k@));
                    assert forall|x: Seq<char>| #[trigger] self.map().contains_key(x) == m0.insert(k@, v).contains_key(x) by {
                        if ks0.contains(x) {
                            let p = choose|p: int| 0 <= p < ks0.len() && #[trigger] ks0[p] == x;
                            assert(self.key_seq()[p] == x);
                        }
                        if x == k@ {
                            assert(self.key_seq()[ks0.len() as int] == x);
                        }
                        if self.key_seq().contains(x) {
                            let p = choose|p: int| 0 <= p < self.key_seq().len() && #[trigger] self.key_seq()[p] == x;
                            if p < ks0.len() {
                                assert(ks0[p] == x);
                            }
                        }
                    }
                    assert forall|x: Seq<char>| self.map().contains_key(x) implies #[trigger] self.map()[x] == m0.insert(k@, v)[x] by {
                        let p = key_pos(self.key_seq(), x);
                        assert(0 <= p < self.key_seq().len() && self.key_seq()[p] == x);
                        self.lemma_pos(p);
                        if p < ks0.len() {
                            assert(ks0[p] == x);
                            assert(x != k@);
                        }
                    }
                    assert(self.map() =~= m0.insert(k@, v));
                }
            },
        }
    }

    /// Removes the entry for `k`, giving back its value.
    pub fn remove(&mut self, k: &str) -> (r: Option<V>)
        requires
            old(self).wf(),
        ensures
            final(self).wf(),
            final(self).map() == old(self).map().remove(k@),
            match r {
                Some(v) => old(self).map().contains_key(k@) && v == old(self).map()[k@],
                None => !old(self).map().contains_key(k@),
            },
            forall|x: Seq<char>| #[trigger] final(self).key_seq().contains(x) ==> old(self).key_seq().contains(x),
    {
        let ghost m0 = self.map();
        let ghost ks0 = self.key_seq();
        match self.position(k) {
            None => {
                proof {
                    assert(self.map() =~= m0.remove(k@));
                }
                None
            },
            Some(i) => {
                let ghost vs0 = self.val_seq();
                let _key = self.keys.remove(i);
                let v = self.vals.remove(i);
                proof {
                    assert(self.key_seq() =~= ks0.remove(i as int));
                    assert(self.val_seq() =~= vs0.remove(i as int));
                    let ks = self.key_seq();
                    assert forall|a: int, b: int| 0 <= a < ks.len() && 0 <= b < ks.len() && a != b implies
                        ks[a] != ks[b] by {
                        let a0 = if a < i { a } else { a + 1 };
                        let b0 = if b < i { b } else { b + 1 };
                        assert(ks[a] == ks0[a0]);
                        assert(ks[b] == ks0[b0]);
                    }
                    assert forall|x: Seq<char>| #[trigger] self.map().contains_key(x) == m0.remove(k@).contains_key(x) by {
                        if ks.contains(x) {
                            let p = choose|p: int| 0 <= p < ks.len() && #[trigger] ks[p] == x;
                            let p0 = if p < i { p } else { p + 1 };
                            assert(ks0[p0] == x);
                            assert(p0 != i);
                        }
                        if m0.remove(k@).contains_key(x) {
                            let p0 = choose|p: int| 0 <= p < ks0.len() && #[trigger] ks0[p] == x;
                            assert(p0 != i);
                            let p = if p0 < i { p0 } else { p0 - 1 };
                            assert(ks[p] == x);
                        }
                    }
                    assert forall|x: Seq<char>| self.map().contains_key(x) implies #[trigger] self.map()[x] == m0.remove(k@)[x] by {
                        let p = key_pos(ks, x);
                        assert(0 <= p < ks.len() && ks[p] == x);
                        self.lemma_pos(p);
                        let p0 = if p < i { p } else { p + 1 };
                        assert(ks0[p0] == x);
                        assert(vs0[p0] == self.val_seq()[p]);
                        let q = key_pos(ks0, x);
                        assert(0 <= q < ks0.len() && ks0[q] == x);
                        assert(q == p0);
                    }
                    assert(self.map() =~= m0.remove(k@));
                    assert forall|x: Seq<char>| #[trigger] ks.contains(x) implies ks0.contains(x) by {
                        let p = choose|p: int| 0 <= p < ks.len() && #[trigger] ks[p] == x;
                        let p0 = if p < i { p } else { p + 1 };
                        assert(ks0[p0] == x);
                    }
                }
                Some(v)
            },
        }
    }
}


/// The entries of a map whose value is at least `cutoff`.
pub open spec fn at_least(m: Map<Seq<char>, u64>, cutoff: u64) -> Map<Seq<char>, u64> {
    Map::new(|k: Seq<char>| m.contains_key(k) && m[k] >= cutoff, |k: Seq<char>| m[k])
}

impl StrMap<u64> {
    /// Keeps the entries whose value is at least `cutoff`.
    pub fn retain_at_least(&mut self, cutoff: u64)
        requires
            old(self).wf(),
        ensures
            final(self).wf(),
            final(self).map() == at_least(old(self).map(), cutoff),
    {
        let ghost m0 = self.map();
        let ghost ks = self.key_seq();
        let mut kept: StrMap<u64> = StrMap::new();
        let mut i: usize = 0;
        let n = self.len();
        while i < n
            invariant
                self.wf(),
                self.map() == m0,
                self.key_seq() == ks,
                n == ks.len(),
                i <= n,
                kept.wf(),
                kept.map() == Map::new(|k: Seq<char>| ks.take(i as int).contains(k) && m0[k] >= cutoff, |k: Seq<char>| m0[k]),
            decreases n - i,
        {
            let v = *self.value_at(i);
            let k = self.key_at(i);
            proof {
                self.lemma_pos(i as int);
                assert(ks.take(i + 1) =~= ks.take(i as int).push(ks[i as int]));
                assert(!ks.take(i as int).contains(ks[i as int])) by {
                    if ks.take(i as int).contains(ks[i as int]) {
                        let j = choose|j: int| 0 <= j < i && #[trigger] ks.take(i as int)[j] == ks[i as int];
                        assert(ks[j] == ks[i as int]);
                    }
                }
            }
            let ghost kept0 = kept.map();
            if v >= cutoff {
                kept.insert(k.as_str(), v);
            }
            proof {
                assert forall|x: Seq<char>| ks.take(i + 1).contains(x) == (ks.take(i as int).contains(x) || x == ks[i as int]) by {
                    if ks.take(i + 1).contains(x) {
                        let j = choose|j: int| 0 <= j < i + 1 && #[trigger] ks.take(i + 1)[j] == x;
                        if j < i {
                            assert(ks.take(i as int)[j] == x);
                        }
                    }
                    if ks.take(i as int).contains(x) {
                        let j = choose|j: int| 0 <= j < i && #[trigger] ks.take(i as int)[j] == x;
                        assert(ks.take(i + 1)[j] == x);
                    }
                    if x == ks[i as int] {
                        assert(ks.take(i + 1)[i as int] == x);
                    }
                }
                assert(v == m0[ks[i as int]]);
                assert(k@ == ks[i as int]);
                assert(kept.map() =~= Map::new(|x: Seq<char>| ks.take(i + 1).contains(x) && m0[x] >= cutoff, |x: Seq<char>| m0[x]));
            }
            i = i + 1;
        }
        proof {
            assert(ks.take(n as int) =~= ks);
            assert forall|x: Seq<char>| ks.contains(x) == m0.contains_key(x) by {}
            assert(kept.map() =~= at_least(m0, cutoff));
        }
        *self = kept;
    }
}

} // verus!
