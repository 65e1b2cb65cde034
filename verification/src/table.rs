//! A keyed table: the ledger's stand-in for one map of an atomic key-value
//! store. Keys are told apart by their views; nothing occurs twice.

use vstd::prelude::*;

verus! {

/// A type that can key a table: two values are the same key exactly when their
/// views are equal.
pub trait Key: View + Sized {
    fn same(&self, other: &Self) -> (r: bool)
        ensures
            r == (self@ == other@),
    ;
}

impl Key for u16 {
    fn same(&self, other: &u16) -> (r: bool) {
        *self == *other
    }
}

impl Key for u64 {
    fn same(&self, other: &u64) -> (r: bool) {
        *self == *other
    }
}

impl Key for Vec<u8> {
    fn same(&self, other: &Vec<u8>) -> (r: bool) {
        if self.len() != other.len() {
            return false;
        }
        let mut i: usize = 0;
        while i < self.len()
            invariant
                i <= self.len(),
                self.len() == other.len(),
                forall|j: int| 0 <= j < i ==> self@[j] == other@[j],
            decreases self.len() - i,
        {
            if self[i] != other[i] {
                return false;
            }
            i += 1;
        }
        assert(self@ =~= other@);
        true
    }
}

impl<A: Key, B: Key> Key for (A, B) {
    fn same(&self, other: &(A, B)) -> (r: bool) {
        self.0.same(&other.0) && self.1.same(&other.1)
    }
}

impl<A: Key, B: Key, C: Key> Key for (A, B, C) {
    fn same(&self, other: &(A, B, C)) -> (r: bool) {
        self.0.same(&other.0) && self.1.same(&other.1) && self.2.same(&other.2)
    }
}

/// Byte-wise comparison of two arrays of the same width.
pub fn array_eq<const N: usize>(a: &[u8; N], b: &[u8; N]) -> (r: bool)
    ensures
        r == (*a == *b),
{
    let mut i: usize = 0;
    while i < N
        invariant
            i <= N,
            forall|j: int| 0 <= j < i ==> a[j] == b[j],
        decreases N - i,
    {
        if a[i] != b[i] {
            return false;
        }
        i += 1;
    }
    assert(*a =~= *b);
    true
}

/// A finite map from keys to values, held as a list of entries.
#[derive(Clone, Debug, PartialEq)]
pub struct Table<K: Key, V: View> {
    entries: Vec<(K, V)>,
}

impl<K: Key, V: View> View for Table<K, V> {
    type V = Map<K::V, V::V>;

    closed spec fn view(&self) -> Map<K::V, V::V> {
        Map::new(
            |k: K::V| self.has(k),
            |k: K::V| self.entries@[self.slot(k)].1@,
        )
    }
}

impl<K: Key, V: View> Table<K, V> {
    /// The views of the keys, in the order of the entries.
    pub closed spec fn keys(&self) -> Seq<K::V> {
        Seq::new(self.entries@.len(), |i: int| self.entries@[i].0@)
    }

    spec fn has(&self, k: K::V) -> bool {
        exists|i: int| 0 <= i < self.entries@.len() && #[trigger] self.entries@[i].0@ == k
    }

    spec fn slot(&self, k: K::V) -> int {
        choose|i: int| 0 <= i < self.entries@.len() && #[trigger] self.entries@[i].0@ == k
    }

    /// No key occurs twice.
    pub closed spec fn wf(&self) -> bool {
        forall|i: int, j: int|
            0 <= i < j < self.entries@.len() ==> #[trigger] self.entries@[i].0@
                != #[trigger] self.entries@[j].0@
    }

    proof fn lemma_slot(&self, i: int)
        requires
            self.wf(),
            0 <= i < self.entries@.len(),
        ensures
            self.has(self.entries@[i].0@),
            self.slot(self.entries@[i].0@) == i,
            self@.contains_key(self.entries@[i].0@),
            self@[self.entries@[i].0@] == self.entries@[i].1@,
    {
        let k = self.entries@[i].0@;
        assert(self.has(k));
        let j = self.slot(k);
        if j < i {
            assert(self.entries@[j].0@ != self.entries@[i].0@);
        } else if i < j {
            assert(self.entries@[i].0@ != self.entries@[j].0@);
        }
    }

    /// The empty table.
    pub fn new() -> (r: Self)
        ensures
            r.wf(),
            r@ == Map::<K::V, V::V>::empty(),
    {
        let r = Table { entries: Vec::new() };
        assert(r@ =~= Map::<K::V, V::V>::empty());
        r
    }

    fn find(&self, k: &K) -> (r: Option<usize>)
        requires
            self.wf(),
        ensures
            match r {
                Some(i) => i < self.entries@.len() && self.entries@[i as int].0@ == k@,
                None => !self.has(k@),
            },
    {
        let mut i: usize = 0;
        while i < self.entries.len()
            invariant
                i <= self.entries@.len(),
                forall|j: int| 0 <= j < i ==> self.entries@[j].0@ != k@,
            decreases self.entries@.len() - i,
        {
            if self.entries[i].0.same(k) {
                return Some(i);
            }
            i += 1;
        }
        None
    }

    /// Whether the table has an entry under `k`.
    pub fn contains_key(&self, k: &K) -> (r: bool)
        requires
            self.wf(),
        ensures
            r == self@.contains_key(k@),
    {
        match self.find(k) {
            Some(i) => {
                proof {
                    self.lemma_slot(i as int);
                }
                true
            },
            None => false,
        }
    }

    /// The value under `k`, if there is one.
    pub fn get(&self, k: &K) -> (r: Option<&V>)
        requires
            self.wf(),
        ensures
            match r {
                Some(v) => self@.contains_key(k@) && v@ == self@[k@],
                None => !self@.contains_key(k@),
            },
    {
        match self.find(k) {
            Some(i) => {
                proof {
                    self.lemma_slot(i as int);
                }
                Some(&self.entries[i].1)
            },
            None => None,
        }
    }

    /// Puts `v` under `k`, in place of what was there.
    pub fn insert(&mut self, k: K, v: V)
        requires
            old(self).wf(),
        ensures
            final(self).wf(),
            final(self)@ == old(self)@.insert(k@, v@),
    {
        let ghost kv = k@;
        let ghost vv = v@;
        match self.find(&k) {
            Some(i) => {
                self.entries.set(i, (k, v));
                proof {
                    assert(self.wf());
                    assert forall|q: K::V| self.has(q) == old(self).has(q) by {
                        if self.has(q) {
                            let j = self.slot(q);
                            assert(old(self).entries@[j].0@ == q);
                        }
                        if old(self).has(q) {
                            let j = old(self).slot(q);
                            assert(self.entries@[j].0@ == q);
                        }
                    }
                    assert forall|q: K::V| self.has(q) implies #[trigger] self@[q] == old(
                        self,
                    )@.insert(kv, vv)[q] by {
                        let j = self.slot(q);
                        self.lemma_slot(j);
                        old(self).lemma_slot(j);
                    }
                    old(self).lemma_slot(i as int);
                    assert(self@ =~= old(self)@.insert(kv, vv));
                }
            },
            None => {
                self.entries.push((k, v));
                proof {
                    let n = old(self).entries@.len() as int;
                    assert(self.wf()) by {
                        assert forall|a: int, b: int| 0 <= a < b < self.entries@.len() implies (
                        #[trigger] self.entries@[a].0@) != (#[trigger] self.entries@[b].0@) by {
                            if b == n {
                                assert(old(self).entries@[a].0@ != kv);
                            }
                        }
                    }
                    assert forall|q: K::V| self.has(q) == (old(self).has(q) || q == kv) by {
                        if self.has(q) {
                            let j = self.slot(q);
                            if j < n {
                                assert(old(self).entries@[j].0@ == q);
                            }
                        }
                        if old(self).has(q) {
                            let j = old(self).slot(q);
                            assert(self.entries@[j].0@ == q);
                        }
                        if q == kv {
                            assert(self.entries@[n].0@ == q);
                        }
                    }
                    assert forall|q: K::V| self.has(q) implies #[trigger] self@[q] == old(
                        self,
                    )@.insert(kv, vv)[q] by {
                        let j = self.slot(q);
                        self.lemma_slot(j);
                        if j < n {
                            old(self).lemma_slot(j);
                        }
                    }
                    assert(self@ =~= old(self)@.insert(kv, vv));
                }
            },
        }
    }

    /// Takes the entry under `k` out of the table.
    pub fn remove(&mut self, k: &K) -> (r: Option<V>)
        requires
            old(self).wf(),
        ensures
            final(self).wf(),
            final(self)@ == old(self)@.remove(k@),
            match r {
                Some(v) => old(self)@.contains_key(k@) && v@ == old(self)@[k@],
                None => !old(self)@.contains_key(k@),
            },
    {
        match self.find(k) {
            Some(i) => {
                let e = self.entries.remove(i);
                proof {
                    let n = i as int;
                    old(self).lemma_slot(n);
                    assert(self.wf()) by {
                        assert forall|a: int, b: int| 0 <= a < b < self.entries@.len() implies (
                        #[trigger] self.entries@[a].0@) != (#[trigger] self.entries@[b].0@) by {
                            let a0 = if a < n { a } else { a + 1 };
                            let b0 = if b < n { b } else { b + 1 };
                            assert(old(self).entries@[a0].0@ != old(self).entries@[b0].0@);
                        }
                    }
                    assert forall|q: K::V| self.has(q) == (old(self).has(q) && q != k@) by {
                        if self.has(q) {
                            let j = self.slot(q);
                            let j0 = if j < n { j } else { j + 1 };
                            assert(old(self).entries@[j0].0@ == q);
                            old(self).lemma_slot(j0);
                        }
                        if old(self).has(q) && q != k@ {
                            let j = old(self).slot(q);
                            let j1 = if j < n { j } else { j - 1 };
                            assert(self.entries@[j1].0@ == q);
                        }
                    }
                    assert forall|q: K::V| self.has(q) implies #[trigger] self@[q] == old(
                        self,
                    )@[q] by {
                        let j = self.slot(q);
                        let j0 = if j < n { j } else { j + 1 };
                        self.lemma_slot(j);
                        old(self).lemma_slot(j0);
                    }
                    assert(self@ =~= old(self)@.remove(k@));
                }
                Some(e.1)
            },
            None => {
                assert(self@ =~= old(self)@.remove(k@));
                None
            },
        }
    }
}

} // verus!
