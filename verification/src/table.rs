//! Small in-memory tables keyed by strings: a list of entries with
//! distinct keys, seen as a finite map.

use vstd::prelude::*;
use crate::text::str_eq;
use crate::ordering::views;

verus! {

/// A key that a table can compare at run time, with the model it is
/// compared by.
pub trait TableKey: Sized {
    type Model;

    spec fn model(&self) -> Self::Model;

    fn same_key(&self, other: &Self) -> (r: bool)
        ensures
            r == (self.model() == other.model()),
    ;
}

impl TableKey for String {
    type Model = Seq<char>;

    open spec fn model(&self) -> Seq<char> {
        self@
    }

    fn same_key(&self, other: &Self) -> (r: bool) {
        str_eq(self.as_str(), other.as_str())
    }
}

/// Entries with distinct keys.
pub struct Table<K, V> {
    entries: Vec<(K, V)>,
}

impl<K: TableKey, V> Table<K, V> {
    pub closed spec fn key_at(self, i: int) -> K::Model {
        self.entries@[i].0.model()
    }

    pub closed spec fn has_key(self, k: K::Model) -> bool {
        exists|i: int| 0 <= i < self.entries@.len() && #[trigger] self.key_at(i) == k
    }

    pub closed spec fn index_of(self, k: K::Model) -> int {
        choose|i: int| 0 <= i < self.entries@.len() && #[trigger] self.key_at(i) == k
    }

    /// No key occurs twice.
    pub closed spec fn wf(self) -> bool {
        forall|i: int, j: int|
            0 <= i < j < self.entries@.len() ==> #[trigger] self.key_at(i) != #[trigger] self.key_at(
                j,
            )
    }

    /// The table as a map from keys to values.
    pub closed spec fn view(self) -> Map<K::Model, V> {
        Map::new(|k: K::Model| self.has_key(k), |k: K::Model| self.entries@[self.index_of(k)].1)
    }

    proof fn lemma_lookup(self, i: int)
        requires
            self.wf(),
            0 <= i < self.entries@.len(),
        ensures
            self.view().contains_key(self.key_at(i)),
            self.view()[self.key_at(i)] == self.entries@[i].1,
    {
        let k = self.key_at(i);
        assert(self.has_key(k));
        let j = self.index_of(k);
        assert(self.key_at(j) == k);
        if i != j {
            if i < j {
                assert(self.key_at(i) != self.key_at(j));
            } else {
                assert(self.key_at(j) != self.key_at(i));
            }
        }
    }

    pub fn new() -> (t: Self)
        ensures
            t.wf(),
            t.view() == Map::<K::Model, V>::empty(),
    {
        let t = Table { entries: Vec::new() };
        assert(t.view() =~= Map::<K::Model, V>::empty());
        t
    }

    /// The position of a key, or the number of entries when it is absent.
    fn find(&self, k: &K) -> (i: usize)
        requires
            self.wf(),
        ensures
            i <= self.entries@.len(),
            i < self.entries@.len() ==> self.key_at(i as int) == k.model(),
            i == self.entries@.len() ==> !self.has_key(k.model()),
    {
        let mut i: usize = 0;
        while i < self.entries.len()
            invariant
                i <= self.entries@.len(),
                forall|j: int| 0 <= j < i ==> #[trigger] self.key_at(j) != k.model(),
            decreases self.entries@.len() - i,
        {
            if self.entries[i].0.same_key(k) {
                return i;
            }
            i = i + 1;
        }
        i
    }

    pub fn get(&self, k: &K) -> (r: Option<&V>)
        requires
            self.wf(),
        ensures
            match r {
                Some(v) => self.view().contains_key(k.model()) && self.view()[k.model()] == *v,
                None => !self.view().contains_key(k.model()),
            },
    {
        let i = self.find(k);
        if i < self.entries.len() {
            proof {
                self.lemma_lookup(i as int);
            }
            Some(&self.entries[i].1)
        } else {
            None
        }
    }

    pub fn insert(&mut self, k: K, v: V)
        requires
            old(self).wf(),
        ensures
            final(self).wf(),
            final(self).view() == old(self).view().insert(k.model(), v),
    {
        let ghost km = k.model();
        let i = self.find(&k);
        let ghost before = *self;
        if i < self.entries.len() {
            self.entries.set(i, (k, v));
            proof {
                assert forall|a: int| 0 <= a < self.entries@.len() implies #[trigger] self.key_at(a)
                    == before.key_at(a) by {}
                assert forall|k2: K::Model| #[trigger] self.has_key(k2) == before.has_key(k2) by {
                    if before.has_key(k2) {
                        let w = choose|w: int| 0 <= w < before.entries@.len() && #[trigger] before.key_at(w) == k2;
                        assert(self.key_at(w) == k2);
                    }
                    if self.has_key(k2) {
                        let w = choose|w: int| 0 <= w < self.entries@.len() && #[trigger] self.key_at(w) == k2;
                        assert(before.key_at(w) == k2);
                    }
                }
                assert forall|k2: K::Model| self.has_key(k2) implies #[trigger] self.view()[k2] == before.view().insert(km, v)[k2] by {
                    let w = choose|w: int| 0 <= w < self.entries@.len() && #[trigger] self.key_at(w) == k2;
                    self.lemma_lookup(w);
                    if w != i {
                        before.lemma_lookup(w);
                    }
                }
                assert(self.view() =~= before.view().insert(km, v));
            }
        } else {
            self.entries.push((k, v));
            proof {
                let n = before.entries@.len() as int;
                assert forall|a: int| 0 <= a < n implies #[trigger] self.key_at(a) == before.key_at(a) by {}
                assert(self.key_at(n) == km);
                assert forall|a: int, b: int| 0 <= a < b < self.entries@.len() implies #[trigger] self.key_at(a)
                    != #[trigger] self.key_at(b) by {
                    if b == n {
                        assert(before.key_at(a) != km);
                    } else {
                        assert(before.key_at(a) != before.key_at(b));
                    }
                }
                assert forall|k2: K::Model| #[trigger] self.has_key(k2) == (before.has_key(k2) || k2 == km) by {
                    if before.has_key(k2) {
                        let w = choose|w: int| 0 <= w < before.entries@.len() && #[trigger] before.key_at(w) == k2;
                        assert(self.key_at(w) == k2);
                    }
                    if self.has_key(k2) {
                        let w = choose|w: int| 0 <= w < self.entries@.len() && #[trigger] self.key_at(w) == k2;
                        if w < n {
                            assert(before.key_at(w) == k2);
                        }
                    }
                }
                assert forall|k2: K::Model| self.has_key(k2) implies #[trigger] self.view()[k2] == before.view().insert(km, v)[k2] by {
                    let w = choose|w: int| 0 <= w < self.entries@.len() && #[trigger] self.key_at(w) == k2;
                    self.lemma_lookup(w);
                    if w < n {
                        before.lemma_lookup(w);
                    }
                }
                assert(self.view() =~= before.view().insert(km, v));
            }
        }
    }

    pub fn remove(&mut self, k: &K) -> (r: Option<V>)
        requires
            old(self).wf(),
        ensures
            final(self).wf(),
            final(self).view() == old(self).view().remove(k.model()),
            match r {
                Some(v) => old(self).view().contains_key(k.model()) && old(self).view()[k.model()]
                    == v,
                None => !old(self).view().contains_key(k.model()),
            },
    {
        let ghost km = k.model();
        let i = self.find(k);
        let ghost before = *self;
        if i == self.entries.len() {
            assert(self.view() =~= before.view().remove(km));
            return None;
        }
        proof {
            before.lemma_lookup(i as int);
        }
        let (_, v) = self.entries.remove(i);
        proof {
            let n = before.entries@.len() as int;
            assert forall|a: int| 0 <= a < n - 1 implies #[trigger] self.key_at(a) == before.key_at(
                if a < i { a } else { a + 1 },
            ) by {}
            assert forall|a: int, b: int| 0 <= a < b < self.entries@.len() implies #[trigger] self.key_at(a)
                != #[trigger] self.key_at(b) by {
                let a2 = if a < i { a } else { a + 1 };
                let b2 = if b < i { b } else { b + 1 };
                assert(before.key_at(a2) != before.key_at(b2));
            }
            assert forall|k2: K::Model| #[trigger] self.has_key(k2) == (before.has_key(k2) && k2 != km) by {
                if before.has_key(k2) && k2 != km {
                    let w = choose|w: int| 0 <= w < before.entries@.len() && #[trigger] before.key_at(w) == k2;
                    assert(w != i);
                    let w2 = if w < i { w } else { w - 1 };
                    assert(self.key_at(w2) == k2);
                }
                if self.has_key(k2) {
                    let w = choose|w: int| 0 <= w < self.entries@.len() && #[trigger] self.key_at(w) == k2;
                    let w2 = if w < i { w } else { w + 1 };
                    assert(before.key_at(w2) == k2);
                    if k2 == km {
                        if w2 < i {
                            assert(before.key_at(w2) != before.key_at(i as int));
                        } else {
                            assert(before.key_at(i as int) != before.key_at(w2));
                        }
                    }
                }
            }
            assert forall|k2: K::Model| self.has_key(k2) implies #[trigger] self.view()[k2] == before.view().remove(km)[k2] by {
                let w = choose|w: int| 0 <= w < self.entries@.len() && #[trigger] self.key_at(w) == k2;
                self.lemma_lookup(w);
                let w2 = if w < i { w } else { w + 1 };
                before.lemma_lookup(w2);
            }
            assert(self.view() =~= before.view().remove(km));
        }
        Some(v)
    }
}

impl<K: TableKey> Table<K, u128> {
    /// Drops every entry whose value is `id`.
    pub fn remove_value(&mut self, id: u128)
        requires
            old(self).wf(),
        ensures
            final(self).wf(),
            forall|k: K::Model| #[trigger] final(self).view().contains_key(k) == (old(self).view().contains_key(k)
                && old(self).view()[k] != id),
            forall|k: K::Model| #[trigger] final(self).view().contains_key(k) ==> final(self).view()[k]
                == old(self).view()[k],
    {
        let ghost before = *self;
        let ghost n = before.entries@.len() as int;
        let ghost mut j: int = 0;
        let mut i: usize = 0;
        while i < self.entries.len()
            invariant
                before.wf(),
                n == before.entries@.len(),
                self.wf(),
                0 <= i <= self.entries@.len(),
                0 <= j <= n,
                self.entries@.len() - i == n - j,
                self.entries@.subrange(i as int, self.entries@.len() as int) =~= before.entries@.subrange(j, n),
                forall|a: int| 0 <= a < i ==> #[trigger] self.entries@[a].1 != id,
                forall|a: int| 0 <= a < i ==> exists|b: int| 0 <= b < j && before.entries@[b] == #[trigger] self.entries@[a],
                forall|b: int| 0 <= b < j && before.entries@[b].1 != id ==> exists|a: int| 0 <= a < i && #[trigger] self.entries@[a] == before.entries@[b],
            decreases self.entries@.len() - i,
        {
            let ghost cur = *self;
            assert(cur.entries@[i as int] == before.entries@[j]) by {
                assert(cur.entries@.subrange(i as int, cur.entries@.len() as int)[0] == before.entries@.subrange(j, n)[0]);
            }
            if self.entries[i].1 == id {
                self.entries.remove(i);
                proof {
                    assert forall|a: int, c: int| 0 <= a < c < self.entries@.len() implies #[trigger] self.key_at(a)
                        != #[trigger] self.key_at(c) by {
                        let a2 = if a < i { a } else { a + 1 };
                        let c2 = if c < i { c } else { c + 1 };
                        assert(self.key_at(a) == cur.key_at(a2));
                        assert(self.key_at(c) == cur.key_at(c2));
                    }
                    assert forall|a: int| 0 <= a < i implies exists|b: int| 0 <= b < j + 1 && before.entries@[b] == #[trigger] self.entries@[a] by {
                        assert(self.entries@[a] == cur.entries@[a]);
                    }
                    assert forall|b: int| 0 <= b < j + 1 && before.entries@[b].1 != id implies exists|a: int| 0 <= a < i && #[trigger] self.entries@[a] == before.entries@[b] by {
                        let a = choose|a: int| 0 <= a < i && #[trigger] cur.entries@[a] == before.entries@[b];
                        assert(self.entries@[a] == cur.entries@[a]);
                    }
                    let ghost cs = cur.entries@.subrange(i as int, cur.entries@.len() as int);
                    let ghost ns = self.entries@.subrange(i as int, self.entries@.len() as int);
                    assert forall|t: int| 0 <= t < ns.len() implies #[trigger] ns[t] == before.entries@.subrange(j + 1, n)[t] by {
                        assert(ns[t] == cur.entries@[i + t + 1]);
                        assert(cs[t + 1] == before.entries@.subrange(j, n)[t + 1]);
                    }
                    assert(self.entries@.subrange(i as int, self.entries@.len() as int) =~= before.entries@.subrange(j + 1, n));
                    j = j + 1;
                }
            } else {
                proof {
                    assert forall|a: int| 0 <= a < i + 1 implies exists|b: int| 0 <= b < j + 1 && before.entries@[b] == #[trigger] self.entries@[a] by {
                        if a == i {
                            assert(before.entries@[j] == self.entries@[a]);
                        }
                    }
                    assert forall|b: int| 0 <= b < j + 1 && before.entries@[b].1 != id implies exists|a: int| 0 <= a < i + 1 && #[trigger] self.entries@[a] == before.entries@[b] by {
                        if b == j {
                            assert(self.entries@[i as int] == before.entries@[b]);
                        }
                    }
                    let ghost cs = cur.entries@.subrange(i as int, cur.entries@.len() as int);
                    let ghost ns = self.entries@.subrange(i + 1, self.entries@.len() as int);
                    assert forall|t: int| 0 <= t < ns.len() implies #[trigger] ns[t] == before.entries@.subrange(j + 1, n)[t] by {
                        assert(cs[t + 1] == before.entries@.subrange(j, n)[t + 1]);
                    }
                    assert(self.entries@.subrange(i + 1, self.entries@.len() as int) =~= before.entries@.subrange(j + 1, n));
                    j = j + 1;
                }
                i = i + 1;
            }
        }
        proof {
            assert(j == n);
            assert forall|k: K::Model| #[trigger] self.view().contains_key(k) == (before.view().contains_key(k)
                && before.view()[k] != id) by {
                if self.has_key(k) {
                    let a = choose|a: int| 0 <= a < self.entries@.len() && #[trigger] self.key_at(a) == k;
                    let b = choose|b: int| 0 <= b < n && before.entries@[b] == #[trigger] self.entries@[a];
                    assert(before.key_at(b) == k);
                    before.lemma_lookup(b);
                }
                if before.has_key(k) && before.view()[k] != id {
                    let b = choose|b: int| 0 <= b < n && #[trigger] before.key_at(b) == k;
                    before.lemma_lookup(b);
                    let a = choose|a: int| 0 <= a < self.entries@.len() && #[trigger] self.entries@[a] == before.entries@[b];
                    assert(self.key_at(a) == k);
                }
            }
            assert forall|k: K::Model| #[trigger] self.view().contains_key(k) implies self.view()[k]
                == before.view()[k] by {
                let a = choose|a: int| 0 <= a < self.entries@.len() && #[trigger] self.key_at(a) == k;
                let b = choose|b: int| 0 <= b < n && before.entries@[b] == #[trigger] self.entries@[a];
                self.lemma_lookup(a);
                before.lemma_lookup(b);
            }
        }
    }
}

impl<V> Table<String, V> {
    /// The keys, in no particular order.
    pub fn keys(&self) -> (ks: Vec<String>)
        requires
            self.wf(),
        ensures
            forall|k: Seq<char>| #[trigger] views(ks@).contains(k) == self.view().contains_key(k),
    {
        let mut ks: Vec<String> = Vec::new();
        let mut i: usize = 0;
        while i < self.entries.len()
            invariant
                i <= self.entries@.len(),
                ks@.len() == i,
                forall|j: int| 0 <= j < i ==> #[trigger] ks@[j]@ == self.key_at(j),
            decreases self.entries@.len() - i,
        {
            ks.push(self.entries[i].0.clone());
            i = i + 1;
        }
        proof {
            let kv = views(ks@);
            assert forall|k: Seq<char>| #[trigger] kv.contains(k) == self.view().contains_key(k) by {
                if kv.contains(k) {
                    let j = choose|j: int| 0 <= j < kv.len() && kv[j] == k;
                    assert(self.key_at(j) == k);
                }
                if self.has_key(k) {
                    let j = choose|j: int| 0 <= j < self.entries@.len() && #[trigger] self.key_at(j) == k;
                    assert(kv[j] == k);
                }
            }
        }
        ks
    }
}

} // verus!
