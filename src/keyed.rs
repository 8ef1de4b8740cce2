//! A small map kept as a vector of entries, one per key, in insertion order.

use vstd::prelude::*;
use crate::types::Address;

verus! {

/// A key with an executable comparison that agrees with its view.
pub trait Key: View + Sized {
    fn key_eq(&self, other: &Self) -> (r: bool)
        ensures
            r == (self@ == other@),
    ;

    fn copy_key(&self) -> (r: Self)
        ensures
            r@ == self@,
    ;
}

impl View for Address {
    type V = Address;

    open spec fn view(&self) -> Address {
        *self
    }
}

impl Key for Address {
    fn key_eq(&self, other: &Self) -> (r: bool) {
        self.same_as(other)
    }

    fn copy_key(&self) -> (r: Self) {
        *self
    }
}

/// Entries with distinct keys.
pub struct KeyedVec<K: Key, V> {
    entries: Vec<(K, V)>,
}

pub open spec fn distinct_keys<K: Key, V>(es: Seq<(K, V)>) -> bool {
    forall|i: int, j: int|
        0 <= i < es.len() && 0 <= j < es.len() && i != j ==> (#[trigger] es[i]).0@ != (
        #[trigger] es[j]).0@
}

pub open spec fn index_of_key<K: Key, V>(es: Seq<(K, V)>, k: K::V) -> int {
    choose|i: int| 0 <= i < es.len() && (#[trigger] es[i]).0@ == k
}

pub open spec fn map_of<K: Key, V>(es: Seq<(K, V)>) -> Map<K::V, V> {
    Map::new(
        |k: K::V| exists|i: int| 0 <= i < es.len() && (#[trigger] es[i]).0@ == k,
        |k: K::V| es[index_of_key(es, k)].1,
    )
}

proof fn lemma_at<K: Key, V>(es: Seq<(K, V)>, i: int)
    requires
        distinct_keys(es),
        0 <= i < es.len(),
    ensures
        map_of(es).contains_key(es[i].0@),
        map_of(es)[es[i].0@] == es[i].1,
{
    let k = es[i].0@;
    assert(es[i].0@ == k);
    let j = index_of_key(es, k);
    assert(es[j].0@ == k);
}

impl<K: Key, V> View for KeyedVec<K, V> {
    type V = Map<K::V, V>;

    closed spec fn view(&self) -> Map<K::V, V> {
        map_of(self.entries@)
    }
}

impl<K: Key, V> KeyedVec<K, V> {
    pub closed spec fn wf(&self) -> bool {
        distinct_keys(self.entries@)
    }

    /// The keys in insertion order.
    pub closed spec fn key_order(&self) -> Seq<K::V> {
        self.entries@.map_values(|e: (K, V)| e.0@)
    }

    pub fn new() -> (r: Self)
        ensures
            r.wf(),
            r@ == Map::<K::V, V>::empty(),
            r.key_order() == Seq::<K::V>::empty(),
    {
        let r = KeyedVec { entries: Vec::new() };
        assert(r@ =~= Map::<K::V, V>::empty());
        assert(r.key_order() =~= Seq::<K::V>::empty());
        r
    }

    fn find(&self, k: &K) -> (r: Option<usize>)
        requires
            self.wf(),
        ensures
            match r {
                Some(i) => i < self.entries@.len() && self.entries@[i as int].0@ == k@,
                None => forall|j: int|
                    0 <= j < self.entries@.len() ==> (#[trigger] self.entries@[j]).0@ != k@,
            },
    {
        let mut i: usize = 0;
        while i < self.entries.len()
            invariant
                0 <= i <= self.entries.len(),
                forall|j: int| 0 <= j < i ==> (#[trigger] self.entries@[j]).0@ != k@,
            decreases self.entries.len() - i,
        {
            if self.entries[i].0.key_eq(k) {
                return Some(i);
            }
            i += 1;
        }
        None
    }

    /// The value under `k`.
    pub fn get(&self, k: &K) -> (r: Option<&V>)
        requires
            self.wf(),
        ensures
            match r {
                Some(v) => self@.contains_key(k@) && *v == self@[k@],
                None => !self@.contains_key(k@),
            },
    {
        match self.find(k) {
            Some(i) => {
                proof {
                    lemma_at(self.entries@, i as int);
                }
                Some(&self.entries[i].1)
            },
            None => None,
        }
    }

    /// Whether `k` has an entry.
    pub fn contains(&self, k: &K) -> (r: bool)
        requires
            self.wf(),
        ensures
            r == self@.contains_key(k@),
    {
        self.get(k).is_some()
    }

    /// Sets the value under `k`; a new key goes to the end of the order.
    pub fn insert(&mut self, k: K, v: V)
        requires
            old(self).wf(),
        ensures
            final(self).wf(),
            final(self)@ == old(self)@.insert(k@, v),
            old(self)@.contains_key(k@) ==> final(self).key_order() == old(self).key_order(),
            !old(self)@.contains_key(k@) ==> final(self).key_order() == old(self).key_order().push(
                k@,
            ),
    {
        let ghost old_es = self.entries@;
        let ghost kv = k@;
        match self.find(&k) {
            Some(i) => {
                proof {
                    lemma_at(old_es, i as int);
                }
                self.entries.set(i, (k, v));
                proof {
                    let es = self.entries@;
                    assert forall|x: int, y: int|
                        0 <= x < es.len() && 0 <= y < es.len() && x != y implies (
                        #[trigger] es[x]).0@ != (#[trigger] es[y]).0@ by {
                        assert(es[x].0@ == old_es[x].0@);
                        assert(es[y].0@ == old_es[y].0@);
                    }
                    assert forall|b: K::V| #[trigger]
                        map_of(es).contains_key(b) == map_of(old_es).insert(kv, v).contains_key(b) by {
                        if map_of(es).contains_key(b) {
                            let x = choose|x: int| 0 <= x < es.len() && (#[trigger] es[x]).0@ == b;
                            assert(es[x].0@ == old_es[x].0@);
                        }
                        if map_of(old_es).contains_key(b) {
                            let x = choose|x: int| 0 <= x < old_es.len() && (#[trigger] old_es[x]).0@ == b;
                            assert(es[x].0@ == old_es[x].0@);
                        }
                        if b == kv {
                            assert(es[i as int].0@ == kv);
                        }
                    }
                    assert forall|b: K::V| #[trigger] map_of(es).contains_key(b) implies map_of(es)[b]
                        == map_of(old_es).insert(kv, v)[b] by {
                        let x = choose|x: int| 0 <= x < es.len() && (#[trigger] es[x]).0@ == b;
                        lemma_at(es, x);
                        if x != i {
                            assert(es[x] == old_es[x]);
                            lemma_at(old_es, x);
                        }
                    }
                    assert(map_of(es) =~= map_of(old_es).insert(kv, v));
                    assert(self.key_order() =~= old_es.map_values(|e: (K, V)| e.0@));
                }
            },
            None => {
                self.entries.push((k, v));
                proof {
                    let es = self.entries@;
                    let n = old_es.len() as int;
                    assert forall|x: int| 0 <= x < n implies #[trigger] es[x] == old_es[x] by {}
                    assert forall|x: int, y: int|
                        0 <= x < es.len() && 0 <= y < es.len() && x != y implies (
                        #[trigger] es[x]).0@ != (#[trigger] es[y]).0@ by {
                        if x < n && y < n {
                            assert(es[x] == old_es[x]);
                            assert(es[y] == old_es[y]);
                        } else if x < n {
                            assert(es[x] == old_es[x]);
                        } else {
                            assert(es[y] == old_es[y]);
                        }
                    }
                    assert(!map_of(old_es).contains_key(kv));
                    assert forall|b: K::V| #[trigger]
                        map_of(es).contains_key(b) == map_of(old_es).insert(kv, v).contains_key(b) by {
                        if map_of(es).contains_key(b) && b != kv {
                            let x = choose|x: int| 0 <= x < es.len() && (#[trigger] es[x]).0@ == b;
                            assert(x < n);
                            assert(es[x] == old_es[x]);
                        }
                        if map_of(old_es).contains_key(b) {
                            let x = choose|x: int| 0 <= x < old_es.len() && (#[trigger] old_es[x]).0@ == b;
                            assert(es[x] == old_es[x]);
                        }
                        if b == kv {
                            assert(es[n].0@ == kv);
                        }
                    }
                    assert forall|b: K::V| #[trigger] map_of(es).contains_key(b) implies map_of(es)[b]
                        == map_of(old_es).insert(kv, v)[b] by {
                        let x = choose|x: int| 0 <= x < es.len() && (#[trigger] es[x]).0@ == b;
                        lemma_at(es, x);
                        if x < n {
                            assert(es[x] == old_es[x]);
                            lemma_at(old_es, x);
                        }
                    }
                    assert(map_of(es) =~= map_of(old_es).insert(kv, v));
                    assert(self.key_order() =~= old_es.map_values(|e: (K, V)| e.0@).push(kv));
                }
            },
        }
    }

    /// Drops the entry under `k`, if any.
    pub fn remove(&mut self, k: &K)
        requires
            old(self).wf(),
        ensures
            final(self).wf(),
            final(self)@ == old(self)@.remove(k@),
    {
        let ghost old_es = self.entries@;
        let ghost a = k@;
        match self.find(k) {
            None => {
                assert(map_of(old_es).remove(a) =~= map_of(old_es));
            },
            Some(i) => {
                self.entries.remove(i);
                proof {
                    let es = self.entries@;
                    assert forall|x: int| 0 <= x < es.len() implies #[trigger] es[x] == old_es[if x
                        < i {
                        x
                    } else {
                        x + 1
                    }] by {}
                    assert forall|x: int, y: int|
                        0 <= x < es.len() && 0 <= y < es.len() && x != y implies (
                        #[trigger] es[x]).0@ != (#[trigger] es[y]).0@ by {
                        assert(es[x] == old_es[if x < i { x } else { x + 1 }]);
                        assert(es[y] == old_es[if y < i { y } else { y + 1 }]);
                    }
                    assert forall|b: K::V| #[trigger]
                        map_of(es).contains_key(b) == map_of(old_es).remove(a).contains_key(b) by {
                        if map_of(es).contains_key(b) {
                            let x = choose|x: int| 0 <= x < es.len() && (#[trigger] es[x]).0@ == b;
                            let ox = if x < i { x } else { x + 1 };
                            assert(es[x] == old_es[ox]);
                            assert(old_es[ox].0@ == b);
                            assert(ox != i);
                        }
                        if map_of(old_es).remove(a).contains_key(b) {
                            let ox = choose|x: int| 0 <= x < old_es.len() && (#[trigger] old_es[x]).0@ == b;
                            assert(ox != i);
                            let x = if ox < i { ox } else { ox - 1 };
                            assert(es[x] == old_es[ox]);
                        }
                    }
                    assert forall|b: K::V| #[trigger] map_of(es).contains_key(b) implies map_of(es)[b]
                        == map_of(old_es)[b] by {
                        let x = choose|x: int| 0 <= x < es.len() && (#[trigger] es[x]).0@ == b;
                        let ox = if x < i { x } else { x + 1 };
                        assert(es[x] == old_es[ox]);
                        lemma_at(es, x);
                        lemma_at(old_es, ox);
                    }
                    assert(map_of(es) =~= map_of(old_es).remove(a));
                }
            },
        }
    }

    /// Copies of the keys, in insertion order.
    pub fn keys(&self) -> (r: Vec<K>)
        requires
            self.wf(),
        ensures
            r@.map_values(|k: K| k@) == self.key_order(),
            forall|k: K::V| self@.contains_key(k) <==> self.key_order().contains(k),
    {
        let mut r: Vec<K> = Vec::new();
        let mut i: usize = 0;
        while i < self.entries.len()
            invariant
                0 <= i <= self.entries.len(),
                r@.len() == i,
                forall|j: int| 0 <= j < i ==> (#[trigger] r@[j])@ == self.entries@[j].0@,
            decreases self.entries.len() - i,
        {
            let k = self.entries[i].0.copy_key();
            r.push(k);
            i += 1;
        }
        assert(r@.map_values(|k: K| k@) =~= self.key_order());
        proof {
            assert forall|k: K::V| self@.contains_key(k) <==> self.key_order().contains(k) by {
                if self@.contains_key(k) {
                    let x = choose|x: int| 0 <= x < self.entries@.len() && (#[trigger] self.entries@[x]).0@ == k;
                    assert(self.key_order()[x] == k);
                }
                if self.key_order().contains(k) {
                    let x = choose|x: int| 0 <= x < self.key_order().len() && self.key_order()[x] == k;
                    assert(self.entries@[x].0@ == k);
                }
            }
        }
        r
    }
}

} // verus!
