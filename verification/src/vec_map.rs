//! Small finite map with unique keys kept in insertion order, used for the
//! chunk, edit and texture tables.
use vstd::prelude::*;
use crate::coords::IVec3;

verus! {

/// Keys with an executable equality that agrees with mathematical equality.
pub trait MapKey: Copy + Sized {
    fn key_eq(&self, other: &Self) -> (r: bool)
        ensures
            r == (*self == *other),
    ;
}

impl MapKey for IVec3 {
    fn key_eq(&self, other: &Self) -> (r: bool) {
        self.x == other.x && self.y == other.y && self.z == other.z
    }
}

impl MapKey for usize {
    fn key_eq(&self, other: &Self) -> (r: bool) {
        *self == *other
    }
}

impl MapKey for u32 {
    fn key_eq(&self, other: &Self) -> (r: bool) {
        *self == *other
    }
}

/// Finite map stored as parallel key and value vectors.
pub struct VecMap<K, V> {
    keys: Vec<K>,
    vals: Vec<V>,
}

/// Index of key `k` in `keys` (meaningful when `keys` contains `k`).
pub open spec fn key_pos<K>(keys: Seq<K>, k: K) -> int {
    choose|i: int| 0 <= i < keys.len() && keys[i] == k
}

/// The keys of `keys` are pairwise distinct.
pub open spec fn distinct<K>(keys: Seq<K>) -> bool {
    forall|i: int, j: int| 0 <= i < keys.len() && 0 <= j < keys.len() && i != j ==> keys[i] != keys[j]
}

/// The map given by distinct `keys` and parallel `vals`.
pub open spec fn pairs_to_map<K, V>(keys: Seq<K>, vals: Seq<V>) -> Map<K, V> {
    Map::new(|k: K| keys.contains(k), |k: K| vals[key_pos(keys, k)])
}

/// In a sequence of distinct keys, the position found for the key at `i` is `i`.
pub proof fn lemma_key_pos<K>(keys: Seq<K>, i: int)
    requires
        distinct(keys),
        0 <= i < keys.len(),
    ensures
        key_pos(keys, keys[i]) == i,
        keys.contains(keys[i]),
{
    let k = keys[i];
    assert(keys[i] == k);
    let j = key_pos(keys, k);
    assert(0 <= j < keys.len() && keys[j] == k);
}

/// `acc` with the pairs `(keys[i], vals[i])` inserted first to last.
pub open spec fn fold_pairs<K, V>(acc: Map<K, V>, keys: Seq<K>, vals: Seq<V>) -> Map<K, V>
    decreases keys.len(),
{
    if keys.len() == 0 {
        acc
    } else {
        fold_pairs(acc.insert(keys[0], vals[0]), keys.drop_first(), vals.drop_first())
    }
}

/// Inserting pairs with distinct keys one by one gives `acc` overridden by their map.
pub proof fn lemma_fold_pairs<K, V>(acc: Map<K, V>, keys: Seq<K>, vals: Seq<V>)
    requires
        distinct(keys),
        keys.len() == vals.len(),
    ensures
        fold_pairs(acc, keys, vals) == acc.union_prefer_right(pairs_to_map(keys, vals)),
    decreases keys.len(),
{
    if keys.len() == 0 {
        assert(pairs_to_map(keys, vals) =~= Map::<K, V>::empty());
        assert(acc.union_prefer_right(pairs_to_map(keys, vals)) =~= acc);
    } else {
        let k0 = keys[0];
        let ks = keys.drop_first();
        let vs = vals.drop_first();
        assert forall|a: int, b: int| 0 <= a < ks.len() && 0 <= b < ks.len() && a != b implies ks[a]
            != ks[b] by {
            assert(ks[a] == keys[a + 1] && ks[b] == keys[b + 1]);
        }
        lemma_fold_pairs(acc.insert(k0, vals[0]), ks, vs);
        assert forall|k: K| keys.contains(k) <==> (k == k0 || ks.contains(k)) by {
            if keys.contains(k) {
                let j = choose|j: int| 0 <= j < keys.len() && keys[j] == k;
                if j > 0 {
                    assert(ks[j - 1] == k);
                }
            }
            if ks.contains(k) {
                let j = choose|j: int| 0 <= j < ks.len() && ks[j] == k;
                assert(keys[j + 1] == k);
            }
            if k == k0 {
                assert(keys[0] == k);
            }
        }
        assert(!ks.contains(k0)) by {
            if ks.contains(k0) {
                let j = choose|j: int| 0 <= j < ks.len() && ks[j] == k0;
                assert(keys[j + 1] == k0);
            }
        }
        assert forall|k: K| #[trigger] keys.contains(k) implies pairs_to_map(keys, vals)[k] == (if k
            == k0 {
            vals[0]
        } else {
            pairs_to_map(ks, vs)[k]
        }) by {
            let j = key_pos(keys, k);
            assert(0 <= j < keys.len() && keys[j] == k);
            lemma_key_pos(keys, j);
            if k == k0 {
                lemma_key_pos(keys, 0);
            } else {
                assert(j > 0);
                assert(ks[j - 1] == k);
                lemma_key_pos(ks, j - 1);
            }
        }
        assert(acc.insert(k0, vals[0]).union_prefer_right(pairs_to_map(ks, vs)) =~= acc.union_prefer_right(
            pairs_to_map(keys, vals),
        ));
    }
}

impl<K: MapKey, V> VecMap<K, V> {
    /// The map's contents.
    pub closed spec fn view(&self) -> Map<K, V> {
        pairs_to_map(self.keys@, self.vals@)
    }

    /// Keys in storage order (each key once).
    pub closed spec fn key_seq(&self) -> Seq<K> {
        self.keys@
    }

    /// Values in storage order, parallel to `key_seq`.
    pub closed spec fn val_seq(&self) -> Seq<V> {
        self.vals@
    }

    /// Keys are distinct and there is one value per key.
    pub closed spec fn wf(&self) -> bool {
        &&& self.keys@.len() == self.vals@.len()
        &&& distinct(self.keys@)
    }

    /// Storage order describes the map: distinct keys, one value each.
    pub proof fn lemma_view(&self)
        requires
            self.wf(),
        ensures
            self.key_seq().len() == self.val_seq().len(),
            distinct(self.key_seq()),
            forall|k: K| #[trigger] self@.contains_key(k) <==> self.key_seq().contains(k),
            forall|i: int|
                0 <= i < self.key_seq().len() ==> #[trigger] self@[self.key_seq()[i]]
                    == self.val_seq()[i],
            self@.dom().finite(),
            self@.dom().len() == self.key_seq().len(),
    {
        assert forall|i: int| 0 <= i < self.key_seq().len() implies #[trigger] self@[self.key_seq()[i]]
            == self.val_seq()[i] by {
            lemma_key_pos(self.keys@, i);
        }
        assert(self@.dom() =~= self.keys@.to_set());
        self.keys@.unique_seq_to_set();
    }

    /// Inserting the entries in storage order into an empty map rebuilds the map.
    pub proof fn lemma_fold(&self)
        requires
            self.wf(),
        ensures
            fold_pairs(Map::<K, V>::empty(), self.key_seq(), self.val_seq()) == self@,
    {
        lemma_fold_pairs(Map::<K, V>::empty(), self.keys@, self.vals@);
        assert(Map::<K, V>::empty().union_prefer_right(self@) =~= self@);
    }

    /// An empty map.
    pub fn new() -> (r: Self)
        ensures
            r.wf(),
            r@ == Map::<K, V>::empty(),
            r.key_seq().len() == 0,
    {
        let r = VecMap { keys: Vec::new(), vals: Vec::new() };
        assert(r@ =~= Map::<K, V>::empty());
        r
    }

    /// Number of entries.
    pub fn len(&self) -> (r: usize)
        requires
            self.wf(),
        ensures
            r == self.key_seq().len(),
            r == self@.dom().len(),
    {
        proof {
            self.lemma_view();
        }
        self.keys.len()
    }

    /// Storage position of key `k`, if present.
    pub fn find(&self, k: &K) -> (r: Option<usize>)
        requires
            self.wf(),
        ensures
            r is None ==> !self@.contains_key(*k),
            r matches Some(i) ==> i < self.key_seq().len() && self.key_seq()[i as int] == *k
                && self@.contains_key(*k) && self@[*k] == self.val_seq()[i as int],
    {
        proof {
            self.lemma_view();
        }
        let mut i: usize = 0;
        while i < self.keys.len()
            invariant
                self.wf(),
                i <= self.keys@.len(),
                forall|j: int| 0 <= j < i ==> self.keys@[j] != *k,
            decreases self.keys@.len() - i,
        {
            if self.keys[i].key_eq(k) {
                proof {
                    lemma_key_pos(self.keys@, i as int);
                }
                return Some(i);
            }
            i += 1;
        }
        None
    }

    /// Whether key `k` is present.
    pub fn contains_key(&self, k: &K) -> (r: bool)
        requires
            self.wf(),
        ensures
            r == self@.contains_key(*k),
    {
        self.find(k).is_some()
    }

    /// Value of key `k`, if present.
    pub fn get(&self, k: &K) -> (r: Option<&V>)
        requires
            self.wf(),
        ensures
            r is None <==> !self@.contains_key(*k),
            r matches Some(v) ==> *v == self@[*k],
    {
        match self.find(k) {
            Some(i) => Some(&self.vals[i]),
            None => None,
        }
    }

    /// Key at storage position `i`.
    pub fn key_at(&self, i: usize) -> (r: K)
        requires
            self.wf(),
            i < self.key_seq().len(),
        ensures
            r == self.key_seq()[i as int],
    {
        self.keys[i]
    }

    /// Value at storage position `i`.
    pub fn value_at(&self, i: usize) -> (r: &V)
        requires
            self.wf(),
            i < self.key_seq().len(),
        ensures
            *r == self.val_seq()[i as int],
            *r == self@[self.key_seq()[i as int]],
    {
        proof {
            self.lemma_view();
        }
        &self.vals[i]
    }

    /// Mutable access to the value at storage position `i`.
    pub fn value_at_mut(&mut self, i: usize) -> (r: &mut V)
        requires
            old(self).wf(),
            i < old(self).key_seq().len(),
        ensures
            *r == old(self).val_seq()[i as int],
            *r == old(self)@[old(self).key_seq()[i as int]],
            final(self).wf(),
            final(self).key_seq() == old(self).key_seq(),
            final(self).val_seq() == old(self).val_seq().update(i as int, *final(r)),
            final(self)@ == old(self)@.insert(old(self).key_seq()[i as int], *final(r)),
    {
        proof {
            self.lemma_view();
            let ks = self.keys@;
            let k = ks[i as int];
            assert forall|vv: V| pairs_to_map(ks, self.vals@.update(i as int, vv)) =~= pairs_to_map(
                ks,
                self.vals@,
            ).insert(k, vv) by {
                assert forall|kk: K| #[trigger] ks.contains(kk) implies pairs_to_map(
                    ks,
                    self.vals@.update(i as int, vv),
                )[kk] == pairs_to_map(ks, self.vals@).insert(k, vv)[kk] by {
                    let j = key_pos(ks, kk);
                    assert(0 <= j < ks.len() && ks[j] == kk);
                    if kk == k {
                        lemma_key_pos(ks, i as int);
                    } else {
                        assert(j != i);
                    }
                }
                assert(ks.contains(k)) by {
                    lemma_key_pos(ks, i as int);
                }
            }
        }
        &mut self.vals[i]
    }

    /// Inserts or replaces the value of key `k`; returns whether `k` was new.
    pub fn insert(&mut self, k: K, v: V) -> (r: bool)
        requires
            old(self).wf(),
        ensures
            final(self).wf(),
            final(self)@ == old(self)@.insert(k, v),
            r == !old(self)@.contains_key(k),
            r ==> final(self).key_seq() == old(self).key_seq().push(k),
            !r ==> final(self).key_seq() == old(self).key_seq(),
    {
        match self.find(&k) {
            Some(i) => {
                let slot = self.value_at_mut(i);
                *slot = v;
                false
            },
            None => {
                proof {
                    self.lemma_view();
                }
                let ghost ok = self.keys@;
                let ghost ov = self.vals@;
                self.keys.push(k);
                self.vals.push(v);
                proof {
                    assert forall|a: int, b: int|
                        0 <= a < self.keys@.len() && 0 <= b < self.keys@.len() && a != b implies self.keys@[a]
                        != self.keys@[b] by {
                        if a < ok.len() && b < ok.len() {
                        } else if a < ok.len() {
                            assert(ok.contains(ok[a]));
                        } else {
                            assert(ok.contains(ok[b]));
                        }
                    }
                    assert forall|kk: K| #[trigger] self.keys@.contains(kk) implies pairs_to_map(
                        self.keys@,
                        self.vals@,
                    )[kk] == pairs_to_map(ok, ov).insert(k, v)[kk] by {
                        let j = key_pos(self.keys@, kk);
                        assert(0 <= j < self.keys@.len() && self.keys@[j] == kk);
                        lemma_key_pos(self.keys@, j);
                        if j < ok.len() {
                            lemma_key_pos(ok, j);
                        }
                    }
                    assert forall|kk: K| self.keys@.contains(kk) <==> (ok.contains(kk) || kk == k) by {
                        if ok.contains(kk) {
                            let j = choose|j: int| 0 <= j < ok.len() && ok[j] == kk;
                            assert(self.keys@[j] == kk);
                        }
                        if self.keys@.contains(kk) {
                            let j = choose|j: int| 0 <= j < self.keys@.len() && self.keys@[j] == kk;
                            if j < ok.len() {
                                assert(ok[j] == kk);
                            }
                        }
                        if kk == k {
                            assert(self.keys@[ok.len() as int] == k);
                        }
                    }
                    assert(self@ =~= pairs_to_map(ok, ov).insert(k, v));
                }
                true
            },
        }
    }

    /// Removes key `k`, returning its value if it was present.
    pub fn remove(&mut self, k: &K) -> (r: Option<V>)
        requires
            old(self).wf(),
        ensures
            final(self).wf(),
            final(self)@ == old(self)@.remove(*k),
            r is None <==> !old(self)@.contains_key(*k),
            r matches Some(v) ==> v == old(self)@[*k],
    {
        match self.find(k) {
            Some(i) => {
                let ghost ok = self.keys@;
                let ghost ov = self.vals@;
                self.keys.remove(i);
                let v = self.vals.remove(i);
                proof {
                    let nk = self.keys@;
                    assert(nk =~= ok.remove(i as int));
                    assert forall|a: int, b: int|
                        0 <= a < nk.len() && 0 <= b < nk.len() && a != b implies nk[a] != nk[b] by {
                        let a2 = if a < i { a } else { a + 1 };
                        let b2 = if b < i { b } else { b + 1 };
                        assert(nk[a] == ok[a2] && nk[b] == ok[b2]);
                    }
                    assert forall|kk: K| nk.contains(kk) <==> (ok.contains(kk) && kk != *k) by {
                        if nk.contains(kk) {
                            let j = choose|j: int| 0 <= j < nk.len() && nk[j] == kk;
                            let j2 = if j < i { j } else { j + 1 };
                            assert(ok[j2] == kk);
                        }
                        if ok.contains(kk) && kk != *k {
                            let j = choose|j: int| 0 <= j < ok.len() && ok[j] == kk;
                            assert(j != i);
                            let j2 = if j < i { j } else { j - 1 };
                            assert(nk[j2] == kk);
                        }
                    }
                    assert forall|kk: K| #[trigger] nk.contains(kk) implies pairs_to_map(
                        nk,
                        self.vals@,
                    )[kk] == pairs_to_map(ok, ov)[kk] by {
                        let j = key_pos(nk, kk);
                        assert(0 <= j < nk.len() && nk[j] == kk);
                        let j2 = if j < i { j } else { j + 1 };
                        assert(ok[j2] == kk);
                        lemma_key_pos(ok, j2);
                    }
                    assert(self@ =~= pairs_to_map(ok, ov).remove(*k));
                }
                Some(v)
            },
            None => {
                proof {
                    assert(self@ =~= self@.remove(*k));
                }
                None
            },
        }
    }

    /// Removes every entry.
    pub fn clear(&mut self)
        requires
            old(self).wf(),
        ensures
            final(self).wf(),
            final(self)@ == Map::<K, V>::empty(),
            final(self).key_seq().len() == 0,
    {
        self.keys.clear();
        self.vals.clear();
        assert(self@ =~= Map::<K, V>::empty());
    }
}

} // verus!
