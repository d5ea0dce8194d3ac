//! Identifiers, and the ordered map that the rest of the library keys by them.

use vstd::prelude::*;

verus! {

/// A value that can be compared and copied without loss.
pub trait Ident: Sized {
    /// Whether the two values are the same.
    fn same(&self, other: &Self) -> (r: bool)
        ensures
            r == (*self == *other),
    ;

    /// A copy of the value.
    fn dup(&self) -> (r: Self)
        ensures
            r == *self,
    ;
}

/// An identifier with a total order, given by an integer rank.
pub trait Ranked: Ident {
    /// The position of the value in the order.
    spec fn rank(self) -> int;

    /// Distinct values have distinct ranks.
    proof fn rank_injective(a: Self, b: Self)
        requires
            a.rank() == b.rank(),
        ensures
            a == b,
    ;

    /// Whether `self` comes strictly before `other`.
    fn precedes(&self, other: &Self) -> (r: bool)
        ensures
            r == (self.rank() < other.rank()),
    ;
}

impl Ident for u64 {
    fn same(&self, other: &Self) -> (r: bool) {
        *self == *other
    }

    fn dup(&self) -> (r: Self) {
        *self
    }
}

impl Ranked for u64 {
    open spec fn rank(self) -> int {
        self as int
    }

    proof fn rank_injective(a: Self, b: Self) {
    }

    fn precedes(&self, other: &Self) -> (r: bool) {
        *self < *other
    }
}

/// A map kept as a vector of entries in ascending key order.
pub struct OrdMap<K, V> {
    pub entries: Vec<(K, V)>,
}

impl<K: Ranked, V> OrdMap<K, V> {
    /// Keys are strictly ascending, so no key occurs twice.
    pub open spec fn wf(self) -> bool {
        forall|i: int, j: int|
            #![trigger self.entries@[i], self.entries@[j]]
            0 <= i < j < self.entries@.len() ==> self.entries@[i].0.rank()
                < self.entries@[j].0.rank()
    }

    /// Whether some entry has the key `k`.
    pub open spec fn has(self, k: K) -> bool {
        exists|i: int| 0 <= i < self.entries@.len() && (#[trigger] self.entries@[i]).0 == k
    }

    /// The index of the entry with the key `k`.
    pub open spec fn index_of(self, k: K) -> int {
        choose|i: int| 0 <= i < self.entries@.len() && (#[trigger] self.entries@[i]).0 == k
    }

    /// The keys, in ascending order.
    pub open spec fn keys(self) -> Seq<K> {
        self.entries@.map_values(|e: (K, V)| e.0)
    }
}

impl<K: Ranked, V> View for OrdMap<K, V> {
    type V = Map<K, V>;

    open spec fn view(&self) -> Map<K, V> {
        Map::new(|k: K| self.has(k), |k: K| self.entries@[self.index_of(k)].1)
    }
}

impl<K: Ranked, V> OrdMap<K, V> {
    /// Keys identify entries.
    pub proof fn lemma_unique(self, i: int, j: int)
        requires
            self.wf(),
            0 <= i < self.entries@.len(),
            0 <= j < self.entries@.len(),
            self.entries@[i].0 == self.entries@[j].0,
        ensures
            i == j,
    {
    }

    /// The entry at `i` is what the map holds under its key.
    pub proof fn lemma_entry(self, i: int)
        requires
            self.wf(),
            0 <= i < self.entries@.len(),
        ensures
            self@.contains_key(self.entries@[i].0),
            self@[self.entries@[i].0] == self.entries@[i].1,
    {
        let k = self.entries@[i].0;
        assert(self.has(k));
        self.lemma_unique(self.index_of(k), i);
    }

    /// The map is finite, with one key per entry.
    pub proof fn lemma_len(self)
        requires
            self.wf(),
        ensures
            self@.dom().finite(),
            self@.len() == self.entries@.len(),
    {
        let keys = self.keys();
        assert(keys.no_duplicates()) by {
            assert forall|i: int, j: int| 0 <= i < keys.len() && 0 <= j < keys.len() && i != j implies keys[i]
                != keys[j] by {
                if keys[i] == keys[j] {
                    self.lemma_unique(i, j);
                }
            }
        }
        keys.unique_seq_to_set();
        assert(self@.dom() =~= keys.to_set()) by {
            assert forall|k: K| self@.dom().contains(k) implies keys.to_set().contains(k) by {
                assert(keys[self.index_of(k)] == k);
            }
            assert forall|k: K| keys.to_set().contains(k) implies self@.dom().contains(k) by {
                let i = choose|i: int| 0 <= i < keys.len() && keys[i] == k;
                assert(self.entries@[i].0 == k);
            }
        }
    }

    /// An empty map.
    pub fn new() -> (r: Self)
        ensures
            r.wf(),
            r@ == Map::<K, V>::empty(),
            r.entries@.len() == 0,
    {
        let r = OrdMap { entries: Vec::new() };
        assert(r@ =~= Map::<K, V>::empty());
        r
    }

    /// The number of keys.
    pub fn len(&self) -> (r: usize)
        requires
            self.wf(),
        ensures
            r == self@.len(),
            r == self.entries@.len(),
    {
        proof {
            self.lemma_len();
        }
        self.entries.len()
    }

    /// Whether the map has no key.
    pub fn is_empty(&self) -> (r: bool)
        requires
            self.wf(),
        ensures
            r == (self@ == Map::<K, V>::empty()),
    {
        proof {
            if self.entries@.len() == 0 {
                assert(self@ =~= Map::<K, V>::empty());
            } else {
                self.lemma_entry(0);
            }
        }
        self.entries.len() == 0
    }

    /// The index of the first entry whose key is not before `k`.
    fn lower_bound(&self, k: &K) -> (r: usize)
        requires
            self.wf(),
        ensures
            r <= self.entries@.len(),
            forall|i: int|
                #![trigger self.entries@[i]]
                0 <= i < r ==> self.entries@[i].0.rank() < k.rank(),
            forall|i: int|
                #![trigger self.entries@[i]]
                r <= i < self.entries@.len() ==> self.entries@[i].0.rank() >= k.rank(),
    {
        let mut i: usize = 0;
        while i < self.entries.len()
            invariant
                self.wf(),
                i <= self.entries@.len(),
                forall|j: int|
                    #![trigger self.entries@[j]]
                    0 <= j < i ==> self.entries@[j].0.rank() < k.rank(),
            decreases self.entries@.len() - i,
        {
            if !self.entries[i].0.precedes(k) {
                return i;
            }
            i = i + 1;
        }
        i
    }

    /// The index of the entry with the key `k`.
    pub fn find(&self, k: &K) -> (r: Option<usize>)
        requires
            self.wf(),
        ensures
            match r {
                Some(i) => i < self.entries@.len() && self.entries@[i as int].0 == *k
                    && self@.contains_key(*k) && self@[*k] == self.entries@[i as int].1,
                None => !self@.contains_key(*k),
            },
    {
        let i: usize = self.lower_bound(k);
        if i < self.entries.len() && self.entries[i].0.same(k) {
            proof {
                self.lemma_entry(i as int);
            }
            Some(i)
        } else {
            proof {
                if self.has(*k) {
                    let j = self.index_of(*k);
                    assert(self.entries@[j].0.rank() == k.rank());
                    assert(j >= i);
                    if j != i {
                        assert(self.entries@[i as int].0.rank() < self.entries@[j].0.rank());
                    }
                }
            }
            None
        }
    }

    /// The value under `k`.
    pub fn get(&self, k: &K) -> (r: Option<&V>)
        requires
            self.wf(),
        ensures
            match r {
                Some(v) => self@.contains_key(*k) && *v == self@[*k],
                None => !self@.contains_key(*k),
            },
    {
        match self.find(k) {
            Some(i) => Some(&self.entries[i].1),
            None => None,
        }
    }

    /// Whether the map has the key `k`.
    pub fn contains_key(&self, k: &K) -> (r: bool)
        requires
            self.wf(),
        ensures
            r == self@.contains_key(*k),
    {
        self.find(k).is_some()
    }

    /// Put `v` under `k` and return the value it replaces.
    pub fn insert(&mut self, k: K, v: V) -> (r: Option<V>)
        requires
            old(self).wf(),
        ensures
            final(self).wf(),
            final(self)@ == old(self)@.insert(k, v),
            match r {
                Some(w) => old(self)@.contains_key(k) && w == old(self)@[k],
                None => !old(self)@.contains_key(k),
            },
    {
        let i: usize = self.lower_bound(&k);
        if i < self.entries.len() && self.entries[i].0.same(&k) {
            let ghost before = *self;
            let (_, w) = self.entries.remove(i);
            self.entries.insert(i, (k, v));
            proof {
                before.lemma_entry(i as int);
                assert(self.entries@ =~= before.entries@.update(i as int, (k, v)));
                assert forall|a: int, b: int|
                    #![trigger self.entries@[a], self.entries@[b]]
                    0 <= a < b < self.entries@.len() implies self.entries@[a].0.rank()
                    < self.entries@[b].0.rank() by {
                    assert(self.entries@[a].0 == before.entries@[a].0);
                    assert(self.entries@[b].0 == before.entries@[b].0);
                }
                Self::lemma_same_keys(before, *self, i as int);
            }
            Some(w)
        } else {
            let ghost before = *self;
            self.entries.insert(i, (k, v));
            proof {
                assert forall|j: int| 0 <= j < before.entries@.len() implies #[trigger] before.entries@[j].0
                    != k by {
                    if before.entries@[j].0 == k {
                        assert(j >= i);
                        if j != i {
                            assert(before.entries@[i as int].0.rank() < before.entries@[j].0.rank());
                            assert(before.entries@[i as int].0.rank() >= k.rank());
                        }
                    }
                }
                if i < before.entries@.len() {
                    if before.entries@[i as int].0.rank() == k.rank() {
                        K::rank_injective(before.entries@[i as int].0, k);
                    }
                }
                assert(!before.has(k));
                assert forall|a: int, b: int|
                    #![trigger self.entries@[a], self.entries@[b]]
                    0 <= a < b < self.entries@.len() implies self.entries@[a].0.rank()
                    < self.entries@[b].0.rank() by {
                    let a0 = if a < i { a } else { a - 1 };
                    let b0 = if b < i { b } else { b - 1 };
                    if a != i {
                        assert(self.entries@[a] == before.entries@[a0]);
                    }
                    if b != i {
                        assert(self.entries@[b] == before.entries@[b0]);
                    }
                    if b == i {
                        assert(before.entries@[a0].0.rank() < k.rank());
                    }
                    if a == i {
                        assert(before.entries@[i as int].0.rank() > k.rank());
                        if b0 > i {
                            assert(before.entries@[i as int].0.rank() < before.entries@[b0].0.rank());
                        }
                    }
                }
                self.lemma_entry(i as int);
                assert(self@ =~= before@.insert(k, v)) by {
                    assert forall|q: K| self@.contains_key(q) == before@.insert(k, v).contains_key(q) by {
                        if self.has(q) {
                            let j = self.index_of(q);
                            if j < i {
                                assert(before.entries@[j].0 == q);
                            } else if j > i {
                                assert(before.entries@[j - 1].0 == q);
                            }
                        }
                        if before.has(q) {
                            let j = before.index_of(q);
                            if j < i {
                                assert(self.entries@[j].0 == q);
                            } else {
                                assert(self.entries@[j + 1].0 == q);
                            }
                        }
                        if q == k {
                            assert(self.entries@[i as int].0 == q);
                        }
                    }
                    assert forall|q: K| #[trigger] self@.contains_key(q) implies self@[q] == before@.insert(
                        k,
                        v,
                    )[q] by {
                        if q != k {
                            let j = self.index_of(q);
                            self.lemma_entry(j);
                            if j < i {
                                assert(before.entries@[j].0 == q);
                                before.lemma_entry(j);
                            } else {
                                assert(j != i);
                                assert(before.entries@[j - 1].0 == q);
                                before.lemma_entry(j - 1);
                            }
                        }
                    }
                }
            }
            None
        }
    }

    /// Replacing the value at `i` replaces it under that key only.
    proof fn lemma_same_keys(before: Self, after: Self, i: int)
        requires
            before.wf(),
            after.wf(),
            0 <= i < before.entries@.len(),
            after.entries@.len() == before.entries@.len(),
            forall|j: int|
                #![trigger after.entries@[j]]
                #![trigger before.entries@[j]]
                0 <= j < before.entries@.len() ==> after.entries@[j].0 == before.entries@[j].0,
            forall|j: int|
                #![trigger after.entries@[j]]
                0 <= j < before.entries@.len() && j != i ==> after.entries@[j] == before.entries@[j],
        ensures
            after@ == before@.insert(before.entries@[i].0, after.entries@[i].1),
    {
        let m = before@.insert(before.entries@[i].0, after.entries@[i].1);
        assert forall|q: K| after@.contains_key(q) == m.contains_key(q) by {
            if after.has(q) {
                let j = after.index_of(q);
                assert(before.entries@[j].0 == q);
            }
            if before.has(q) {
                let j = before.index_of(q);
                assert(after.entries@[j].0 == q);
            }
            assert(after.entries@[i].0 == before.entries@[i].0);
        }
        assert forall|q: K| #[trigger] after@.contains_key(q) implies after@[q] == m[q] by {
            let j = after.index_of(q);
            after.lemma_entry(j);
            before.lemma_entry(j);
        }
        assert(after@ =~= m);
    }

    /// Take the entry with the key `k` out of the map.
    pub fn remove(&mut self, k: &K) -> (r: Option<V>)
        requires
            old(self).wf(),
        ensures
            final(self).wf(),
            final(self)@ == old(self)@.remove(*k),
            match r {
                Some(w) => old(self)@.contains_key(*k) && w == old(self)@[*k],
                None => !old(self)@.contains_key(*k),
            },
    {
        match self.find(k) {
            None => {
                assert(self@ =~= self@.remove(*k));
                None
            },
            Some(i) => {
                let ghost before = *self;
                let (_, w) = self.entries.remove(i);
                proof {
                    assert(self.entries@ =~= before.entries@.remove(i as int));
                    assert forall|a: int, b: int|
                        #![trigger self.entries@[a], self.entries@[b]]
                        0 <= a < b < self.entries@.len() implies self.entries@[a].0.rank()
                        < self.entries@[b].0.rank() by {
                        let a0 = if a < i { a } else { a + 1 };
                        let b0 = if b < i { b } else { b + 1 };
                        assert(self.entries@[a] == before.entries@[a0]);
                        assert(self.entries@[b] == before.entries@[b0]);
                    }
                    assert forall|q: K| self@.contains_key(q) == before@.remove(*k).contains_key(q) by {
                        if self.has(q) {
                            let j = self.index_of(q);
                            let j0 = if j < i { j } else { j + 1 };
                            assert(before.entries@[j0].0 == q);
                            if q == *k {
                                before.lemma_unique(j0, i as int);
                            }
                        }
                        if before.has(q) && q != *k {
                            let j = before.index_of(q);
                            let j1 = if j < i { j } else { j - 1 };
                            assert(self.entries@[j1].0 == q);
                        }
                    }
                    assert forall|q: K| #[trigger] self@.contains_key(q) implies self@[q]
                        == before@.remove(*k)[q] by {
                        let j = self.index_of(q);
                        let j0 = if j < i { j } else { j + 1 };
                        self.lemma_entry(j);
                        assert(before.entries@[j0].0 == q);
                        before.lemma_entry(j0);
                    }
                    assert(self@ =~= before@.remove(*k));
                }
                Some(w)
            },
        }
    }

    /// Take the entries with these keys out of the map.
    pub fn remove_all(&mut self, keys: &Vec<K>)
        requires
            old(self).wf(),
        ensures
            final(self).wf(),
            final(self)@ == old(self)@.remove_keys(keys@.to_set()),
    {
        let ghost before = self@;
        let mut i: usize = 0;
        assert(self@ =~= before.remove_keys(keys@.subrange(0, 0).to_set()));
        while i < keys.len()
            invariant
                self.wf(),
                i <= keys@.len(),
                self@ == before.remove_keys(keys@.subrange(0, i as int).to_set()),
            decreases keys@.len() - i,
        {
            self.remove(&keys[i]);
            proof {
                let a = keys@.subrange(0, i as int);
                let b = keys@.subrange(0, i + 1);
                assert(b =~= a.push(keys@[i as int]));
                assert forall|k: K| b.contains(k) == (a.contains(k) || k == keys@[i as int]) by {
                    if a.contains(k) {
                        let j = choose|j: int| 0 <= j < a.len() && a[j] == k;
                        assert(b[j] == k);
                    }
                    assert(b[i as int] == keys@[i as int]);
                    if b.contains(k) && k != keys@[i as int] {
                        let j = choose|j: int| 0 <= j < b.len() && b[j] == k;
                        assert(a[j] == k);
                    }
                }
                assert(self@ =~= before.remove_keys(b.to_set()));
            }
            i = i + 1;
        }
        assert(keys@.subrange(0, i as int) =~= keys@);
    }

    /// Drop every entry whose key comes before `min`.
    pub fn drop_below(&mut self, min: &K)
        requires
            old(self).wf(),
        ensures
            final(self).wf(),
            final(self)@ == old(self)@.restrict(
                Set::new(|k: K| old(self)@.contains_key(k) && k.rank() >= min.rank()),
            ),
    {
        let ghost before = *self;
        let i: usize = self.lower_bound(min);
        let kept = self.entries.split_off(i);
        self.entries = kept;
        proof {
            let s = Set::new(|k: K| before@.contains_key(k) && k.rank() >= min.rank());
            assert(self.entries@ =~= before.entries@.subrange(i as int, before.entries@.len() as int));
            assert forall|a: int, b: int|
                #![trigger self.entries@[a], self.entries@[b]]
                0 <= a < b < self.entries@.len() implies self.entries@[a].0.rank()
                < self.entries@[b].0.rank() by {
                assert(self.entries@[a] == before.entries@[a + i]);
                assert(self.entries@[b] == before.entries@[b + i]);
            }
            assert forall|q: K| self@.contains_key(q) == before@.restrict(s).contains_key(q) by {
                if self.has(q) {
                    let j = self.index_of(q);
                    assert(before.entries@[j + i].0 == q);
                }
                if before.has(q) && q.rank() >= min.rank() {
                    let j = before.index_of(q);
                    assert(before.entries@[j].0 == q);
                    assert(j >= i);
                    assert(self.entries@[j - i].0 == q);
                }
            }
            assert forall|q: K| #[trigger] self@.contains_key(q) implies self@[q]
                == before@.restrict(s)[q] by {
                let j = self.index_of(q);
                self.lemma_entry(j);
                assert(before.entries@[j + i].0 == q);
                before.lemma_entry(j + i);
            }
            assert(self@ =~= before@.restrict(s));
        }
    }
}


impl<A: Ident, B: Ident> Ident for (A, B) {
    fn same(&self, other: &Self) -> (r: bool) {
        self.0.same(&other.0) && self.1.same(&other.1)
    }

    fn dup(&self) -> (r: Self) {
        (self.0.dup(), self.1.dup())
    }
}

/// A set kept as a vector without duplicates, in order of insertion.
pub struct VecSet<T> {
    pub items: Vec<T>,
}

impl<T> View for VecSet<T> {
    type V = Set<T>;

    open spec fn view(&self) -> Set<T> {
        self.items@.to_set()
    }
}

impl<T: Ident> VecSet<T> {
    /// No item occurs twice.
    pub open spec fn wf(self) -> bool {
        self.items@.no_duplicates()
    }

    /// The empty set.
    pub fn new() -> (r: Self)
        ensures
            r.wf(),
            r@ == Set::<T>::empty(),
            r.items@.len() == 0,
    {
        let r = VecSet { items: Vec::new() };
        assert(r@ =~= Set::<T>::empty());
        r
    }

    /// The number of items.
    pub fn len(&self) -> (r: usize)
        requires
            self.wf(),
        ensures
            r == self@.len(),
            r == self.items@.len(),
            self@.finite(),
    {
        proof {
            self.items@.unique_seq_to_set();
        }
        self.items.len()
    }

    /// The position of `item`.
    fn position(&self, item: &T) -> (r: Option<usize>)
        ensures
            match r {
                Some(i) => i < self.items@.len() && self.items@[i as int] == *item,
                None => !self@.contains(*item),
            },
    {
        let mut i: usize = 0;
        while i < self.items.len()
            invariant
                i <= self.items@.len(),
                forall|j: int| 0 <= j < i ==> #[trigger] self.items@[j] != *item,
            decreases self.items@.len() - i,
        {
            if self.items[i].same(item) {
                return Some(i);
            }
            i = i + 1;
        }
        None
    }

    /// Whether `item` is in the set.
    pub fn contains(&self, item: &T) -> (r: bool)
        ensures
            r == self@.contains(*item),
    {
        self.position(item).is_some()
    }

    /// Put `item` into the set; whether it was not in it before.
    pub fn insert(&mut self, item: T) -> (r: bool)
        requires
            old(self).wf(),
        ensures
            final(self).wf(),
            final(self)@ == old(self)@.insert(item),
            r == !old(self)@.contains(item),
            !r ==> final(self).items@ == old(self).items@,
            r ==> final(self).items@ == old(self).items@.push(item),
    {
        match self.position(&item) {
            Some(i) => {
                assert(self.items@.contains(item));
                assert(self@ =~= self@.insert(item));
                false
            },
            None => {
                let ghost before = self.items@;
                self.items.push(item);
                proof {
                    let after = self.items@;
                    assert forall|x: T| after.contains(x) == (before.contains(x) || x == item) by {
                        if before.contains(x) {
                            let k = choose|k: int| 0 <= k < before.len() && before[k] == x;
                            assert(after[k] == x);
                        }
                        assert(after[before.len() as int] == item);
                        if after.contains(x) && x != item {
                            let k = choose|k: int| 0 <= k < after.len() && after[k] == x;
                            assert(before[k] == x);
                        }
                    }
                    assert(self@ =~= old(self)@.insert(item));
                }
                true
            },
        }
    }

    /// Take `item` out of the set; whether it was in it.
    pub fn remove(&mut self, item: &T) -> (r: bool)
        requires
            old(self).wf(),
        ensures
            final(self).wf(),
            final(self)@ == old(self)@.remove(*item),
            r == old(self)@.contains(*item),
            !r ==> final(self).items@ == old(self).items@,
    {
        match self.position(item) {
            Some(i) => {
                let ghost before = self.items@;
                self.items.remove(i);
                proof {
                    lemma_remove_set(before, i as int);
                    assert(before.contains(*item));
                }
                true
            },
            None => {
                assert(self@ =~= self@.remove(*item));
                false
            },
        }
    }
}

/// Taking one item out of a sequence without duplicates takes it out of the set.
pub proof fn lemma_remove_set<T>(s: Seq<T>, i: int)
    requires
        s.no_duplicates(),
        0 <= i < s.len(),
    ensures
        s.remove(i).no_duplicates(),
        s.remove(i).to_set() == s.to_set().remove(s[i]),
{
    let t = s.remove(i);
    assert forall|a: int, b: int| 0 <= a < t.len() && 0 <= b < t.len() && a != b implies t[a] != t[b] by {
        let a0 = if a < i { a } else { a + 1 };
        let b0 = if b < i { b } else { b + 1 };
        assert(t[a] == s[a0] && t[b] == s[b0]);
    }
    assert forall|x: T| t.contains(x) == (s.contains(x) && x != s[i]) by {
        if t.contains(x) {
            let k = choose|k: int| 0 <= k < t.len() && t[k] == x;
            let k0 = if k < i { k } else { k + 1 };
            assert(s[k0] == x);
        }
        if s.contains(x) && x != s[i] {
            let k = choose|k: int| 0 <= k < s.len() && s[k] == x;
            let k1 = if k < i { k } else { k - 1 };
            assert(t[k1] == x);
        }
    }
    assert(t.to_set() =~= s.to_set().remove(s[i]));
}

impl<A: Ident, B: Ident> VecSet<(A, B)> {
    /// Take out every pair whose first part is `first`.
    pub fn remove_first(&mut self, first: &A)
        requires
            old(self).wf(),
        ensures
            final(self).wf(),
            final(self)@ == old(self)@.filter(|p: (A, B)| p.0 != *first),
    {
        let ghost before = self@;
        let mut i: usize = 0;
        while i < self.items.len()
            invariant
                self.wf(),
                i <= self.items@.len(),
                forall|j: int| 0 <= j < i ==> (#[trigger] self.items@[j]).0 != *first,
                forall|p: (A, B)| p.0 != *first ==> #[trigger] self@.contains(p) == before.contains(p),
                forall|p: (A, B)| #[trigger] self@.contains(p) ==> before.contains(p),
            decreases self.items@.len() - i,
        {
            if self.items[i].0.same(first) {
                let ghost now = *self;
                self.items.remove(i);
                proof {
                    lemma_remove_set(now.items@, i as int);
                    assert(self@ == now@.remove(now.items@[i as int]));
                    assert forall|p: (A, B)| #[trigger] self@.contains(p) implies before.contains(p) by {
                        assert(now@.contains(p));
                    }
                    assert forall|p: (A, B)| p.0 != *first implies #[trigger] self@.contains(p)
                        == before.contains(p) by {
                        assert(now@.contains(p) == before.contains(p));
                    }
                }
            } else {
                i = i + 1;
            }
        }
        proof {
            assert forall|p: (A, B)| #[trigger] self@.contains(p) implies p.0 != *first by {
                let k = choose|k: int| 0 <= k < self.items@.len() && self.items@[k] == p;
                assert(self.items@[k].0 != *first);
            }
            assert(self@ =~= before.filter(|p: (A, B)| p.0 != *first));
        }
    }
}

} // verus!
