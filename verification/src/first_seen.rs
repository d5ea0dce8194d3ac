//! Numbers for values, in the order in which they are first seen.

use vstd::prelude::*;
use vstd::string::*;

use crate::bytes::{same_bytes, ShortBytes};
use crate::ident::Ident;
use crate::network::multiaddr::{ComponentView, IpAddr, Multiaddr};

verus! {

/// A value that is known by what it holds.
pub trait Keyed: Sized {
    /// What the value holds.
    type Key;

    /// What the value holds.
    spec fn key(self) -> Self::Key;

    /// Whether two values hold the same.
    fn same_key(&self, other: &Self) -> (r: bool)
        ensures
            r == (self.key() == other.key()),
    ;

    /// A value that holds the same.
    fn copy_key(&self) -> (r: Self)
        ensures
            r.key() == self.key(),
    ;
}

impl Keyed for u64 {
    type Key = u64;

    open spec fn key(self) -> u64 {
        self
    }

    fn same_key(&self, other: &Self) -> (r: bool) {
        *self == *other
    }

    fn copy_key(&self) -> (r: Self) {
        *self
    }
}

impl Keyed for ShortBytes {
    type Key = ShortBytes;

    open spec fn key(self) -> ShortBytes {
        self
    }

    fn same_key(&self, other: &Self) -> (r: bool) {
        self.same(other)
    }

    fn copy_key(&self) -> (r: Self) {
        *self
    }
}

impl Keyed for IpAddr {
    type Key = IpAddr;

    open spec fn key(self) -> IpAddr {
        self
    }

    fn same_key(&self, other: &Self) -> (r: bool) {
        self.same(other)
    }

    fn copy_key(&self) -> (r: Self) {
        self.dup()
    }
}

impl Keyed for Multiaddr {
    type Key = Seq<ComponentView>;

    open spec fn key(self) -> Seq<ComponentView> {
        self@
    }

    fn same_key(&self, other: &Self) -> (r: bool) {
        self.same(other)
    }

    fn copy_key(&self) -> (r: Self) {
        self.copy()
    }
}

impl Keyed for String {
    type Key = Seq<char>;

    open spec fn key(self) -> Seq<char> {
        self@
    }

    fn same_key(&self, other: &Self) -> (r: bool) {
        *self == *other
    }

    fn copy_key(&self) -> (r: Self) {
        self.clone()
    }
}

impl Keyed for Vec<u8> {
    type Key = Seq<u8>;

    open spec fn key(self) -> Seq<u8> {
        self@
    }

    fn same_key(&self, other: &Self) -> (r: bool) {
        same_bytes(self.as_slice(), other.as_slice())
    }

    fn copy_key(&self) -> (r: Self) {
        vstd::slice::slice_to_vec(self.as_slice())
    }
}

/// The keys of values.
pub open spec fn keys_of<K: Keyed>(items: Seq<K>) -> Seq<K::Key> {
    items.map_values(|k: K| k.key())
}

/// The number of `k` among `seen`: one for the first. One more than there are
/// where it was not seen.
pub open spec fn number_of<V>(seen: Seq<V>, k: V) -> nat {
    if seen.contains(k) {
        (seen.index_of(k) + 1) as nat
    } else {
        seen.len() + 1
    }
}

/// `seen` with `k`.
pub open spec fn with_seen<V>(seen: Seq<V>, k: V) -> Seq<V> {
    if seen.contains(k) {
        seen
    } else {
        seen.push(k)
    }
}

/// `seen` with `more`, one after the other.
pub open spec fn with_all_seen<V>(seen: Seq<V>, more: Seq<V>) -> Seq<V>
    decreases more.len(),
{
    if more.len() == 0 {
        seen
    } else {
        with_seen(with_all_seen(seen, more.drop_last()), more.last())
    }
}

/// Values in the order in which they were first seen.
pub struct FirstSeen<K> {
    pub items: Vec<K>,
}

impl<K: Keyed> View for FirstSeen<K> {
    type V = Seq<K::Key>;

    open spec fn view(&self) -> Seq<K::Key> {
        keys_of(self.items@)
    }
}

impl<K: Keyed> FirstSeen<K> {
    /// No value occurs twice.
    pub open spec fn wf(self) -> bool {
        self@.no_duplicates()
    }

    /// Nothing was seen.
    pub fn new() -> (r: Self)
        ensures
            r.wf(),
            r@ == Seq::<K::Key>::empty(),
    {
        let r = FirstSeen { items: Vec::new() };
        assert(r@ =~= Seq::<K::Key>::empty());
        r
    }

    /// The number of a value, which it keeps from then on.
    pub fn number(&mut self, k: &K) -> (r: usize)
        requires
            old(self).wf(),
        ensures
            final(self).wf(),
            final(self)@ == with_seen(old(self)@, k.key()),
            r == number_of(old(self)@, k.key()),
            r >= 1,
    {
        let ghost start = self@;
        let mut i: usize = 0;
        while i < self.items.len()
            invariant
                i <= self.items@.len(),
                start == self@,
                *self == *old(self),
                start.no_duplicates(),
                forall|j: int| 0 <= j < i ==> start[j] != k.key(),
            decreases self.items@.len() - i,
        {
            assert(start[i as int] == self.items@[i as int].key());
            if self.items[i].same_key(k) {
                proof {
                    assert(start.contains(k.key()));
                    assert(start[start.index_of(k.key())] == k.key());
                    assert(start.index_of(k.key()) == i);
                }
                return i + 1;
            }
            i = i + 1;
        }
        let copy = k.copy_key();
        self.items.push(copy);
        assert(self@ =~= start.push(k.key()));
        self.items.len()
    }
}

/// A value keeps its number whatever is seen after it.
pub proof fn law_numbers_are_stable<V>(seen: Seq<V>, k: V, other: V)
    requires
        seen.no_duplicates(),
    ensures
        number_of(with_seen(with_seen(seen, k), other), k) == number_of(seen, k),
{
    let first = with_seen(seen, k);
    let second = with_seen(first, other);
    assert(first.no_duplicates());
    assert(second.no_duplicates());
    if seen.contains(k) {
        let i = seen.index_of(k);
        assert(seen[i] == k);
        assert(second[i] == k);
        assert(second.contains(k));
        assert(second.index_of(k) == i);
    } else {
        let n = seen.len() as int;
        assert(first[n] == k);
        assert(second[n] == k);
        assert(second.contains(k));
        assert(second.index_of(k) == n);
    }
}

/// Different values have different numbers.
pub proof fn law_numbers_are_distinct<V>(seen: Seq<V>, a: V, b: V)
    requires
        seen.no_duplicates(),
        a != b,
    ensures
        number_of(with_seen(seen, a), b) != number_of(seen, a),
{
    let first = with_seen(seen, a);
    if seen.contains(a) {
        assert(seen[seen.index_of(a)] == a);
        if seen.contains(b) {
            assert(seen[seen.index_of(b)] == b);
        }
    } else if first.contains(b) {
        let j = first.index_of(b);
        assert(first[j] == b);
        assert(j < seen.len());
    }
}

} // verus!
