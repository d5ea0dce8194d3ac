//! Byte strings that are identifiers.

use vstd::prelude::*;

use crate::ident::{Ident, Ranked};

verus! {

/// A byte string of fixed length.
#[derive(Clone, Copy, Debug, PartialEq, Eq)]
pub struct Bytes<const N: usize>(pub [u8; N]);

/// The value of a byte string read as a big-endian number.
pub open spec fn be_value(s: Seq<u8>) -> nat
    decreases s.len(),
{
    if s.len() == 0 {
        0
    } else {
        be_value(s.drop_last()) * 256 + s.last() as nat
    }
}

/// The first difference decides which of two strings of one length is smaller.
pub proof fn lemma_be_value_lt(a: Seq<u8>, b: Seq<u8>, i: int)
    requires
        a.len() == b.len(),
        0 <= i < a.len(),
        forall|j: int| 0 <= j < i ==> a[j] == b[j],
        a[i] < b[i],
    ensures
        be_value(a) < be_value(b),
    decreases a.len(),
{
    if i == a.len() - 1 {
        assert(a.drop_last() =~= b.drop_last());
    } else {
        lemma_be_value_lt(a.drop_last(), b.drop_last(), i);
    }
}

/// Two strings of one length with one value are the same.
pub proof fn lemma_be_value_injective(a: Seq<u8>, b: Seq<u8>)
    requires
        a.len() == b.len(),
        be_value(a) == be_value(b),
    ensures
        a == b,
    decreases a.len(),
{
    if a.len() > 0 {
        lemma_be_value_injective(a.drop_last(), b.drop_last());
        assert(a =~= a.drop_last().push(a.last()));
        assert(b =~= b.drop_last().push(b.last()));
    }
}

impl<const N: usize> Bytes<N> {
    /// The bytes.
    pub open spec fn seq(self) -> Seq<u8> {
        self.0@
    }
}

impl<const N: usize> Ident for Bytes<N> {
    fn same(&self, other: &Self) -> (r: bool) {
        let mut i: usize = 0;
        while i < N
            invariant
                i <= N,
                forall|j: int| 0 <= j < i ==> self.0@[j] == other.0@[j],
            decreases N - i,
        {
            if self.0[i] != other.0[i] {
                assert(self.0@ != other.0@);
                return false;
            }
            i = i + 1;
        }
        assert(self.0@ =~= other.0@);
        assert(self.0 == other.0);
        true
    }

    fn dup(&self) -> (r: Self) {
        Bytes(self.0)
    }
}

impl<const N: usize> Ranked for Bytes<N> {
    open spec fn rank(self) -> int {
        be_value(self.0@) as int
    }

    proof fn rank_injective(a: Self, b: Self) {
        lemma_be_value_injective(a.0@, b.0@);
        assert(a.0@ =~= b.0@);
        assert(a.0 == b.0);
    }

    fn precedes(&self, other: &Self) -> (r: bool) {
        let mut i: usize = 0;
        while i < N
            invariant
                i <= N,
                forall|j: int| 0 <= j < i ==> self.0@[j] == other.0@[j],
            decreases N - i,
        {
            if self.0[i] < other.0[i] {
                proof {
                    lemma_be_value_lt(self.0@, other.0@, i as int);
                }
                return true;
            }
            if self.0[i] > other.0[i] {
                proof {
                    lemma_be_value_lt(other.0@, self.0@, i as int);
                }
                return false;
            }
            i = i + 1;
        }
        assert(self.0@ =~= other.0@);
        false
    }
}

/// The longest byte string that [`ShortBytes`] holds.
pub const SHORT_BYTES_MAX: usize = 66;

/// A byte string of up to [`SHORT_BYTES_MAX`] bytes, held in place.
#[derive(Clone, Copy, Debug, PartialEq, Eq)]
pub struct ShortBytes {
    pub len: u64,
    pub data: Bytes<66>,
}

impl ShortBytes {
    /// The length is within the array, and the unused part is zero.
    pub open spec fn wf(self) -> bool {
        &&& self.len <= SHORT_BYTES_MAX
        &&& forall|i: int| self.len <= i < SHORT_BYTES_MAX ==> self.data.0@[i] == 0
    }

    /// The bytes.
    pub open spec fn seq(self) -> Seq<u8> {
        self.data.0@.subrange(0, self.len as int)
    }

    /// The string of `bytes`, unless it is too long.
    pub fn from_slice(bytes: &[u8]) -> (r: Option<Self>)
        ensures
            match r {
                Some(s) => s.wf() && s.seq() == bytes@,
                None => bytes@.len() > SHORT_BYTES_MAX,
            },
    {
        let n: usize = bytes.len();
        if n > SHORT_BYTES_MAX {
            return None;
        }
        let mut data: [u8; 66] = [0u8; 66];
        let mut i: usize = 0;
        while i < n
            invariant
                i <= n <= SHORT_BYTES_MAX,
                n == bytes@.len(),
                forall|j: int| 0 <= j < i ==> data@[j] == bytes@[j],
                forall|j: int| i <= j < SHORT_BYTES_MAX ==> data@[j] == 0,
            decreases n - i,
        {
            data[i] = bytes[i];
            i = i + 1;
        }
        let s = ShortBytes { len: n as u64, data: Bytes(data) };
        assert(s.seq() =~= bytes@);
        Some(s)
    }

    /// The bytes.
    pub fn to_vec(&self) -> (r: Vec<u8>)
        requires
            self.len <= SHORT_BYTES_MAX,
        ensures
            r@ == self.seq(),
    {
        let mut out: Vec<u8> = Vec::new();
        let mut i: usize = 0;
        while i < self.len as usize
            invariant
                i <= self.len <= SHORT_BYTES_MAX,
                out@ == self.data.0@.subrange(0, i as int),
            decreases self.len - i,
        {
            out.push(self.data.0[i]);
            assert(out@ =~= self.data.0@.subrange(0, i + 1));
            i = i + 1;
        }
        out
    }
}

impl Ident for ShortBytes {
    fn same(&self, other: &Self) -> (r: bool) {
        self.len == other.len && self.data.same(&other.data)
    }

    fn dup(&self) -> (r: Self) {
        *self
    }
}

/// The power of 256 that one array of a short string stands for.
pub open spec fn be_bound(n: nat) -> nat
    decreases n,
{
    if n == 0 {
        1
    } else {
        be_bound((n - 1) as nat) * 256
    }
}

/// A byte string of length `n` is worth less than `256^n`.
pub proof fn lemma_be_value_bound(s: Seq<u8>)
    ensures
        be_value(s) < be_bound(s.len()),
    decreases s.len(),
{
    if s.len() > 0 {
        lemma_be_value_bound(s.drop_last());
    }
}

proof fn lemma_lex(a: int, x: int, b: int, y: int, bound: int)
    by (nonlinear_arith)
    requires
        0 <= x < bound,
        0 <= y < bound,
    ensures
        a < b ==> a * bound + x < b * bound + y,
        a * bound + x == b * bound + y ==> a == b && x == y,
{
}

/// One more than the greatest number that the length of a short string can be.
pub open spec fn len_bound() -> int {
    u64::MAX + 1
}

impl Ranked for ShortBytes {
    /// Strings are in byte order, and one that begins another comes first.
    open spec fn rank(self) -> int {
        self.data.rank() * len_bound() + self.len
    }

    proof fn rank_injective(a: Self, b: Self) {
        lemma_lex(a.data.rank(), a.len as int, b.data.rank(), b.len as int, len_bound());
        Bytes::<66>::rank_injective(a.data, b.data);
    }

    fn precedes(&self, other: &Self) -> (r: bool) {
        proof {
            let (x, y) = (self.data.rank(), other.data.rank());
            lemma_lex(x, self.len as int, y, other.len as int, len_bound());
            lemma_lex(y, other.len as int, x, self.len as int, len_bound());
        }
        if self.data.precedes(&other.data) {
            true
        } else if self.data.same(&other.data) {
            self.len < other.len
        } else {
            proof {
                if self.data.rank() == other.data.rank() {
                    Bytes::<66>::rank_injective(self.data, other.data);
                }
            }
            false
        }
    }
}

/// Two short strings are ordered by the first byte in which they differ.
pub proof fn law_short_bytes_in_byte_order(a: ShortBytes, b: ShortBytes, i: int)
    requires
        a.wf(),
        b.wf(),
        0 <= i < a.len,
        0 <= i < b.len,
        a.seq().subrange(0, i) == b.seq().subrange(0, i),
        a.seq()[i] < b.seq()[i],
    ensures
        a.rank() < b.rank(),
{
    assert forall|j: int| 0 <= j < i implies a.data.0@[j] == b.data.0@[j] by {
        let (x, y) = (a.seq(), b.seq());
        assert(x.subrange(0, i)[j] == y.subrange(0, i)[j]);
        assert(x[j] == a.data.0@[j] && y[j] == b.data.0@[j]);
        assert(x.subrange(0, i)[j] == x[j] && y.subrange(0, i)[j] == y[j]);
    }
    lemma_be_value_lt(a.data.0@, b.data.0@, i);
    lemma_lex(a.data.rank(), a.len as int, b.data.rank(), b.len as int, len_bound());
}

/// A short string that begins another one comes before it.
pub proof fn law_short_bytes_prefix_first(a: ShortBytes, b: ShortBytes)
    requires
        a.wf(),
        b.wf(),
        a.len < b.len,
        b.seq().subrange(0, a.len as int) == a.seq(),
    ensures
        a.rank() < b.rank(),
{
    let x = a.data.0@;
    let y = b.data.0@;
    assert forall|j: int| 0 <= j < SHORT_BYTES_MAX implies x[j] <= y[j] && (j < a.len ==> x[j] == y[j]) by {
        if j < a.len {
            assert(b.seq().subrange(0, a.len as int)[j] == a.seq()[j]);
        }
    }
    lemma_be_value_le(x, y);
    lemma_lex(a.data.rank(), a.len as int, b.data.rank(), b.len as int, len_bound());
}

/// A string of bytes that are nowhere greater is worth no more.
proof fn lemma_be_value_le(a: Seq<u8>, b: Seq<u8>)
    requires
        a.len() == b.len(),
        forall|j: int| 0 <= j < a.len() ==> a[j] <= b[j],
    ensures
        be_value(a) <= be_value(b),
    decreases a.len(),
{
    if a.len() > 0 {
        lemma_be_value_le(a.drop_last(), b.drop_last());
    }
}

/// Whether two byte strings are the same.
pub fn same_bytes(a: &[u8], b: &[u8]) -> (r: bool)
    ensures
        r == (a@ == b@),
{
    if a.len() != b.len() {
        return false;
    }
    let mut i: usize = 0;
    while i < a.len()
        invariant
            i <= a@.len(),
            a@.len() == b@.len(),
            forall|j: int| 0 <= j < i ==> a@[j] == b@[j],
        decreases a@.len() - i,
    {
        if a[i] != b[i] {
            return false;
        }
        i = i + 1;
    }
    assert(a@ =~= b@);
    true
}

} // verus!
