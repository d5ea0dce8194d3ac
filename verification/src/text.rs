//! Texts: numbers in decimal, lists, and the order of texts.

use itertools::Itertools;
use vstd::prelude::*;
use vstd::string::*;

verus! {

/// The digit `d` as a character.
pub open spec fn digit(d: nat) -> char
    recommends
        d < 10,
{
    seq!['0', '1', '2', '3', '4', '5', '6', '7', '8', '9'][d as int]
}

/// `n` in decimal, without leading zeros.
pub open spec fn decimal(n: nat) -> Seq<char>
    decreases n,
{
    if n < 10 {
        seq![digit(n)]
    } else {
        decimal(n / 10).push(digit(n % 10))
    }
}

/// `i` in decimal, with a sign where it is negative.
pub open spec fn signed_decimal(i: int) -> Seq<char> {
    if i < 0 {
        "-"@ + decimal((-i) as nat)
    } else {
        decimal(i as nat)
    }
}

/// The text of a digit.
fn digit_text(d: u64) -> (r: &'static str)
    requires
        d < 10,
    ensures
        r@ == seq![digit(d as nat)],
{
    proof {
        reveal_strlit("0");
        reveal_strlit("1");
        reveal_strlit("2");
        reveal_strlit("3");
        reveal_strlit("4");
        reveal_strlit("5");
        reveal_strlit("6");
        reveal_strlit("7");
        reveal_strlit("8");
        reveal_strlit("9");
    }
    let r = match d {
        0 => "0",
        1 => "1",
        2 => "2",
        3 => "3",
        4 => "4",
        5 => "5",
        6 => "6",
        7 => "7",
        8 => "8",
        _ => "9",
    };
    assert(r@ =~= seq![digit(d as nat)]);
    r
}

/// `n` in decimal.
pub fn decimal_text(n: u64) -> (r: String)
    ensures
        r@ == decimal(n as nat),
    decreases n,
{
    if n < 10 {
        digit_text(n).to_owned()
    } else {
        let head = decimal_text(n / 10);
        let r = head.concat(digit_text(n % 10));
        assert(r@ =~= decimal(n as nat));
        r
    }
}

/// `i` in decimal, with a sign where it is negative.
pub fn signed_decimal_text(i: i64) -> (r: String)
    ensures
        r@ == signed_decimal(i as int),
{
    if i < 0 {
        let magnitude: u64 = (-(i + 1)) as u64 + 1;
        "-".to_owned().concat(decimal_text(magnitude).as_str())
    } else {
        decimal_text(i as u64)
    }
}

/// Texts, as values.
pub open spec fn texts(items: Seq<String>) -> Seq<Seq<char>> {
    items.map_values(|s: String| s@)
}

/// The texts, with `separator` between any two.
pub open spec fn joined(items: Seq<Seq<char>>, separator: Seq<char>) -> Seq<char>
    decreases items.len(),
{
    if items.len() == 0 {
        Seq::empty()
    } else if items.len() == 1 {
        items[0]
    } else {
        joined(items.drop_last(), separator) + separator + items.last()
    }
}

/// The texts, with `separator` between any two.
pub fn join(items: &Vec<String>, separator: &str) -> (r: String)
    ensures
        r@ == joined(texts(items@), separator@),
{
    if items.len() == 0 {
        let r = String::new();
        assert(r@ =~= Seq::<char>::empty());
        return r;
    }
    let ghost all = texts(items@);
    let mut out: String = items[0].clone();
    let mut i: usize = 1;
    assert(all.subrange(0, 1) =~= seq![all[0]]);
    while i < items.len()
        invariant
            1 <= i <= items@.len(),
            all == texts(items@),
            out@ == joined(all.subrange(0, i as int), separator@),
        decreases items@.len() - i,
    {
        proof {
            let next = all.subrange(0, i + 1);
            assert(next.drop_last() =~= all.subrange(0, i as int));
            assert(next.last() == items@[i as int]@);
        }
        out = out.concat(separator).concat(items[i].as_str());
        i = i + 1;
    }
    assert(all.subrange(0, i as int) =~= all);
    out
}

/// Copies of texts.
pub fn copy_texts(items: &Vec<String>) -> (r: Vec<String>)
    ensures
        texts(r@) == texts(items@),
{
    let mut out: Vec<String> = Vec::new();
    let mut i: usize = 0;
    while i < items.len()
        invariant
            i <= items@.len(),
            out@.len() == i,
            forall|j: int| 0 <= j < i ==> (#[trigger] out@[j])@ == items@[j]@,
        decreases items@.len() - i,
    {
        out.push(items[i].clone());
        i = i + 1;
    }
    assert(texts(out@) =~= texts(items@));
    out
}

/// Whether `item` is one of `items`.
pub fn contains_text(items: &Vec<String>, item: &String) -> (r: bool)
    ensures
        r == texts(items@).contains(item@),
{
    let mut i: usize = 0;
    while i < items.len()
        invariant
            i <= items@.len(),
            forall|j: int| 0 <= j < i ==> texts(items@)[j] != item@,
        decreases items@.len() - i,
    {
        if items[i] == *item {
            assert(texts(items@)[i as int] == item@);
            return true;
        }
        i = i + 1;
    }
    false
}

/// Whether the byte string `a` comes before `b`: the first byte that differs
/// decides, and what ends first comes first.
pub open spec fn bytes_before(a: Seq<u8>, b: Seq<u8>) -> bool
    decreases a.len(),
{
    if b.len() == 0 {
        false
    } else if a.len() == 0 {
        true
    } else if a[0] != b[0] {
        a[0] < b[0]
    } else {
        bytes_before(a.drop_first(), b.drop_first())
    }
}

/// Byte strings with their numbers, as values.
pub open spec fn numbered_views(items: Seq<(Vec<u8>, usize)>) -> Seq<(Seq<u8>, usize)> {
    items.map_values(|e: (Vec<u8>, usize)| (e.0@, e.1))
}

/// Sort with `itertools`' `Itertools::sorted_unstable`, which collects what an
/// iterator gives and sorts it by `Ord`. That order is the one of byte strings,
/// then the one of numbers. What comes out is what went in, in ascending order.
#[verifier::external_body]
fn sort_numbered(items: Vec<(Vec<u8>, usize)>) -> (r: Vec<(Vec<u8>, usize)>)
    ensures
        numbered_views(r@).to_multiset() == numbered_views(items@).to_multiset(),
        forall|i: int, j: int|
            #![trigger r@[i], r@[j]]
            0 <= i < j < r@.len() ==> bytes_before(r@[i].0@, r@[j].0@) || (r@[i].0@ == r@[j].0@
                && r@[i].1 <= r@[j].1),
{
    items.into_iter().sorted_unstable().collect()
}

/// Whether `order` lists the positions of `keys` by ascending key, and by
/// position where keys are equal.
pub open spec fn is_sort_order(keys: Seq<Seq<u8>>, order: Seq<usize>) -> bool {
    &&& order.len() == keys.len()
    &&& order.no_duplicates()
    &&& forall|i: int| 0 <= i < order.len() ==> (#[trigger] order[i]) < keys.len()
    &&& forall|i: int, j: int|
        #![trigger order[i], order[j]]
        0 <= i < j < order.len() ==> bytes_before(keys[order[i] as int], keys[order[j] as int]) || (
        keys[order[i] as int] == keys[order[j] as int] && order[i] < order[j])
}

/// Keys, as values.
pub open spec fn key_views(keys: Seq<Vec<u8>>) -> Seq<Seq<u8>> {
    keys.map_values(|k: Vec<u8>| k@)
}

/// Numbered items that hold the same as `keys` do hold each position once.
proof fn lemma_sort_order(keys: Seq<Seq<u8>>, before: Seq<(Seq<u8>, usize)>, after: Seq<(Seq<u8>, usize)>)
    requires
        before.len() == keys.len(),
        keys.len() <= usize::MAX,
        forall|i: int| 0 <= i < keys.len() ==> #[trigger] before[i] == (keys[i], i as usize),
        after.to_multiset() == before.to_multiset(),
    ensures
        after.len() == keys.len(),
        forall|i: int|
            0 <= i < after.len() ==> (#[trigger] after[i]).1 < keys.len() && after[i].0
                == keys[after[i].1 as int],
        forall|i: int, j: int|
            #![trigger after[i], after[j]]
            0 <= i < after.len() && 0 <= j < after.len() && i != j ==> after[i].1 != after[j].1,
{
    broadcast use vstd::seq_lib::group_to_multiset_ensures;

    after.to_multiset_ensures();
    before.to_multiset_ensures();
    assert(after.len() == before.len());
    assert(before.no_duplicates());
    before.lemma_multiset_has_no_duplicates();
    after.lemma_multiset_has_no_duplicates_conv();
    assert forall|i: int| 0 <= i < after.len() implies (#[trigger] after[i]).1 < keys.len()
        && after[i].0 == keys[after[i].1 as int] by {
        assert(after.to_multiset().count(after[i]) > 0) by {
            assert(after.contains(after[i]));
        }
        assert(before.contains(after[i]));
        let k = choose|k: int| 0 <= k < before.len() && before[k] == after[i];
        assert(before[k] == (keys[k], k as usize));
    }
}

/// The positions of `keys` by ascending key.
pub fn sort_order(keys: Vec<Vec<u8>>) -> (r: Vec<usize>)
    ensures
        is_sort_order(key_views(keys@), r@),
{
    let ghost all = key_views(keys@);
    let mut numbered: Vec<(Vec<u8>, usize)> = Vec::new();
    let mut i: usize = 0;
    while i < keys.len()
        invariant
            i <= keys@.len(),
            all == key_views(keys@),
            numbered@.len() == i,
            forall|j: int|
                0 <= j < i ==> #[trigger] numbered_views(numbered@)[j] == (all[j], j as usize),
        decreases keys@.len() - i,
    {
        let ghost before = numbered@;
        let key = vstd::slice::slice_to_vec(keys[i].as_slice());
        numbered.push((key, i));
        assert(numbered_views(numbered@) =~= numbered_views(before).push((all[i as int], i)));
        i = i + 1;
    }
    let sorted = sort_numbered(numbered);
    let ghost after = numbered_views(sorted@);
    proof {
        assert(keys@.len() <= usize::MAX);
        lemma_sort_order(all, numbered_views(numbered@), after);
    }
    let mut order: Vec<usize> = Vec::new();
    let mut k: usize = 0;
    while k < sorted.len()
        invariant
            k <= sorted@.len(),
            order@.len() == k,
            forall|j: int| 0 <= j < k ==> #[trigger] order@[j] == sorted@[j].1,
        decreases sorted@.len() - k,
    {
        order.push(sorted[k].1);
        k = k + 1;
    }
    proof {
        assert forall|a: int| 0 <= a < order@.len() implies (#[trigger] order@[a]) < all.len() by {
            assert(after[a].1 < all.len());
        }
        assert forall|a: int, b: int|
            #![trigger order@[a], order@[b]]
            0 <= a < b < order@.len() implies bytes_before(
            all[order@[a] as int],
            all[order@[b] as int],
        ) || (all[order@[a] as int] == all[order@[b] as int] && order@[a] < order@[b]) by {
            assert(after[a] == (sorted@[a].0@, sorted@[a].1));
            assert(after[b] == (sorted@[b].0@, sorted@[b].1));
            assert(after[a].1 != after[b].1);
        }
        assert forall|a: int, b: int|
            0 <= a < order@.len() && 0 <= b < order@.len() && a != b implies order@[a]
            != order@[b] by {
            assert(after[a].1 != after[b].1);
        }
    }
    order
}

/// Texts as the bytes that they are compared by.
pub open spec fn text_keys(items: Seq<Seq<char>>) -> Seq<Seq<u8>> {
    items.map_values(|t: Seq<char>| vstd::utf8::encode_utf8(t))
}

/// Whether `r` is `items` by ascending order.
pub open spec fn is_sorted_version(items: Seq<Seq<char>>, r: Seq<Seq<char>>) -> bool {
    exists|order: Seq<usize>|
        #[trigger] is_sort_order(text_keys(items), order) && r == order.map_values(
            |i: usize| items[i as int],
        )
}

/// The bytes that a text is compared by.
pub fn text_key(text: &String) -> (r: Vec<u8>)
    ensures
        r@ == vstd::utf8::encode_utf8(text@),
{
    vstd::slice::slice_to_vec(text.as_str().as_bytes())
}

/// The texts in ascending order.
pub fn sorted_texts(items: &Vec<String>) -> (r: Vec<String>)
    ensures
        is_sorted_version(texts(items@), texts(r@)),
{
    let ghost all = texts(items@);
    let mut keys: Vec<Vec<u8>> = Vec::new();
    let mut i: usize = 0;
    while i < items.len()
        invariant
            i <= items@.len(),
            all == texts(items@),
            keys@.len() == i,
            forall|j: int| 0 <= j < i ==> #[trigger] key_views(keys@)[j] == text_keys(all)[j],
        decreases items@.len() - i,
    {
        let ghost before = keys@;
        let key = text_key(&items[i]);
        keys.push(key);
        assert(key_views(keys@) =~= key_views(before).push(key@));
        i = i + 1;
    }
    assert(key_views(keys@) =~= text_keys(all));
    let order = sort_order(keys);
    let mut out: Vec<String> = Vec::new();
    let mut k: usize = 0;
    while k < order.len()
        invariant
            k <= order@.len(),
            all == texts(items@),
            is_sort_order(text_keys(all), order@),
            out@.len() == k,
            forall|j: int| 0 <= j < k ==> (#[trigger] out@[j])@ == all[order@[j] as int],
        decreases order@.len() - k,
    {
        assert(order@[k as int] < all.len());
        out.push(items[order[k]].clone());
        k = k + 1;
    }
    assert(texts(out@) =~= order@.map_values(|i: usize| all[i as int]));
    out
}

} // verus!
