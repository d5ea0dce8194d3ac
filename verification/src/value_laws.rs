//! What holds of keys, addresses, texts and names, and of descriptions of the
//! network, call by call.

use vstd::prelude::*;
use vstd::string::*;

use crate::discovery::state::{addresses, ConnectionId};
use crate::engine::event::PeerId;
use crate::first_seen::{law_numbers_are_distinct, law_numbers_are_stable, number_of, with_seen};
use crate::ident::{OrdMap, Ranked};
use crate::network::multiaddr::{
    contains_address, peer_in, transport_in, without_peer, ComponentView, Multiaddr, Protocol, TransportProtocol,
};
use crate::network::peer::{validator_views, ValidatorView};
use crate::network::quint_ids::{name, Names};
use crate::network::report::{
    id_keys, is_ascending_version, is_by_address, validator_addresses, NetworkStateDump,
};
use crate::network::series_laws::lemma_decimal_injective;
use crate::network::state::{peer_views, State};
use crate::network::validator_proof::codec::{
    Codec, ProofRequest, ProofRequestView, ReadStep, StreamState,
};
use crate::signing::{
    all_zero, ed25519_is_public_key, ed25519_public_key, ed25519_signature, ed25519_verifies,
    erased_signing_key, signing_key_signature, Ed25519, Error, InvalidSignature, PrivateKey,
    PublicKey, Signature,
};
use crate::text::{
    bytes_before, contains_text, decimal, digit, is_sort_order, join, joined, signed_decimal_text, decimal_text,
    text_keys, texts,
};
use crate::votekeeper::keeper::lemma_push_contains;

verus! {

/// A signature is accepted exactly where it is valid, by Ed25519, for the key and
/// the message.
pub proof fn law_verdict_is_that_of_ed25519(
    key: PublicKey,
    msg: &[u8],
    signature: Signature,
    verdict: Result<(), InvalidSignature>,
)
    requires
        call_ensures(PublicKey::verify, (&key, msg, &signature), verdict),
    ensures
        verdict is Ok <==> ed25519_verifies(key@, msg@, signature@),
{
}

/// Bytes are decoded exactly where there are as many as it takes, and a public key
/// where they are one besides; what is decoded has these bytes.
pub proof fn law_decoding_checks_the_bytes(
    bytes: &[u8],
    signature: Result<Signature, Error>,
    key: Result<PublicKey, Error>,
)
    requires
        call_ensures(Ed25519::decode_signature, (bytes,), signature),
        call_ensures(Ed25519::decode_public_key, (bytes,), key),
    ensures
        signature is Ok <==> bytes@.len() == 64,
        signature matches Ok(s) ==> s@ == bytes@,
        key is Ok <==> bytes@.len() == 32 && ed25519_is_public_key(bytes@),
        key matches Ok(k) ==> k@ == bytes@,
        bytes@.len() != 64 ==> signature == Err::<Signature, Error>(Error::InvalidSliceLength),
        bytes@.len() != 32 ==> (key matches Err(e) && e == Error::InvalidSliceLength),
        bytes@.len() == 32 && !ed25519_is_public_key(bytes@) ==> (key matches Err(e) && e
            == Error::MalformedPublicKey),
{
}

/// The key of a seed has that seed and the public key of it, and signs with it,
/// until it is erased: then the seed is zero, the public key stays, and what is
/// signed comes from what is left of the key.
pub proof fn law_key_signs_until_erased(
    seed: [u8; 32],
    key: PrivateKey,
    public_key: PublicKey,
    msg: &[u8],
    signature: Signature,
    erased: &mut PrivateKey,
    after: &PrivateKey,
    still: PublicKey,
    left: Signature,
)
    requires
        call_ensures(PrivateKey::from_seed, (seed,), key),
        call_ensures(PrivateKey::public_key, (&key,), public_key),
        call_ensures(PrivateKey::sign, (&key, msg), signature),
        *old(erased) == key,
        call_ensures(PrivateKey::zeroize, (erased,), ()),
        *after == *final(erased),
        call_ensures(PrivateKey::public_key, (after,), still),
        call_ensures(PrivateKey::sign, (after, msg), left),
    ensures
        key.seed() == seed@,
        public_key@ == ed25519_public_key(seed@),
        signature@ == ed25519_signature(seed@, msg@),
        all_zero(after.seed()),
        still@ == public_key@,
        left@ == signing_key_signature(erased_signing_key(seed@), msg@),
{
}

/// A proof of up to a thousand and twenty-four bytes is written and read back as it
/// is; a longer one is not written, and one that comes is malformed.
pub proof fn law_proofs_are_bounded(
    codec: Codec,
    proof_bytes: Vec<u8>,
    written: Option<Vec<u8>>,
    read: &[u8],
    stream: StreamState,
    step: ReadStep,
)
    requires
        call_ensures(Codec::write_request, (&codec, &ProofRequest::Proof(proof_bytes)), written),
        call_ensures(Codec::read_request, (&codec, read, stream), step),
    ensures
        written is Some <==> proof_bytes@.len() <= 1024,
        written matches Some(w) ==> (read@ == w@ ==> (step matches ReadStep::Done(ProofRequest::Proof(p))
            && p@ == proof_bytes@)),
        step matches ReadStep::Done(ProofRequest::Proof(p)) ==> p@.len() <= 1024,
        stream == StreamState::Over ==> step is Done,
{
    if let Some(w) = written {
        let framed = crate::network::validator_proof::codec::framed(proof_bytes@);
        assert(framed + Seq::<u8>::empty() =~= framed);
    }
}

/// Whether a part of an address names a peer.
pub open spec fn names_a_peer(c: ComponentView) -> bool {
    c.protocol is P2p
}

proof fn lemma_peer_in(parts: Seq<ComponentView>, i: int)
    requires
        0 <= i < parts.len(),
        names_a_peer(parts[i]),
        forall|j: int| 0 <= j < i ==> !names_a_peer(#[trigger] parts[j]),
    ensures
        peer_in(parts) == Some(parts[i].protocol->P2p_0),
    decreases i,
{
    if i > 0 {
        let rest = parts.drop_first();
        assert(!names_a_peer(parts[0]));
        assert(rest[i - 1] == parts[i]);
        assert forall|j: int| 0 <= j < i - 1 implies !names_a_peer(#[trigger] rest[j]) by {
            assert(rest[j] == parts[j + 1]);
        }
        lemma_peer_in(rest, i - 1);
    }
}

proof fn lemma_no_peer_in(parts: Seq<ComponentView>)
    requires
        forall|j: int| 0 <= j < parts.len() ==> !names_a_peer(#[trigger] parts[j]),
    ensures
        peer_in(parts) is None,
    decreases parts.len(),
{
    if parts.len() > 0 {
        let rest = parts.drop_first();
        assert(!names_a_peer(parts[0]));
        assert forall|j: int| 0 <= j < rest.len() implies !names_a_peer(#[trigger] rest[j]) by {
            assert(rest[j] == parts[j + 1]);
        }
        lemma_no_peer_in(rest);
    }
}

/// The peer of an address is the first that it names, and none where it names none.
pub proof fn law_peer_of_an_address(addr: Multiaddr, r: Option<PeerId>, i: int)
    requires
        call_ensures(Multiaddr::peer_id, (&addr,), r),
    ensures
        (forall|j: int| 0 <= j < addr@.len() ==> !names_a_peer(#[trigger] addr@[j])) ==> r is None,
        0 <= i < addr@.len() && names_a_peer(addr@[i]) && (forall|j: int|
            0 <= j < i ==> !names_a_peer(#[trigger] addr@[j])) ==> r == Some(
            addr@[i].protocol->P2p_0,
        ),
{
    if forall|j: int| 0 <= j < addr@.len() ==> !names_a_peer(#[trigger] addr@[j]) {
        lemma_no_peer_in(addr@);
    }
    if 0 <= i < addr@.len() && names_a_peer(addr@[i]) && (forall|j: int|
        0 <= j < i ==> !names_a_peer(#[trigger] addr@[j])) {
        lemma_peer_in(addr@, i);
    }
}

/// An address without its peer has the parts that name none, in order: appending a
/// part appends it unless it names a peer, and nothing is left of no parts.
pub proof fn law_address_without_its_peer(
    addr: Multiaddr,
    longer: Multiaddr,
    r: Multiaddr,
    s: Multiaddr,
    c: ComponentView,
)
    requires
        call_ensures(Multiaddr::strip_peer_id, (&addr,), r),
        call_ensures(Multiaddr::strip_peer_id, (&longer,), s),
        longer@ == addr@.push(c),
    ensures
        addr@.len() == 0 ==> r@.len() == 0,
        names_a_peer(c) ==> s@ == r@,
        !names_a_peer(c) ==> s@ == r@.push(c),
{
    assert(longer@.drop_last() =~= addr@);
    assert(longer@.last() == c);
}

/// The transport of an address is the first that it names; both versions of QUIC
/// are one.
pub proof fn law_transport_of_an_address(addr: Multiaddr, r: Option<TransportProtocol>, i: int)
    requires
        call_ensures(TransportProtocol::from_multiaddr, (&addr,), r),
        0 <= i < addr@.len(),
        forall|j: int|
            0 <= j < i ==> !((#[trigger] addr@[j]).protocol is Tcp) && !(addr@[j].protocol is Quic) && !(
            addr@[j].protocol is QuicV1),
    ensures
        addr@[i].protocol is Tcp ==> r == Some(TransportProtocol::Tcp),
        addr@[i].protocol is Quic || addr@[i].protocol is QuicV1 ==> r == Some(TransportProtocol::Quic),
{
    lemma_transport(addr@, i);
}

proof fn lemma_transport(parts: Seq<ComponentView>, i: int)
    requires
        0 <= i < parts.len(),
        forall|j: int|
            0 <= j < i ==> !((#[trigger] parts[j]).protocol is Tcp) && !(parts[j].protocol is Quic) && !(
            parts[j].protocol is QuicV1),
    ensures
        parts[i].protocol is Tcp ==> transport_in(parts) == Some(TransportProtocol::Tcp),
        parts[i].protocol is Quic || parts[i].protocol is QuicV1 ==> transport_in(parts) == Some(
            TransportProtocol::Quic,
        ),
    decreases i,
{
    if i > 0 {
        let rest = parts.drop_first();
        assert(!(parts[0].protocol is Tcp));
        assert(rest[i - 1] == parts[i]);
        assert forall|j: int| 0 <= j < i - 1 implies !((#[trigger] rest[j]).protocol is Tcp) && !(
        rest[j].protocol is Quic) && !(rest[j].protocol is QuicV1) by {
            assert(rest[j] == parts[j + 1]);
        }
        lemma_transport(rest, i - 1);
    }
}

/// The number that a text of digits stands for.
pub open spec fn value_of(text: Seq<char>) -> nat
    decreases text.len(),
{
    if text.len() == 0 {
        0
    } else {
        10 * value_of(text.drop_last()) + (text.last() as nat - 48) as nat
    }
}

proof fn lemma_value(n: nat)
    ensures
        value_of(decimal(n)) == n,
        decimal(n).len() > 0,
    decreases n,
{
    let d = n % 10;
    assert(digit(d) as nat == 48 + d) by {
        assert(d == 0 || d == 1 || d == 2 || d == 3 || d == 4 || d == 5 || d == 6 || d == 7 || d == 8 || d
            == 9);
    }
    if n >= 10 {
        lemma_value(n / 10);
        let head = decimal(n / 10);
        assert(decimal(n).drop_last() =~= head);
    } else {
        assert(decimal(n).drop_last() =~= Seq::<char>::empty());
        assert(value_of(decimal(n).drop_last()) == 0);
    }
}

/// A number is written in the digits that stand for it, a negative one behind a
/// sign.
pub proof fn law_numbers_are_written_in_decimal(n: u64, text: String, i: i64, signed: String)
    requires
        call_ensures(decimal_text, (n,), text),
        call_ensures(signed_decimal_text, (i,), signed),
    ensures
        value_of(text@) == n,
        i >= 0 ==> value_of(signed@) == i,
        i < 0 ==> signed@.len() > 1 && signed@[0] == '-' && value_of(signed@.skip(1)) == -i,
{
    lemma_value(n as nat);
    if i >= 0 {
        lemma_value(i as nat);
    } else {
        lemma_value((-i) as nat);
        reveal_strlit("-");
        assert(signed@.skip(1) =~= decimal((-i) as nat));
    }
}

/// Joining puts the separator between texts, and nothing around them.
pub proof fn law_joined_texts(
    items: Vec<String>,
    more: Vec<String>,
    last: String,
    separator: &str,
    r: String,
    s: String,
)
    requires
        call_ensures(join, (&items, separator), r),
        call_ensures(join, (&more, separator), s),
        more@ == items@.push(last),
    ensures
        items@.len() == 0 ==> r@.len() == 0 && s@ == last@,
        items@.len() > 0 ==> s@ == r@ + separator@ + last@,
{
    let a = texts(items@);
    let b = texts(more@);
    assert(b =~= a.push(last@));
    assert(b.drop_last() =~= a);
    if items@.len() == 0 {
        assert(b[0] == last@);
    }
}

/// A peer has one name, whenever it is asked for, and no other peer has it.
pub proof fn law_peers_have_names_of_their_own(
    names: &mut Names,
    later: &mut Names,
    p: PeerId,
    q: PeerId,
    first: String,
    second: String,
)
    requires
        old(names).wf(),
        call_ensures(Names::peer, (names, &p), first),
        old(later)@ == final(names)@,
        call_ensures(Names::peer, (later, &q), second),
    ensures
        first@ == second@ <==> p == q,
        final(names)@.nodes == old(names)@.nodes,
        final(names)@.connections == old(names)@.connections,
{
    let seen = old(names)@.peers;
    assert(seen.no_duplicates());
    if p == q {
        law_numbers_are_stable(seen, p, p);
        assert(with_seen(with_seen(seen, p), p) == with_seen(seen, p)) by {
            let s = with_seen(seen, p);
            if !seen.contains(p) {
                assert(s[seen.len() as int] == p);
            }
        }
    } else {
        law_numbers_are_distinct(seen, p, q);
        if first@ == second@ {
            lemma_name_injective("p"@, number_of(seen, p), number_of(with_seen(seen, p), q));
        }
    }
}

proof fn lemma_name_injective(prefix: Seq<char>, a: nat, b: nat)
    requires
        name(prefix, a) == name(prefix, b),
    ensures
        a == b,
{
    assert(name(prefix, a).skip(prefix.len() as int) =~= decimal(a));
    assert(name(prefix, b).skip(prefix.len() as int) =~= decimal(b));
    lemma_decimal_injective(a, b);
}

/// The same holds of connections.
pub proof fn law_connections_have_names_of_their_own(
    names: &mut Names,
    later: &mut Names,
    p: ConnectionId,
    q: ConnectionId,
    first: String,
    second: String,
)
    requires
        old(names).wf(),
        call_ensures(Names::conn, (names, p), first),
        old(later)@ == final(names)@,
        call_ensures(Names::conn, (later, q), second),
    ensures
        first@ == second@ <==> p == q,
{
    let seen = old(names)@.connections;
    assert(seen.no_duplicates());
    if p == q {
        law_numbers_are_stable(seen, p, p);
        assert(with_seen(with_seen(seen, p), p) == with_seen(seen, p)) by {
            let s = with_seen(seen, p);
            if !seen.contains(p) {
                assert(s[seen.len() as int] == p);
            }
        }
    } else {
        law_numbers_are_distinct(seen, p, q);
        if first@ == second@ {
            lemma_name_injective("c"@, number_of(seen, p), number_of(with_seen(seen, p), q));
        }
    }
}

/// A list of as many positions as there are, none of them twice, holds each.
pub proof fn lemma_order_is_complete(order: Seq<usize>, n: nat, i: int)
    requires
        order.len() == n,
        order.no_duplicates(),
        forall|k: int| 0 <= k < order.len() ==> (#[trigger] order[k]) < n,
        0 <= i < n,
    ensures
        exists|k: int| 0 <= k < order.len() && order[k] == i,
{
    let wide = order.map_values(|x: usize| x as int);
    let set = wide.to_set();
    let range = vstd::set_lib::set_int_range(0, n as int);
    vstd::set_lib::lemma_int_range(0, n as int);
    assert(wide.no_duplicates()) by {
        assert forall|a: int, b: int| 0 <= a < wide.len() && 0 <= b < wide.len() && a != b implies wide[a]
            != wide[b] by {
            assert(order[a] != order[b]);
        }
    }
    wide.unique_seq_to_set();
    assert(set.subset_of(range)) by {
        assert forall|x: int| set.contains(x) implies range.contains(x) by {
            let k = choose|k: int| 0 <= k < wide.len() && wide[k] == x;
            assert(order[k] < n);
        }
    }
    vstd::set_lib::lemma_subset_equality(set, range);
    assert(range.contains(i));
    assert(wide.contains(i));
    let k = choose|k: int| 0 <= k < wide.len() && wide[k] == i;
    assert(order[k] == i);
}

/// A description of the network holds this node, every known peer as it is known,
/// every validator, by address, every persistent peer, by identifier, and every
/// persistent address.
pub proof fn law_dump_holds_what_is_known<E, C>(
    state: &State<E, C>,
    d: NetworkStateDump,
    p: PeerId,
    v: ValidatorView,
    i: int,
    j: int,
)
    requires
        state.wf(),
        call_ensures(State::<E, C>::dump, (state,), d),
    ensures
        d.local_node@ == state@.local_node,
        d.peers@.contains_key(p) == state@.peers.contains_key(p),
        state@.peers.contains_key(p) ==> d.peers@[p]@ == state@.peers[p],
        validator_views(d.validator_set@).contains(v) == state@.validators.contains(v),
        d.persistent_peer_ids@.contains(p) == state@.persistent_ids.contains(p),
        addresses(d.persistent_peer_addrs@) == state@.persistent_addrs,
        0 <= i < j < d.validator_set@.len() ==> !bytes_before(
            vstd::utf8::encode_utf8(d.validator_set@[j].address@),
            vstd::utf8::encode_utf8(d.validator_set@[i].address@),
        ),
{
    assert(peer_views(d.peers@).contains_key(p) == d.peers@.contains_key(p));
    let all = state@.validators;
    let listed = validator_views(d.validator_set@);
    let keys = text_keys(validator_addresses(all));
    let order = choose|order: Seq<usize>| #[trigger]
        is_sort_order(keys, order) && listed == order.map_values(|k: usize| all[k as int]);
    assert(is_sort_order(keys, order));
    assert(keys.len() == all.len());
    if listed.contains(v) {
        let k = choose|k: int| 0 <= k < listed.len() && listed[k] == v;
        assert(order[k] < all.len());
        assert(all[order[k] as int] == v);
    }
    if all.contains(v) {
        let k = choose|k: int| 0 <= k < all.len() && all[k] == v;
        lemma_order_is_complete(order, all.len(), k);
        let m = choose|m: int| 0 <= m < order.len() && order[m] == k;
        assert(listed[m] == v);
    }
    let ids = state.persistent_peer_ids.keys();
    let out = d.persistent_peer_ids@;
    let idk = id_keys(ids);
    let by_id = choose|order: Seq<usize>| #[trigger]
        is_sort_order(idk, order) && out == order.map_values(|k: usize| ids[k as int]);
    assert(is_sort_order(idk, by_id));
    assert(idk.len() == ids.len());
    assert(ids.contains(p) == state@.persistent_ids.contains(p)) by {
        if state@.persistent_ids.contains(p) {
            let k = state.persistent_peer_ids.index_of(p);
            assert(state.persistent_peer_ids.has(p));
            assert(ids[k] == p);
        }
        if ids.contains(p) {
            let k = choose|k: int| 0 <= k < ids.len() && ids[k] == p;
            state.persistent_peer_ids.lemma_entry(k);
        }
    }
    if out.contains(p) {
        let k = choose|k: int| 0 <= k < out.len() && out[k] == p;
        assert(by_id[k] < ids.len());
        assert(ids[by_id[k] as int] == p);
    }
    if ids.contains(p) {
        let k = choose|k: int| 0 <= k < ids.len() && ids[k] == p;
        lemma_order_is_complete(by_id, ids.len(), k);
        let m = choose|m: int| 0 <= m < by_id.len() && by_id[m] == k;
        assert(out[m] == p);
    }
    if 0 <= i < j < d.validator_set@.len() {
        assert(order[i] < all.len() && order[j] < all.len());
        assert(listed[i] == all[order[i] as int] && listed[j] == all[order[j] as int]);
        assert(listed[i].address == d.validator_set@[i].address@);
        assert(listed[j].address == d.validator_set@[j].address@);
        let a = keys[order[i] as int];
        let b = keys[order[j] as int];
        assert(a == vstd::utf8::encode_utf8(listed[i].address));
        assert(b == vstd::utf8::encode_utf8(listed[j].address));
        lemma_before_is_strict(a, b);
        lemma_before_is_strict(a, a);
    }
}

/// No two byte strings come before each other, and none before itself.
pub proof fn lemma_before_is_strict(a: Seq<u8>, b: Seq<u8>)
    ensures
        !(bytes_before(a, b) && bytes_before(b, a)),
        !bytes_before(a, a),
    decreases a.len(),
{
    if a.len() > 0 {
        lemma_before_is_strict(
            a.drop_first(),
            if b.len() > 0 {
                b.drop_first()
            } else {
                a.drop_first()
            },
        );
    }
}

/// An address is found in a list exactly where one of the list has its parts.
pub proof fn law_listed_address_is_found(addrs: Vec<Multiaddr>, addr: Multiaddr, r: bool, i: int)
    requires
        call_ensures(contains_address, (&addrs, &addr), r),
    ensures
        0 <= i < addrs@.len() && addrs@[i]@ == addr@ ==> r,
        (forall|j: int| 0 <= j < addrs@.len() ==> (#[trigger] addrs@[j])@ != addr@) ==> !r,
{
}

/// A text is found in a list exactly where the list has it.
pub proof fn law_listed_text_is_found(items: Vec<String>, text: String, r: bool, i: int)
    requires
        call_ensures(contains_text, (&items, &text), r),
    ensures
        0 <= i < items@.len() && items@[i]@ == text@ ==> r,
        (forall|j: int| 0 <= j < items@.len() ==> (#[trigger] items@[j])@ != text@) ==> !r,
{
    assert(0 <= i < items@.len() ==> texts(items@)[i] == items@[i]@);
    if texts(items@).contains(text@) {
        let k = choose|k: int| 0 <= k < texts(items@).len() && texts(items@)[k] == text@;
        assert(items@[k]@ == text@);
    }
}

/// What is put into a map under a key is there until it is taken out, and nothing
/// else changes.
pub proof fn law_map_gives_back<K: Ranked, V>(
    map: &mut OrdMap<K, V>,
    k: K,
    v: V,
    replaced: Option<V>,
    after: &OrdMap<K, V>,
    other: K,
    got: Option<&V>,
    got_other: Option<&V>,
    had: bool,
    emptied: &mut OrdMap<K, V>,
    taken: Option<V>,
    left: &OrdMap<K, V>,
    still: bool,
)
    requires
        old(map).wf(),
        call_ensures(OrdMap::<K, V>::insert, (map, k, v), replaced),
        *after == *final(map),
        call_ensures(OrdMap::<K, V>::get, (after, &k), got),
        call_ensures(OrdMap::<K, V>::get, (after, &other), got_other),
        call_ensures(OrdMap::<K, V>::contains_key, (after, &k), had),
        *old(emptied) == *final(map),
        call_ensures(OrdMap::<K, V>::remove, (emptied, &k), taken),
        *left == *final(emptied),
        call_ensures(OrdMap::<K, V>::contains_key, (left, &k), still),
    ensures
        got == Some(&v),
        had,
        other != k ==> (got_other is Some <==> old(map)@.contains_key(other)),
        other != k ==> (got_other matches Some(w) ==> *w == old(map)@[other]),
        replaced is Some <==> old(map)@.contains_key(k),
        taken == Some(v),
        !still,
        other != k ==> left@.contains_key(other) == old(map)@.contains_key(other),
{
}

} // verus!
