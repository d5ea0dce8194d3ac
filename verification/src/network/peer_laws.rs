//! What the service knows of its peers after each call, and what it has done for
//! them.

use vstd::prelude::*;

use crate::discovery::state::{addresses, AddressView, ConnectionDirection, ConnectionId};
use crate::engine::event::PeerId;
use crate::ident::{OrdMap, Ranked};
use crate::network::laws::{as_classified, law_validator_set_classifies_all_peers};
use crate::network::membership::is_first;
use crate::network::multiaddr::{peer_in, without_peer, Multiaddr, Protocol};
use crate::network::peer::{
    address_of_key, has_address, validator_views, PeerInfo, PeerType, PeerView, Score, Scores,
    ValidatorInfo, ValidatorView,
};
use crate::network::peers::PersistentPeerError;
use crate::network::state::{
    distinct, mesh_views, topics_of, unspecified_address, work, Action, ActionView, Mesh, State,
    StateView,
};
use crate::votekeeper::keeper::lemma_push_contains;

verus! {

/// Whether `key` is that of one of `validators`.
pub open spec fn is_validator_key(validators: Seq<ValidatorView>, key: Seq<u8>) -> bool {
    exists|i: int| 0 <= i < validators.len() && (#[trigger] validators[i]).public_key == key
}

/// Whether `a` is the address of one of `validators` with the public key `key`.
pub open spec fn is_address_of(validators: Seq<ValidatorView>, key: Seq<u8>, a: Seq<char>) -> bool {
    exists|i: int|
        0 <= i < validators.len() && (#[trigger] validators[i]).public_key == key
            && validators[i].address == a
}

proof fn lemma_address_of_key(validators: Seq<ValidatorView>, key: Seq<u8>)
    ensures
        address_of_key(validators, key) is Some == is_validator_key(validators, key),
        address_of_key(validators, key) matches Some(a) ==> is_address_of(validators, key, a),
    decreases validators.len(),
{
    if validators.len() > 0 {
        let rest = validators.drop_first();
        lemma_address_of_key(rest, key);
        if validators[0].public_key != key {
            if is_validator_key(rest, key) {
                let i = choose|i: int| 0 <= i < rest.len() && (#[trigger] rest[i]).public_key == key;
                assert(validators[i + 1].public_key == key);
            }
            if is_validator_key(validators, key) {
                let i = choose|i: int|
                    0 <= i < validators.len() && (#[trigger] validators[i]).public_key == key;
                assert(rest[i - 1].public_key == key);
            }
            if let Some(a) = address_of_key(rest, key) {
                let i = choose|i: int|
                    0 <= i < rest.len() && (#[trigger] rest[i]).public_key == key && rest[i].address
                        == a;
                assert(validators[i + 1].public_key == key && validators[i + 1].address == a);
            }
        } else {
            assert(is_validator_key(validators, key));
        }
    }
}

/// Whether a peer on a connection is persistent: its identifier is, or the address
/// that it is connected from is that of a persistent peer, whatever peer that
/// names.
pub open spec fn counts_as_persistent<E, C>(s: StateView<E, C>, p: PeerId, c: ConnectionId) -> bool {
    s.persistent_ids.contains(p) || (s.discovery.connections.contains_key(c) && exists|i: int|
        0 <= i < s.persistent_addrs.len() && without_peer(#[trigger] s.persistent_addrs[i])
            == without_peer(s.discovery.connections[c].remote_addr))
}

/// The score of a peer is that of its highest role: validator, then persistent,
/// then neither.
pub proof fn law_score_is_that_of_the_role(scores: Scores, t: PeerType, r: Score)
    requires
        call_ensures(Scores::get_peer_score, (&scores, t), r),
    ensures
        t.validator ==> r == scores.validator,
        !t.validator && t.persistent ==> r == scores.persistent_peer,
        !t.validator && !t.persistent ==> r == scores.full_node,
{
}

/// What an identified peer is known by: what it calls itself, and whether it is
/// persistent, which is then learnt for its identifier. It has the score of its
/// type. What else is known of a peer that was known before, but for where it is
/// connected, stays. Other peers are known as before.
pub proof fn law_identified_peer_is_known<E, C>(
    state: &mut State<E, C>,
    p: PeerId,
    c: ConnectionId,
    listen: Vec<Multiaddr>,
    moniker: String,
    r: Score,
    other: PeerId,
)
    requires
        call_ensures(State::<E, C>::update_peer, (state, p, c, &listen, moniker), r),
        other != p,
    ensures
        ({
            let s = old(state)@;
            let t = final(state)@;
            let info = t.peers[p];
            &&& t.peers.contains_key(p)
            &&& info.moniker == moniker@
            &&& info.peer_type.persistent == counts_as_persistent(s, p, c)
            &&& info.score == t.scores.score_of(info.peer_type) && r == info.score
            &&& t.persistent_ids.contains(p) == counts_as_persistent(s, p, c)
            &&& t.persistent_ids.contains(other) == s.persistent_ids.contains(other)
            &&& s.peers.contains_key(p) ==> {
                let was = s.peers[p];
                &&& info.peer_type.validator == was.peer_type.validator
                &&& info.consensus_public_key == was.consensus_public_key
                &&& info.consensus_address == was.consensus_address
                &&& info.topics == was.topics
                &&& info.is_explicit == was.is_explicit
            }
            &&& t.peers.contains_key(other) == s.peers.contains_key(other)
            &&& s.peers.contains_key(other) ==> t.peers[other] == s.peers[other]
            &&& t.validators == s.validators && t.discovery == s.discovery && t.persistent_addrs
                == s.persistent_addrs && t.scores == s.scores
        }),
{
}

/// A peer that was not known is a validator exactly where it has proved before to
/// hold the key of one, and then has the address of that validator. It is in no
/// mesh, and not explicit. What it proved is no longer pending.
pub proof fn law_new_peer_is_what_it_proved<E, C>(
    state: &mut State<E, C>,
    p: PeerId,
    c: ConnectionId,
    listen: Vec<Multiaddr>,
    moniker: String,
    r: Score,
)
    requires
        call_ensures(State::<E, C>::update_peer, (state, p, c, &listen, moniker), r),
        !old(state)@.peers.contains_key(p),
    ensures
        ({
            let s = old(state)@;
            let t = final(state)@;
            let info = t.peers[p];
            &&& !t.pending.contains_key(p)
            &&& info.topics.len() == 0 && !info.is_explicit
            &&& s.pending.contains_key(p) ==> info.consensus_public_key == Some(s.pending[p])
                && info.peer_type.validator == is_validator_key(s.validators, s.pending[p])
            &&& !s.pending.contains_key(p) ==> info.consensus_public_key is None
                && !info.peer_type.validator && info.consensus_address is None
            &&& info.peer_type.validator ==> (info.consensus_address matches Some(a)
                && is_address_of(s.validators, s.pending[p], a))
            &&& !info.peer_type.validator ==> info.consensus_address is None
        }),
{
    let s = old(state)@;
    if s.pending.contains_key(p) {
        lemma_address_of_key(s.validators, s.pending[p]);
    }
}

/// A peer is known by the direction that discovery has for it, and by the address
/// that it is connected from, or else the first that it says it listens on. Once
/// it is outbound, only another outbound connection changes that.
pub proof fn law_peer_is_known_by_its_connection<E, C>(
    state: &mut State<E, C>,
    p: PeerId,
    c: ConnectionId,
    listen: Vec<Multiaddr>,
    moniker: String,
    r: Score,
)
    requires
        call_ensures(State::<E, C>::update_peer, (state, p, c, &listen, moniker), r),
    ensures
        ({
            let s = old(state)@;
            let info = final(state)@.peers[p];
            let direction = if s.discovery.outbound.contains_key(p) {
                Some(ConnectionDirection::Outbound)
            } else if s.discovery.inbound.contains(p) {
                Some(ConnectionDirection::Inbound)
            } else {
                None
            };
            let stays = s.peers.contains_key(p) && s.peers[p].connection_direction == Some(
                ConnectionDirection::Outbound,
            ) && direction != Some(ConnectionDirection::Outbound);
            &&& info.connection_direction == if stays {
                Some(ConnectionDirection::Outbound)
            } else {
                direction
            }
            &&& stays ==> info.address == s.peers[p].address
            &&& !stays && s.discovery.connections.contains_key(c) ==> info.address
                == s.discovery.connections[c].remote_addr
            &&& !stays && !s.discovery.connections.contains_key(c) && listen@.len() > 0
                ==> info.address == listen@[0]@
        }),
{
    if listen@.len() > 0 {
        assert(addresses(listen@)[0] == listen@[0]@);
    }
}

/// A proof makes a known peer a validator exactly where its key is that of one, at
/// the address of that validator, and with the score of its type, which is
/// returned where the type has changed. Whether it is persistent, and what else is
/// known of it, stays. For a peer that is not known the key is pending.
pub proof fn law_proof_decides_who_is_a_validator<E, C>(
    state: &mut State<E, C>,
    p: PeerId,
    key: Vec<u8>,
    r: Option<Score>,
    other: PeerId,
)
    requires
        call_ensures(State::<E, C>::record_verified_proof, (state, &p, key), r),
        other != p,
    ensures
        ({
            let s = old(state)@;
            let t = final(state)@;
            let was = s.peers[p];
            let info = t.peers[p];
            &&& s.peers.contains_key(p) ==> {
                &&& t.peers.contains_key(p)
                &&& info.consensus_public_key == Some(key@)
                &&& info.peer_type.validator == is_validator_key(s.validators, key@)
                &&& info.peer_type.persistent == was.peer_type.persistent
                &&& info.consensus_address is Some == info.peer_type.validator
                &&& info.consensus_address matches Some(a) ==> is_address_of(s.validators, key@, a)
                &&& info.score == s.scores.score_of(info.peer_type)
                &&& r == if info.peer_type.validator != was.peer_type.validator {
                    Some(info.score)
                } else {
                    None
                }
                &&& info.moniker == was.moniker && info.address == was.address && info.topics
                    == was.topics && info.is_explicit == was.is_explicit && info.connection_direction
                    == was.connection_direction
                &&& t.pending == s.pending
            }
            &&& !s.peers.contains_key(p) ==> {
                &&& r is None
                &&& t.peers == s.peers
                &&& t.pending.contains_key(p) && t.pending[p] == key@
            }
            &&& t.peers.contains_key(other) == s.peers.contains_key(other)
            &&& s.peers.contains_key(other) ==> t.peers[other] == s.peers[other]
            &&& t.pending.contains_key(other) == s.pending.contains_key(other)
        }),
{
    lemma_address_of_key(old(state)@.validators, key@);
}

proof fn lemma_distinct(validators: Seq<ValidatorView>, v: ValidatorView)
    ensures
        distinct(validators).contains(v) == validators.contains(v),
    decreases validators.len(),
{
    if validators.len() > 0 {
        let rest = validators.drop_last();
        lemma_distinct(rest, v);
        lemma_distinct(rest, validators.last());
        lemma_push_contains(distinct(rest), validators.last(), v);
        lemma_push_contains(rest, validators.last(), v);
        assert(rest.push(validators.last()) =~= validators);
    }
}

proof fn lemma_distinct_keys(validators: Seq<ValidatorView>, key: Seq<u8>)
    ensures
        is_validator_key(distinct(validators), key) == is_validator_key(validators, key),
{
    let d = distinct(validators);
    if is_validator_key(d, key) {
        let i = choose|i: int| 0 <= i < d.len() && (#[trigger] d[i]).public_key == key;
        lemma_distinct(validators, d[i]);
        assert(d.contains(d[i]));
        let j = choose|j: int| 0 <= j < validators.len() && validators[j] == d[i];
        assert(validators[j].public_key == key);
    }
    if is_validator_key(validators, key) {
        let i = choose|i: int|
            0 <= i < validators.len() && (#[trigger] validators[i]).public_key == key;
        lemma_distinct(validators, validators[i]);
        assert(validators.contains(validators[i]));
        let j = choose|j: int| 0 <= j < d.len() && d[j] == validators[i];
        assert(d[j].public_key == key);
    }
}

proof fn lemma_distinct_address(validators: Seq<ValidatorView>, a: Seq<char>)
    ensures
        has_address(distinct(validators), a) == has_address(validators, a),
{
    let d = distinct(validators);
    if has_address(d, a) {
        let i = choose|i: int| 0 <= i < d.len() && (#[trigger] d[i]).address == a;
        lemma_distinct(validators, d[i]);
        assert(d.contains(d[i]));
        let j = choose|j: int| 0 <= j < validators.len() && validators[j] == d[i];
        assert(validators[j].address == a);
    }
    if has_address(validators, a) {
        let i = choose|i: int| 0 <= i < validators.len() && (#[trigger] validators[i]).address == a;
        lemma_distinct(validators, validators[i]);
        assert(validators.contains(validators[i]));
        let j = choose|j: int| 0 <= j < d.len() && d[j] == validators[i];
        assert(d[j].address == a);
    }
}

proof fn lemma_peer_keys<E, C>(s: State<E, C>)
    requires
        s.wf(),
    ensures
        s.peer_info.keys().no_duplicates(),
        s.peer_info.keys().to_set() == s@.peers.dom(),
{
    let keys = s.peer_info.keys();
    assert forall|p: PeerId| keys.to_set().contains(p) == s@.peers.dom().contains(p) by {
        if s@.peers.contains_key(p) {
            let k = s.peer_info.index_of(p);
            assert(s.peer_info.has(p));
            assert(keys[k] == p);
        }
        if keys.contains(p) {
            let k = choose|k: int| 0 <= k < keys.len() && keys[k] == p;
            s.peer_info.lemma_entry(k);
        }
    }
    assert(keys.to_set() =~= s@.peers.dom());
    assert forall|a: int, b: int| 0 <= a < keys.len() && 0 <= b < keys.len() && a != b implies keys[a]
        != keys[b] by {
        if keys[a] == keys[b] {
            s.peer_info.lemma_unique(a, b);
        }
    }
}

/// A new validator set decides of every peer that has proved to hold a key whether
/// it is a validator, and of this node by its address. Those whose type changes,
/// and no others, are returned, with the score of their new type. A peer that has
/// proved nothing stays as it is, and so does who is known and who is persistent.
pub proof fn law_validator_set_decides_of_all_peers<E, C>(
    state: &mut State<E, C>,
    validators: Vec<ValidatorInfo>,
    r: Vec<(PeerId, Score)>,
    p: PeerId,
    x: Score,
    v: ValidatorView,
)
    requires
        call_ensures(State::<E, C>::process_validator_set_update, (state, validators), r),
        old(state).wf(),
    ensures
        ({
            let s = old(state)@;
            let t = final(state)@;
            let set = validator_views(validators@);
            let was = s.peers[p];
            let info = t.peers[p];
            &&& t.validators.contains(v) == set.contains(v)
            &&& t.peers.contains_key(p) == s.peers.contains_key(p)
            &&& s.peers.contains_key(p) ==> {
                &&& was.consensus_public_key is None ==> info == was
                &&& was.consensus_public_key matches Some(key) ==> {
                    &&& info.peer_type.validator == is_validator_key(set, key)
                    &&& info.consensus_address is Some == info.peer_type.validator
                    &&& info.consensus_public_key == was.consensus_public_key
                    &&& info.peer_type.persistent == was.peer_type.persistent
                    &&& info.score == s.scores.score_of(info.peer_type)
                    &&& info.moniker == was.moniker && info.topics == was.topics
                }
            }
            &&& r@.contains((p, x)) == (s.peers.contains_key(p) && info.peer_type != was.peer_type && x
                == info.score)
            &&& t.local_node.is_validator == (s.local_node.consensus_address matches Some(a)
                && has_address(set, a))
        }),
{
    let s = old(state)@;
    let set = validator_views(validators@);
    lemma_peer_keys(*old(state));
    lemma_distinct(set, v);
    law_validator_set_classifies_all_peers(s, set, old(state).peer_info.keys(), p, x);
    lemma_reclassified_frame(s.with_validators(distinct(set)), old(state).peer_info.keys());
    if s.peers.contains_key(p) {
        if let Some(key) = s.peers[p].consensus_public_key {
            lemma_address_of_key(distinct(set), key);
            lemma_distinct_keys(set, key);
        }
    }
    if let Some(a) = s.local_node.consensus_address {
        lemma_distinct_address(set, a);
    }
}

proof fn lemma_reclassified_frame<E, C>(s: StateView<E, C>, ids: Seq<PeerId>)
    ensures
        s.all_reclassified(ids).0.validators == s.validators,
        s.all_reclassified(ids).0.local_node == s.local_node,
        s.all_reclassified(ids).0.scores == s.scores,
    decreases ids.len(),
{
    if ids.len() > 0 {
        lemma_reclassified_frame(s, ids.drop_last());
    }
}

/// Whether an address names a transport to dial with.
pub open spec fn names_transport(a: AddressView) -> bool {
    exists|i: int|
        0 <= i < a.len() && ((#[trigger] a[i]).protocol == Protocol::Tcp || a[i].protocol == Protocol::Quic
            || a[i].protocol == Protocol::QuicV1)
}

proof fn lemma_transport(a: AddressView)
    ensures
        crate::network::multiaddr::transport_in(a) is Some == names_transport(a),
    decreases a.len(),
{
    if a.len() > 0 {
        let rest = a.drop_first();
        lemma_transport(rest);
        if names_transport(rest) {
            let i = choose|i: int|
                0 <= i < rest.len() && ((#[trigger] rest[i]).protocol == Protocol::Tcp
                    || rest[i].protocol == Protocol::Quic || rest[i].protocol == Protocol::QuicV1);
            assert(a[i + 1] == rest[i]);
        }
        if names_transport(a) {
            let i = choose|i: int|
                0 <= i < a.len() && ((#[trigger] a[i]).protocol == Protocol::Tcp || a[i].protocol
                    == Protocol::Quic || a[i].protocol == Protocol::QuicV1);
            if i > 0 {
                assert(rest[i - 1] == a[i]);
            }
        }
        if a[0].protocol == Protocol::Tcp || a[0].protocol == Protocol::Quic || a[0].protocol
            == Protocol::QuicV1 {
            assert(names_transport(a));
        }
    }
}

/// A persistent address is added unless it is one. The peer that it names is
/// persistent from then on, and has the score of that where it is known. The
/// address is dialed, last, where it names a transport, and becomes one of those
/// that discovery knows.
pub proof fn law_persistent_peer_is_added<E, C>(
    state: &mut State<E, C>,
    addr: Multiaddr,
    r: (Result<(), PersistentPeerError>, Vec<Action>),
)
    requires
        call_ensures(State::<E, C>::add_persistent_peer, (state, addr), r),
    ensures
        ({
            let s = old(state)@;
            let t = final(state)@;
            let acts = work(r.1@);
            &&& r.0 is Err <==> s.persistent_addrs.contains(addr@)
            &&& r.0 is Err ==> r.0->Err_0 is AlreadyExists && t == s && acts.len() == 0
            &&& r.0 is Ok ==> {
                &&& t.persistent_addrs == s.persistent_addrs.push(addr@)
                &&& names_transport(addr@) ==> acts.len() > 0 && acts.last() == ActionView::Dial(addr@)
                &&& !names_transport(addr@) ==> !acts.contains(ActionView::Dial(addr@))
                &&& exists|j: int|
                    0 <= j < t.discovery.bootstrap.len() && (
                    #[trigger] t.discovery.bootstrap[j]).addrs.contains(addr@)
                &&& peer_in(addr@) matches Some(p) ==> {
                    &&& t.persistent_ids.contains(p)
                    &&& s.peers.contains_key(p) ==> t.peers.contains_key(p)
                        && t.peers[p].peer_type.persistent && t.peers[p].peer_type.validator
                        == s.peers[p].peer_type.validator && t.peers[p].score == s.scores.score_of(
                        t.peers[p].peer_type,
                    )
                    &&& s.peers.contains_key(p) && s.gossipsub ==> acts.contains(
                        ActionView::SetScore(p, t.peers[p].score),
                    )
                    &&& s.peers.contains_key(p) && s.gossipsub && s.enable_explicit_peering
                        ==> t.peers[p].is_explicit
                }
                &&& peer_in(addr@) is None ==> t.peers == s.peers && t.persistent_ids
                    == s.persistent_ids
            }
        }),
{
    let s = old(state)@;
    let t = final(state)@;
    let acts = work(r.1@);
    lemma_transport(addr@);
    if r.0 is Ok {
        let n = s.persistent_addrs.len();
        let nodes = t.discovery.bootstrap;
        let named = match peer_in(addr@) {
            Some(p) => {
                let known = StateView { persistent_ids: s.persistent_ids.insert(p), ..s };
                known.persistent_set(p, true).0.prioritized(p).0.explicit_added(p).0
            },
            None => s,
        };
        let before = named.discovery.bootstrap;
        lemma_found(before, addr@, 0);
        match crate::discovery::state::first_with_address(before, addr@, 0) {
            Some(k) => {
                assert(nodes[k].addrs.contains(addr@));
            },
            None => {
                let last = nodes[nodes.len() - 1];
                assert(last.addrs == seq![addr@]);
                assert(last.addrs[0] == addr@);
                assert(last.addrs.contains(addr@));
            },
        }
        if let Some(p) = peer_in(addr@) {
            let known = StateView { persistent_ids: s.persistent_ids.insert(p), ..s };
            let (s1, a1) = known.persistent_set(p, true);
            let (s2, _, a2) = s1.prioritized(p);
            let (s3, a3) = s2.explicit_added(p);
            let all = a1 + a2 + a3;
            if s.peers.contains_key(p) && s.gossipsub {
                assert(all[0] == ActionView::SetScore(p, s1.peers[p].score));
                assert(acts[0] == all[0]);
            }
            assert forall|i: int| 0 <= i < all.len() implies !(#[trigger] all[i] is Dial) by {
                lemma_no_dial(s1, p);
                if i < a1.len() {
                } else if i < a1.len() + a2.len() {
                    assert(all[i] == a2[i - a1.len()]);
                } else {
                    assert(all[i] == a3[i - a1.len() - a2.len()]);
                }
            }
        }
    }
}

proof fn lemma_found(nodes: Seq<crate::discovery::state::BootstrapView>, a: AddressView, i: int)
    requires
        0 <= i,
    ensures
        crate::discovery::state::first_with_address(nodes, a, i) matches Some(k) ==> i <= k
            < nodes.len() && nodes[k].addrs.contains(a),
    decreases nodes.len() - i,
{
    if i < nodes.len() && !nodes[i].addrs.contains(a) {
        lemma_found(nodes, a, i + 1);
    }
}

proof fn lemma_no_dial<E, C>(s: StateView<E, C>, p: PeerId)
    ensures
        forall|i: int| 0 <= i < s.prioritized(p).2.len() ==> !(#[trigger] s.prioritized(p).2[i] is Dial),
{
}

/// A persistent address is removed where it is one. The peer behind it, which it
/// names or which was found there, is neither persistent nor explicit any more,
/// and has the score of what it is. It is disconnected unless it is an inbound peer
/// that may stay, and can be dialed again.
pub proof fn law_persistent_peer_is_removed<E, C>(
    state: &mut State<E, C>,
    addr: Multiaddr,
    r: (Result<(), PersistentPeerError>, Vec<Action>),
    p: PeerId,
)
    requires
        call_ensures(State::<E, C>::remove_persistent_peer, (state, addr), r),
        peer_in(addr@) == Some(p),
    ensures
        ({
            let s = old(state)@;
            let t = final(state)@;
            let acts = work(r.1@);
            &&& r.0 is Ok <==> s.persistent_addrs.contains(addr@)
            &&& r.0 is Err ==> r.0->Err_0 is NotFound && t == s && acts.len() == 0
            &&& r.0 is Ok ==> {
                &&& t.persistent_addrs.len() + 1 == s.persistent_addrs.len()
                &&& exists|i: int| #[trigger]
                    is_first(s.persistent_addrs, addr@, i) && t.persistent_addrs
                        == s.persistent_addrs.remove(i)
                &&& !t.persistent_ids.contains(p)
                &&& s.peers.contains_key(p) ==> {
                    &&& !t.peers[p].peer_type.persistent
                    &&& t.peers[p].peer_type.validator == s.peers[p].peer_type.validator
                    &&& t.peers[p].score == s.scores.score_of(t.peers[p].peer_type)
                    &&& s.enable_explicit_peering && s.gossipsub ==> !t.peers[p].is_explicit
                    &&& s.gossipsub ==> acts.contains(ActionView::SetScore(p, t.peers[p].score))
                }
                &&& acts.contains(ActionView::DisconnectIfConnected(p)) == (
                s.local_node.persistent_peers_only || !s.discovery.inbound.contains(p))
            }
        }),
{
    let s = old(state)@;
    let t = final(state)@;
    let acts = work(r.1@);
    if r.0 is Ok {
        let i = choose|i: int| #[trigger]
            is_first(s.persistent_addrs, addr@, i) && (t, acts) == s.persistent_removed(i);
        assert(is_first(s.persistent_addrs, addr@, i));
        let shorter = StateView { persistent_addrs: s.persistent_addrs.remove(i), ..s };
        let known = StateView { persistent_ids: s.persistent_ids.remove(p), ..shorter };
        let (s1, a1) = known.explicit_removed(p);
        let (s2, a2) = s1.persistent_set(p, false);
        let n = (a1 + a2).len() as int;
        if s.peers.contains_key(p) && s.gossipsub {
            assert(acts[a1.len() as int] == ActionView::SetScore(p, s2.peers[p].score));
        }
        if s.local_node.persistent_peers_only || !s.discovery.inbound.contains(p) {
            assert(acts[n] == ActionView::DisconnectIfConnected(p));
        } else {
            let forget = crate::network::state::discovery_work(
                seq![
                    crate::discovery::state::ActionView::RemoveDialDoneAddress(without_peer(addr@)),
                    crate::discovery::state::ActionView::RemoveDialDonePeer(p),
                ],
            );
            assert(acts =~= a1 + a2 + forget);
            assert forall|j: int| 0 <= j < acts.len() implies acts[j]
                != ActionView::DisconnectIfConnected(p) by {
                if j >= n {
                    assert(acts[j] == forget[j - n]);
                }
            }
        }
    }
}

/// A peer that left is not known, and nothing of it is pending. It is still
/// persistent only where it was and an address names it. Other peers stay.
pub proof fn law_peer_that_left_is_gone<E, C>(
    state: &mut State<E, C>,
    p: PeerId,
    r: Vec<Action>,
    other: PeerId,
)
    requires
        call_ensures(State::<E, C>::remove_peer, (state, &p), r),
        other != p,
    ensures
        ({
            let s = old(state)@;
            let t = final(state)@;
            let named = exists|i: int|
                0 <= i < s.persistent_addrs.len() && peer_in(#[trigger] s.persistent_addrs[i]) == Some(p);
            &&& !t.peers.contains_key(p) && !t.pending.contains_key(p)
            &&& !t.metrics.slots.contains_key(p) || !s.peers.contains_key(p)
            &&& t.persistent_ids.contains(p) == (s.persistent_ids.contains(p) && named)
            &&& t.peers.contains_key(other) == s.peers.contains_key(other)
            &&& s.peers.contains_key(other) ==> t.peers[other] == s.peers[other]
            &&& t.pending.contains_key(other) == s.pending.contains_key(other)
            &&& t.persistent_ids.contains(other) == s.persistent_ids.contains(other)
            &&& t.persistent_addrs == s.persistent_addrs && t.discovery == s.discovery
            &&& work(r@) == if s.enable_explicit_peering && s.gossipsub && s.peers.contains_key(p)
                && s.peers[p].is_explicit {
                seq![ActionView::RemoveExplicitPeer(p)]
            } else {
                Seq::empty()
            }
        }),
{
}

/// A peer is made explicit exactly where explicit peering and gossipsub are on and
/// it is known, persistent and not explicit yet; it is explicit afterwards.
pub proof fn law_persistent_peers_become_explicit<E, C>(
    state: &mut State<E, C>,
    p: PeerId,
    r: Vec<Action>,
)
    requires
        call_ensures(State::<E, C>::add_explicit_peer_to_gossipsub, (state, p), r),
    ensures
        ({
            let s = old(state)@;
            let t = final(state)@;
            let due = s.enable_explicit_peering && s.gossipsub && s.peers.contains_key(p)
                && s.peers[p].peer_type.persistent && !s.peers[p].is_explicit;
            &&& work(r@) == if due {
                seq![ActionView::AddExplicitPeer(p)]
            } else {
                Seq::empty()
            }
            &&& due ==> t.peers[p] == (PeerView { is_explicit: true, ..s.peers[p] })
            &&& !due ==> t == s
        }),
{
}

/// The score of a peer is set with gossipsub where that is in use.
pub proof fn law_scores_reach_gossipsub<E, C>(state: &State<E, C>, p: PeerId, x: Score, r: Vec<Action>)
    requires
        call_ensures(State::<E, C>::set_peer_score, (state, p, x), r),
    ensures
        state@.gossipsub ==> work(r@) =~= seq![ActionView::SetScore(p, x)],
        !state@.gossipsub ==> r@.len() == 0,
{
    assert(work(r@).len() == r@.len());
}

/// A validator or a persistent peer that is connected without a slot gets an
/// inbound slot: a free one, or else that of the inbound peer with the lowest score
/// among those that are neither. Nobody else loses a slot, and nobody else gets
/// one.
pub proof fn law_slot_goes_to_priority<E, C>(
    state: &mut State<E, C>,
    p: PeerId,
    r: (Option<PeerId>, Vec<Action>),
    q: PeerId,
)
    requires
        call_ensures(State::<E, C>::try_prioritize_peer, (state, p), r),
        old(state)@.discovery.inbound.finite(),
        old(state)@.discovery.inbound.len() <= old(state)@.discovery.config.num_inbound_peers,
    ensures
        ({
            let s = old(state)@;
            let t = final(state)@;
            let owed = s.peers.contains_key(p) && (s.peers[p].peer_type.validator
                || s.peers[p].peer_type.persistent) && s.discovery.active.contains_key(p)
                && !s.discovery.outbound.contains_key(p) && !s.discovery.inbound.contains(p);
            let free = s.discovery.inbound.len() < s.discovery.config.num_inbound_peers;
            let leaves = |x: PeerId|
                s.discovery.inbound.contains(x) && s.peers.contains_key(x) && !s.peers[x].peer_type.validator
                    && !s.peers[x].peer_type.persistent;
            &&& !owed ==> t == s && r.0 is None && r.1@.len() == 0
            &&& owed && free ==> r.0 is None && t.discovery.inbound == s.discovery.inbound.insert(p)
            &&& r.0 matches Some(e) ==> {
                &&& owed && !free
                &&& leaves(e)
                &&& leaves(q) ==> s.peers[e].score.order <= s.peers[q].score.order
                &&& t.discovery.inbound =~= s.discovery.inbound.remove(e).insert(p)
            }
            &&& owed && !free && r.0 is None ==> !leaves(q) && t.discovery.inbound
                == s.discovery.inbound
            &&& t.discovery.outbound == s.discovery.outbound
        }),
{
    let s = old(state)@;
    assert(work(r.1@).len() == r.1@.len());
    assert(s.is_candidate(q) == (s.discovery.inbound.contains(q) && s.peers.contains_key(q)
        && !s.peers[q].peer_type.validator && !s.peers[q].peer_type.persistent));
    if let Some(e) = r.0 {
        let w = choose|w: PeerId| s.is_lowest(w);
        assert(s.is_lowest(w));
        assert(s.is_lowest(e));
        assert(s.is_candidate(e));
        assert(s.discovery.inbound.remove(e).len() < s.discovery.inbound.len());
    } else if s.is_candidate(q) && s.discovery.inbound.len() >= s.discovery.config.num_inbound_peers {
        lemma_lowest_exists(s, s.discovery.inbound, q);
    }
}

/// Where an inbound peer may be evicted, there is one to evict.
proof fn lemma_lowest_exists<E, C>(s: StateView<E, C>, among: Set<PeerId>, q: PeerId)
    requires
        among.finite(),
        among.contains(q),
        s.is_candidate(q),
        forall|x: PeerId| #[trigger] s.is_candidate(x) ==> s.discovery.inbound.contains(x),
        forall|x: PeerId| #[trigger] among.contains(x) ==> s.discovery.inbound.contains(x),
        forall|x: PeerId|
            #[trigger] s.is_candidate(x) && !among.contains(x) ==> lower(s, q, x),
    ensures
        exists|p: PeerId| s.is_lowest(p),
    decreases among.len(),
{
    if forall|x: PeerId| #[trigger] s.is_candidate(x) ==> lower(s, q, x) {
        assert(s.is_lowest(q));
    } else {
        let x = choose|x: PeerId| #[trigger] s.is_candidate(x) && !lower(s, q, x);
        let rest = among.remove(q);
        assert(among.contains(x));
        assert(x != q);
        assert forall|y: PeerId| #[trigger] s.is_candidate(y) && !rest.contains(y) implies lower(
            s,
            x,
            y,
        ) by {
            if y != q {
                assert(lower(s, q, y));
            }
        }
        lemma_lowest_exists(s, rest, x);
    }
}

/// Whether `p` comes before `q`, or is it, in the order in which peers are evicted.
spec fn lower<E, C>(s: StateView<E, C>, p: PeerId, q: PeerId) -> bool {
    s.peers[p].score.order < s.peers[q].score.order || (s.peers[p].score.order
        == s.peers[q].score.order && p.rank() <= q.rank())
}

proof fn lemma_topics(meshes: Seq<(Seq<char>, Seq<PeerId>)>, p: PeerId, topic: Seq<char>)
    ensures
        topics_of(meshes, p).contains(topic) == exists|i: int|
            0 <= i < meshes.len() && (#[trigger] meshes[i]).0 == topic && meshes[i].1.contains(p),
    decreases meshes.len(),
{
    if meshes.len() > 0 {
        let rest = meshes.drop_last();
        lemma_topics(rest, p, topic);
        lemma_topics(rest, p, meshes.last().0);
        lemma_push_contains(topics_of(rest, p), meshes.last().0, topic);
        if exists|i: int| 0 <= i < rest.len() && (#[trigger] rest[i]).0 == topic && rest[i].1.contains(p) {
            let i = choose|i: int|
                0 <= i < rest.len() && (#[trigger] rest[i]).0 == topic && rest[i].1.contains(p);
            assert(meshes[i] == rest[i]);
        }
        if exists|i: int|
            0 <= i < meshes.len() && (#[trigger] meshes[i]).0 == topic && meshes[i].1.contains(p) {
            let i = choose|i: int|
                0 <= i < meshes.len() && (#[trigger] meshes[i]).0 == topic && meshes[i].1.contains(p);
            if i < rest.len() {
                assert(rest[i] == meshes[i]);
            }
        }
        assert(meshes[meshes.len() - 1] == meshes.last());
    }
}

proof fn lemma_refreshed<E, C>(
    s: StateView<E, C>,
    ids: Seq<PeerId>,
    scores: Map<PeerId, Score>,
    meshes: Seq<(Seq<char>, Seq<PeerId>)>,
    p: PeerId,
)
    requires
        ids.no_duplicates(),
    ensures
        ({
            let t = s.all_refreshed(ids, scores, meshes);
            &&& t.peers.contains_key(p) == s.peers.contains_key(p)
            &&& s.peers.contains_key(p) ==> t.peers[p] == if ids.contains(p) {
                PeerView {
                    score: if scores.contains_key(p) {
                        scores[p]
                    } else {
                        s.peers[p].score
                    },
                    topics: topics_of(meshes, p),
                    ..s.peers[p]
                }
            } else {
                s.peers[p]
            }
        }),
    decreases ids.len(),
{
    if ids.len() > 0 {
        let rest = ids.drop_last();
        assert(rest.no_duplicates());
        lemma_refreshed(s, rest, scores, meshes, p);
        lemma_push_contains(rest, ids.last(), p);
        assert(rest.push(ids.last()) =~= ids);
        if p == ids.last() && rest.contains(p) {
            let k = choose|k: int| 0 <= k < rest.len() && rest[k] == p;
            assert(ids[k] == ids[ids.len() - 1]);
        }
    }
}

/// Every known peer takes over the score that gossipsub has for it, and keeps its
/// own where there is none; it is then known to be in the meshes that it is in, and
/// in no others.
pub proof fn law_peers_follow_gossipsub<E, C>(
    state: &mut State<E, C>,
    scores: OrdMap<PeerId, Score>,
    meshes: Vec<Mesh>,
    p: PeerId,
    topic: Seq<char>,
)
    requires
        call_ensures(State::<E, C>::update_peer_info, (state, &scores, &meshes), ()),
        old(state).wf(),
    ensures
        ({
            let s = old(state)@;
            let t = final(state)@;
            &&& t.peers.contains_key(p) == s.peers.contains_key(p)
            &&& s.peers.contains_key(p) ==> {
                &&& t.peers[p].score == if scores@.contains_key(p) {
                    scores@[p]
                } else {
                    s.peers[p].score
                }
                &&& t.peers[p].topics.contains(topic) == exists|i: int|
                    0 <= i < meshes@.len() && (#[trigger] meshes@[i]).topic@ == topic
                        && meshes@[i].members@.contains(p)
                &&& t.peers[p].peer_type == s.peers[p].peer_type && t.peers[p].moniker
                    == s.peers[p].moniker
            }
        }),
{
    let s = old(state)@;
    let m = mesh_views(meshes@);
    let ids = old(state).peer_info.keys();
    lemma_peer_keys(*old(state));
    lemma_refreshed(s, ids, scores@, m, p);
    lemma_topics(m, p, topic);
    assert(ids.to_set().contains(p) == s.peers.dom().contains(p));
    if exists|i: int|
        0 <= i < meshes@.len() && (#[trigger] meshes@[i]).topic@ == topic && meshes@[i].members@.contains(
            p,
        ) {
        let i = choose|i: int|
            0 <= i < meshes@.len() && (#[trigger] meshes@[i]).topic@ == topic
                && meshes@[i].members@.contains(p);
        assert(m[i].0 == topic);
    }
    if exists|i: int| 0 <= i < m.len() && (#[trigger] m[i]).0 == topic && m[i].1.contains(p) {
        let i = choose|i: int| 0 <= i < m.len() && (#[trigger] m[i]).0 == topic && m[i].1.contains(p);
        assert(meshes@[i].topic@ == topic);
    }
}

} // verus!
