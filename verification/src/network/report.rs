//! Descriptions of the state of the network, for logs and for other services.

use vstd::prelude::*;
use vstd::string::*;

use crate::bytes::SHORT_BYTES_MAX;
use crate::discovery::state::addresses;
use crate::engine::event::PeerId;
use crate::ident::OrdMap;
use crate::network::multiaddr::Multiaddr;
use crate::network::peer::{
    validator_views, LocalNodeInfo, PeerInfo, PeerView, ValidatorInfo, ValidatorView,
};
use crate::network::state::{peer_views, State, StateView};
use crate::text::{is_sort_order, join, joined, key_views, sort_order, text_key, text_keys, texts};

verus! {

/// What is known of the network at some time.
pub struct NetworkStateDump {
    pub local_node: LocalNodeInfo,
    pub peers: OrdMap<PeerId, PeerInfo>,
    /// The validators, by ascending address.
    pub validator_set: Vec<ValidatorInfo>,
    /// The persistent peers, ascending.
    pub persistent_peer_ids: Vec<PeerId>,
    pub persistent_peer_addrs: Vec<Multiaddr>,
}

/// The bytes that an identifier is ordered by.
pub open spec fn id_key(id: PeerId) -> Seq<u8> {
    if id.len > SHORT_BYTES_MAX {
        Seq::empty()
    } else {
        id.seq()
    }
}

/// The bytes that an identifier is ordered by.
fn id_key_of(id: &PeerId) -> (r: Vec<u8>)
    ensures
        r@ == id_key(*id),
{
    if id.len > SHORT_BYTES_MAX as u64 {
        let none: Vec<u8> = Vec::new();
        assert(none@ =~= Seq::<u8>::empty());
        none
    } else {
        id.to_vec()
    }
}

/// The keys of identifiers.
pub open spec fn id_keys(ids: Seq<PeerId>) -> Seq<Seq<u8>> {
    ids.map_values(|id: PeerId| id_key(id))
}

/// The addresses of validators.
pub open spec fn validator_addresses(validators: Seq<ValidatorView>) -> Seq<Seq<char>> {
    validators.map_values(|v: ValidatorView| v.address)
}

/// The monikers of peers.
pub open spec fn monikers(peers: Map<PeerId, PeerView>, ids: Seq<PeerId>) -> Seq<Seq<char>> {
    ids.map_values(|id: PeerId| peers[id].moniker)
}

/// Whether `r` is `validators` by ascending address.
pub open spec fn is_by_address(validators: Seq<ValidatorView>, r: Seq<ValidatorView>) -> bool {
    exists|order: Seq<usize>| #[trigger]
        is_sort_order(text_keys(validator_addresses(validators)), order) && r == order.map_values(
            |i: usize| validators[i as int],
        )
}

/// Whether `r` is `ids` in ascending order.
pub open spec fn is_ascending_version(ids: Seq<PeerId>, r: Seq<PeerId>) -> bool {
    exists|order: Seq<usize>| #[trigger]
        is_sort_order(id_keys(ids), order) && r == order.map_values(|i: usize| ids[i as int])
}

/// The line above the descriptions of peers.
pub open spec fn header() -> Seq<char> {
    "Address, Moniker, Type, PeerId, ConsensusAddr, Mesh, Dir, Score"@
}

/// Whether `lines` describe this node and the peers `ids`, these by ascending
/// moniker.
pub open spec fn is_report<E, C>(s: StateView<E, C>, ids: Seq<PeerId>, lines: Seq<Seq<char>>) -> bool {
    exists|order: Seq<usize>|
        {
            &&& #[trigger] is_sort_order(text_keys(monikers(s.peers, ids)), order)
            &&& lines.len() == ids.len() + 2
            &&& lines[0] == header()
            &&& s.local_node.described_by(lines[1])
            &&& forall|k: int|
                0 <= k < ids.len() ==> s.peers[ids[order[k] as int]].described_by(
                    ids[order[k] as int],
                    #[trigger] lines[k + 2],
                )
        }
}

/// The validators by ascending address.
fn validators_by_address(validators: &Vec<ValidatorInfo>) -> (r: Vec<ValidatorInfo>)
    ensures
        is_by_address(validator_views(validators@), validator_views(r@)),
{
    let ghost all = validator_views(validators@);
    let ghost want = text_keys(validator_addresses(all));
    let mut keys: Vec<Vec<u8>> = Vec::new();
    let mut i: usize = 0;
    while i < validators.len()
        invariant
            i <= validators@.len(),
            all == validator_views(validators@),
            want == text_keys(validator_addresses(all)),
            keys@.len() == i,
            forall|j: int| 0 <= j < i ==> #[trigger] key_views(keys@)[j] == want[j],
        decreases validators@.len() - i,
    {
        let ghost before = keys@;
        let key = text_key(&validators[i].address);
        keys.push(key);
        assert(key_views(keys@) =~= key_views(before).push(key@));
        i = i + 1;
    }
    assert(key_views(keys@) =~= want);
    let order = sort_order(keys);
    let mut out: Vec<ValidatorInfo> = Vec::new();
    let mut k: usize = 0;
    while k < order.len()
        invariant
            k <= order@.len(),
            all == validator_views(validators@),
            want == text_keys(validator_addresses(all)),
            is_sort_order(want, order@),
            out@.len() == k,
            forall|j: int| 0 <= j < k ==> (#[trigger] out@[j])@ == all[order@[j] as int],
        decreases order@.len() - k,
    {
        assert(order@[k as int] < want.len());
        let copy = validators[order[k]].copy();
        out.push(copy);
        k = k + 1;
    }
    assert(validator_views(out@) =~= order@.map_values(|i: usize| all[i as int]));
    out
}

/// The keys of a map in ascending order of their bytes.
fn ascending_ids(ids: &OrdMap<PeerId, ()>) -> (r: Vec<PeerId>)
    requires
        ids.wf(),
    ensures
        is_ascending_version(ids.keys(), r@),
{
    let ghost all = ids.keys();
    let mut keys: Vec<Vec<u8>> = Vec::new();
    let mut i: usize = 0;
    while i < ids.entries.len()
        invariant
            i <= ids.entries@.len(),
            all == ids.keys(),
            keys@.len() == i,
            forall|j: int| 0 <= j < i ==> #[trigger] key_views(keys@)[j] == id_keys(all)[j],
        decreases ids.entries@.len() - i,
    {
        let ghost before = keys@;
        let key = id_key_of(&ids.entries[i].0);
        keys.push(key);
        assert(key_views(keys@) =~= key_views(before).push(key@));
        i = i + 1;
    }
    assert(key_views(keys@) =~= id_keys(all));
    let order = sort_order(keys);
    let mut out: Vec<PeerId> = Vec::new();
    let mut k: usize = 0;
    while k < order.len()
        invariant
            k <= order@.len(),
            all == ids.keys(),
            is_sort_order(id_keys(all), order@),
            out@.len() == k,
            forall|j: int| 0 <= j < k ==> #[trigger] out@[j] == all[order@[j] as int],
        decreases order@.len() - k,
    {
        assert(order@[k as int] < id_keys(all).len());
        out.push(ids.entries[order[k]].0);
        k = k + 1;
    }
    assert(out@ =~= order@.map_values(|i: usize| all[i as int]));
    out
}

/// Copies of peers.
fn copy_peers(peers: &OrdMap<PeerId, PeerInfo>) -> (r: OrdMap<PeerId, PeerInfo>)
    requires
        peers.wf(),
    ensures
        r.wf(),
        peer_views(r@) == peer_views(peers@),
{
    let mut out: Vec<(PeerId, PeerInfo)> = Vec::new();
    let mut i: usize = 0;
    while i < peers.entries.len()
        invariant
            i <= peers.entries@.len(),
            out@.len() == i,
            forall|j: int|
                0 <= j < i ==> (#[trigger] out@[j]).0 == peers.entries@[j].0 && out@[j].1@
                    == peers.entries@[j].1@,
        decreases peers.entries@.len() - i,
    {
        let copy = peers.entries[i].1.copy();
        out.push((peers.entries[i].0, copy));
        i = i + 1;
    }
    let r = OrdMap { entries: out };
    proof {
        assert(r.wf());
        assert forall|k: PeerId| r@.contains_key(k) == peers@.contains_key(k) && (r@.contains_key(k)
            ==> r@[k]@ == peers@[k]@) by {
            if r@.contains_key(k) {
                let j = r.index_of(k);
                r.lemma_entry(j);
                assert(peers.entries@[j].0 == k);
                peers.lemma_entry(j);
            }
            if peers@.contains_key(k) {
                let j = peers.index_of(k);
                assert(peers.has(k));
                assert(r.entries@[j].0 == k);
                r.lemma_entry(j);
            }
        }
        assert(peer_views(r@) =~= peer_views(peers@));
    }
    r
}

/// Copies of addresses.
pub fn copy_of_addresses(addrs: &Vec<Multiaddr>) -> (r: Vec<Multiaddr>)
    ensures
        addresses(r@) == addresses(addrs@),
{
    let mut out: Vec<Multiaddr> = Vec::new();
    let mut i: usize = 0;
    while i < addrs.len()
        invariant
            i <= addrs@.len(),
            out@.len() == i,
            forall|j: int| 0 <= j < i ==> (#[trigger] out@[j])@ == addrs@[j]@,
        decreases addrs@.len() - i,
    {
        let copy = addrs[i].copy();
        out.push(copy);
        i = i + 1;
    }
    assert(addresses(out@) =~= addresses(addrs@));
    out
}

impl<E, C> State<E, C> {
    /// Whether `d` is what is known of the network.
    pub open spec fn is_dump(self, d: NetworkStateDump) -> bool {
        &&& d.local_node@ == self@.local_node
        &&& d.peers.wf()
        &&& peer_views(d.peers@) == self@.peers
        &&& is_by_address(self@.validators, validator_views(d.validator_set@))
        &&& is_ascending_version(self.persistent_peer_ids.keys(), d.persistent_peer_ids@)
        &&& addresses(d.persistent_peer_addrs@) == self@.persistent_addrs
    }

    /// What is known of the network now.
    pub fn dump(&self) -> (r: NetworkStateDump)
        requires
            self.wf(),
        ensures
            self.is_dump(r),
    {
        NetworkStateDump {
            local_node: self.local_node.copy(),
            peers: copy_peers(&self.peer_info),
            validator_set: validators_by_address(&self.validator_set),
            persistent_peer_ids: ascending_ids(&self.persistent_peer_ids),
            persistent_peer_addrs: copy_of_addresses(&self.persistent_peer_addrs),
        }
    }

    /// The identified peers by ascending moniker: their positions.
    fn order_by_moniker(&self) -> (r: Vec<usize>)
        requires
            self.wf(),
        ensures
            is_sort_order(text_keys(monikers(self@.peers, self.peer_info.keys())), r@),
    {
        let ghost names = monikers(self@.peers, self.peer_info.keys());
        let mut keys: Vec<Vec<u8>> = Vec::new();
        let mut i: usize = 0;
        while i < self.peer_info.entries.len()
            invariant
                self.wf(),
                i <= self.peer_info.entries@.len(),
                names == monikers(self@.peers, self.peer_info.keys()),
                keys@.len() == i,
                forall|j: int| 0 <= j < i ==> #[trigger] key_views(keys@)[j] == text_keys(names)[j],
            decreases self.peer_info.entries@.len() - i,
        {
            let ghost before = keys@;
            proof {
                self.peer_info.lemma_entry(i as int);
                let id = self.peer_info.entries@[i as int].0;
                assert(self@.peers[id] == self.peer_info.entries@[i as int].1@);
                assert(names[i as int] == self.peer_info.entries@[i as int].1.moniker@);
            }
            let key = text_key(&self.peer_info.entries[i].1.moniker);
            keys.push(key);
            assert(key_views(keys@) =~= key_views(before).push(key@));
            i = i + 1;
        }
        assert(key_views(keys@) =~= text_keys(names));
        sort_order(keys)
    }

    /// A description of this node and of its peers, one line each.
    pub fn format_peer_info(&self) -> (r: String)
        requires
            self.wf(),
        ensures
            exists|lines: Seq<Seq<char>>| #[trigger]
                is_report(self@, self.peer_info.keys(), lines) && r@ == joined(lines, "\n"@),
    {
        let ghost ids = self.peer_info.keys();
        let ghost view = self@;
        let order = self.order_by_moniker();
        let mut lines: Vec<String> = Vec::new();
        lines.push("Address, Moniker, Type, PeerId, ConsensusAddr, Mesh, Dir, Score".to_owned());
        let local = self.local_node.to_text();
        lines.push(local);
        let mut k: usize = 0;
        while k < order.len()
            invariant
                self.wf(),
                k <= order@.len(),
                ids == self.peer_info.keys(),
                view == self@,
                is_sort_order(text_keys(monikers(view.peers, ids)), order@),
                lines@.len() == k + 2,
                lines@[0]@ == header(),
                view.local_node.described_by(lines@[1]@),
                forall|j: int|
                    0 <= j < k ==> view.peers[ids[order@[j] as int]].described_by(
                        ids[order@[j] as int],
                        (#[trigger] lines@[j + 2])@,
                    ),
            decreases order@.len() - k,
        {
            let pos: usize = order[k];
            assert(order@[k as int] < ids.len());
            proof {
                self.peer_info.lemma_entry(pos as int);
                assert(ids[pos as int] == self.peer_info.entries@[pos as int].0);
                assert(view.peers[ids[pos as int]] == self.peer_info.entries@[pos as int].1@);
            }
            let line = self.peer_info.entries[pos].1.format_with_peer_id(
                &self.peer_info.entries[pos].0,
            );
            lines.push(line);
            k = k + 1;
        }
        let r = join(&lines, "\n");
        proof {
            let all = texts(lines@);
            assert forall|j: int| 0 <= j < ids.len() implies view.peers[ids[order@[j] as int]].described_by(
                ids[order@[j] as int],
                #[trigger] all[j + 2],
            ) by {
                assert(all[j + 2] == lines@[j + 2]@);
            }
            assert(is_report(view, ids, all) && r@ == joined(all, "\n"@));
        }
        r
    }
}

} // verus!
