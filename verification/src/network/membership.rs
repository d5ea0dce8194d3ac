//! Changing who the persistent, explicit and inbound peers are.

use vstd::prelude::*;

use crate::discovery::state::{
    addresses, Action as DiscoveryAction, ActionView as DiscoveryActionView, AddressView,
    ConnectionDirection, Discovery,
};
use crate::engine::event::PeerId;
use crate::ident::{Ident, Ranked};
use crate::network::multiaddr::{Multiaddr, TransportProtocol};
use crate::network::peer::Score;
use crate::network::peers::PersistentPeerError;
use crate::network::state::{
    append_discovery_work, append_work, lemma_lowest_unique, work, Action, ActionView, State,
};

verus! {

/// The first position of an address.
fn position_of(addrs: &Vec<Multiaddr>, addr: &Multiaddr) -> (r: Option<usize>)
    ensures
        match r {
            Some(i) => i < addrs@.len() && is_first(addresses(addrs@), addr@, i as int),
            None => !addresses(addrs@).contains(addr@),
        },
{
    let ghost all = addresses(addrs@);
    let mut i: usize = 0;
    while i < addrs.len()
        invariant
            i <= addrs@.len(),
            all == addresses(addrs@),
            forall|j: int| 0 <= j < i ==> all[j] != addr@,
        decreases addrs@.len() - i,
    {
        assert(all[i as int] == addrs@[i as int]@);
        if addrs[i].same(addr) {
            return Some(i);
        }
        i = i + 1;
    }
    None
}

/// Whether `i` is the first position of `addr`.
pub open spec fn is_first(addrs: Seq<AddressView>, addr: AddressView, i: int) -> bool {
    &&& 0 <= i < addrs.len()
    &&& addrs[i] == addr
    &&& forall|j: int| 0 <= j < i ==> addrs[j] != addr
}

impl<E, C> State<E, C> {
    /// Make a persistent peer an explicit one. Nothing where explicit peering
    /// or gossipsub is off, or where the peer is not identified, not
    /// persistent, or explicit already.
    pub fn add_explicit_peer_to_gossipsub(&mut self, peer_id: PeerId) -> (r: Vec<Action>)
        requires
            old(self).wf(),
        ensures
            final(self).wf(),
            (final(self)@, work(r@)) == old(self)@.explicit_added(peer_id),
    {
        let ghost start = self@;
        let mut actions: Vec<Action> = Vec::new();
        assert(work(actions@) =~= Seq::<ActionView>::empty());
        if !self.enable_explicit_peering || !self.gossipsub {
            return actions;
        }
        if let Some(found) = self.peer_info.get(&peer_id) {
            if found.peer_type.is_persistent() && !found.is_explicit {
                let mut info = found.copy();
                self.metrics.record_explicit_peer(&peer_id, &info.moniker);
                info.is_explicit = true;
                self.peer_info.insert(peer_id, info);
                actions.push(Action::AddExplicitPeer(peer_id));
                proof {
                    assert(self@.peers =~= start.peers.insert(peer_id, info@));
                    assert(work(actions@) =~= seq![ActionView::AddExplicitPeer(peer_id)]);
                }
            }
        }
        actions
    }

    /// Make an explicit peer one no longer.
    pub fn remove_explicit_peer_from_gossipsub(&mut self, peer_id: &PeerId) -> (r: Vec<Action>)
        requires
            old(self).wf(),
        ensures
            final(self).wf(),
            (final(self)@, work(r@)) == old(self)@.explicit_removed(*peer_id),
    {
        let ghost start = self@;
        let mut actions: Vec<Action> = Vec::new();
        assert(work(actions@) =~= Seq::<ActionView>::empty());
        if !self.enable_explicit_peering || !self.gossipsub {
            return actions;
        }
        if let Some(found) = self.peer_info.get(peer_id) {
            if found.is_explicit {
                let mut info = found.copy();
                self.metrics.mark_explicit_peer_stale(peer_id, &info.moniker);
                info.is_explicit = false;
                self.peer_info.insert(*peer_id, info);
                actions.push(Action::RemoveExplicitPeer(*peer_id));
                proof {
                    assert(self@.peers =~= start.peers.insert(*peer_id, info@));
                    assert(work(actions@) =~= seq![ActionView::RemoveExplicitPeer(*peer_id)]);
                }
            }
        }
        actions
    }

    /// The work of giving a peer a score.
    pub fn set_peer_score(&self, peer_id: PeerId, score: Score) -> (r: Vec<Action>)
        ensures
            work(r@) == self@.score_work(peer_id, score),
    {
        let mut actions: Vec<Action> = Vec::new();
        if self.gossipsub {
            actions.push(Action::SetScore(peer_id, score));
        }
        assert(work(actions@) =~= self@.score_work(peer_id, score));
        actions
    }

    /// Change whether a peer is persistent, and its score and its series with it.
    fn update_peer_persistent_status(&mut self, peer_id: PeerId, is_persistent: bool) -> (r: Vec<Action>)
        requires
            old(self).wf(),
        ensures
            final(self).wf(),
            (final(self)@, work(r@)) == old(self)@.persistent_set(peer_id, is_persistent),
    {
        let ghost start = self@;
        match self.peer_info.get(&peer_id) {
            Some(found) => {
                let mut info = found.copy();
                info.peer_type = info.peer_type.with_persistent(is_persistent);
                let score = self.scores.get_peer_score(info.peer_type);
                info.score = score;
                self.metrics.update_peer_labels(&peer_id, found, &info);
                self.peer_info.insert(peer_id, info);
                assert(self@.peers =~= start.peers.insert(peer_id, info@));
                self.set_peer_score(peer_id, score)
            },
            None => {
                let none: Vec<Action> = Vec::new();
                assert(work(none@) =~= Seq::<ActionView>::empty());
                none
            },
        }
    }

    /// The inbound peer to evict: neither a validator nor persistent, with the
    /// lowest score.
    fn find_lowest_priority_inbound_peer(&self) -> (r: Option<PeerId>)
        requires
            self.wf(),
        ensures
            r == self@.lowest_inbound(),
    {
        let ghost entries = self.discovery.inbound_peers.entries@;
        let ghost view = self@;
        let mut best: Option<(PeerId, i64)> = None;
        let mut i: usize = 0;
        while i < self.discovery.inbound_peers.entries.len()
            invariant
                self.wf(),
                i <= entries.len(),
                entries == self.discovery.inbound_peers.entries@,
                view == self@,
                match best {
                    Some((p, order)) => view.is_candidate(p) && view.peers[p].score.order == order && (
                    exists|k: int| 0 <= k < i && (#[trigger] entries[k]).0 == p) && forall|j: int|
                        0 <= j < i && view.is_candidate((#[trigger] entries[j]).0) ==> order
                            < view.peers[entries[j].0].score.order || (order
                            == view.peers[entries[j].0].score.order && p.rank()
                            <= entries[j].0.rank()),
                    None => forall|j: int| 0 <= j < i ==> !view.is_candidate((#[trigger] entries[j]).0),
                },
            decreases entries.len() - i,
        {
            let id = self.discovery.inbound_peers.entries[i].0;
            proof {
                self.discovery.inbound_peers.lemma_entry(i as int);
                assert(view.discovery.inbound.contains(id));
            }
            if let Some(info) = self.peer_info.get(&id) {
                assert(view.peers[id] == info@);
                if !info.peer_type.is_validator() && !info.peer_type.is_persistent() {
                    assert(view.is_candidate(id));
                    let better = match best {
                        Some((_, order)) => info.score.order < order,
                        None => true,
                    };
                    if better {
                        best = Some((id, info.score.order));
                        assert(entries[i as int].0 == id);
                    }
                }
            }
            i = i + 1;
        }
        proof {
            assert forall|q: PeerId| #[trigger] view.is_candidate(q) implies exists|j: int|
                0 <= j < entries.len() && (#[trigger] entries[j]).0 == q by {
                let j = self.discovery.inbound_peers.index_of(q);
                assert(self.discovery.inbound_peers.has(q));
                assert(entries[j].0 == q);
            }
            match best {
                Some((p, _)) => {
                    assert forall|q: PeerId| #[trigger] view.is_candidate(q) implies view.peers[p].score.order
                        < view.peers[q].score.order || (view.peers[p].score.order
                        == view.peers[q].score.order && p.rank() <= q.rank()) by {
                        let j = choose|j: int| 0 <= j < entries.len() && (#[trigger] entries[j]).0 == q;
                        assert(view.is_candidate(entries[j].0));
                    }
                    assert(view.is_lowest(p));
                    lemma_lowest_unique(view, p);
                },
                None => {
                    assert forall|p: PeerId| !view.is_lowest(p) by {
                        if view.is_lowest(p) {
                            assert(view.is_candidate(p));
                        }
                    }
                },
            }
        }
        match best {
            Some((p, _)) => Some(p),
            None => None,
        }
    }

    /// Make a peer an inbound peer, where it is connected otherwise and there
    /// is room.
    fn promote(&mut self, peer_id: PeerId) -> (r: Vec<Action>)
        requires
            old(self).wf(),
        ensures
            final(self).wf(),
            (final(self)@, work(r@)) == old(self)@.promoted(peer_id),
    {
        let ghost start = self@;
        let mut actions: Vec<Action> = Vec::new();
        assert(work(actions@) =~= Seq::<ActionView>::empty());
        if self.discovery.promote_to_inbound(peer_id) {
            if let Some(found) = self.peer_info.get(&peer_id) {
                let mut info = found.copy();
                info.connection_direction = Some(ConnectionDirection::Inbound);
                self.peer_info.insert(peer_id, info);
                assert(self@.peers =~= start.peers.insert(peer_id, info@));
            }
            actions.push(Action::Discovery(DiscoveryAction::UpdateMetrics));
            assert(work(actions@) =~= seq![
                ActionView::Discovery(DiscoveryActionView::UpdateMetrics),
            ]);
        }
        actions
    }

    /// Give an inbound slot to a validator or a persistent peer that is
    /// connected without one. Where all slots are taken, the inbound peer of
    /// least worth leaves; it is returned.
    pub fn try_prioritize_peer(&mut self, peer_id: PeerId) -> (r: (Option<PeerId>, Vec<Action>))
        requires
            old(self).wf(),
        ensures
            final(self).wf(),
            (final(self)@, r.0, work(r.1@)) == old(self)@.prioritized(peer_id),
    {
        let ghost start = self@;
        let mut actions: Vec<Action> = Vec::new();
        assert(work(actions@) =~= Seq::<ActionView>::empty());
        let has_priority = match self.peer_info.get(&peer_id) {
            Some(info) => {
                assert(start.peers[peer_id] == info@);
                info.peer_type.is_validator() || info.peer_type.is_persistent()
            },
            None => false,
        };
        if !has_priority || !self.discovery.is_ephemeral_peer(&peer_id) {
            return (None, actions);
        }
        if self.discovery.has_inbound_capacity() {
            let promoted = self.promote(peer_id);
            return (None, promoted);
        }
        match self.find_lowest_priority_inbound_peer() {
            None => (None, actions),
            Some(evict_id) => {
                proof {
                    let p = choose|p: PeerId| start.is_lowest(p);
                    assert(start.is_lowest(p));
                    assert(start.is_candidate(evict_id));
                }
                if let Some(closing) = self.discovery.evict_inbound_peer(evict_id) {
                    append_discovery_work(&mut actions, closing);
                }
                let ghost freed = start.evicted(evict_id);
                assert(work(actions@) =~= freed.1);
                assert(self@ == freed.0);
                let promoted = self.promote(peer_id);
                append_work(&mut actions, promoted);
                (Some(evict_id), actions)
            },
        }
    }

    /// Add a persistent peer: an error where the address is one already.
    pub fn add_persistent_peer(&mut self, addr: Multiaddr) -> (r: (
        Result<(), PersistentPeerError>,
        Vec<Action>,
    ))
        requires
            old(self).wf(),
        ensures
            final(self).wf(),
            (final(self)@, r.0 is Ok, work(r.1@)) == old(self)@.persistent_added(addr@),
            r.0 matches Err(e) ==> e is AlreadyExists,
    {
        let ghost start = self@;
        let ghost want = start.persistent_added(addr@);
        let mut actions: Vec<Action> = Vec::new();
        assert(work(actions@) =~= Seq::<ActionView>::empty());
        if position_of(&self.persistent_peer_addrs, &addr).is_some() {
            return (Err(PersistentPeerError::AlreadyExists), actions);
        }
        if let Some(peer_id) = addr.peer_id() {
            self.persistent_peer_ids.insert(peer_id, ());
            assert(self@.persistent_ids =~= start.persistent_ids.insert(peer_id));
            let rescored = self.update_peer_persistent_status(peer_id, true);
            append_work(&mut actions, rescored);
            let (_, moved) = self.try_prioritize_peer(peer_id);
            append_work(&mut actions, moved);
            let made_explicit = self.add_explicit_peer_to_gossipsub(peer_id);
            append_work(&mut actions, made_explicit);
        }
        let ghost named = self@;
        self.persistent_peer_addrs.push(addr.copy());
        assert(self@.persistent_addrs =~= named.persistent_addrs.push(addr@));
        self.discovery.add_bootstrap_node(addr.copy());
        let ghost sofar = work(actions@);
        if TransportProtocol::from_multiaddr(&addr).is_some() {
            actions.push(Action::Dial(addr));
            assert(work(actions@) =~= sofar.push(ActionView::Dial(addr@)));
        }
        assert(work(actions@) =~= want.2);
        assert(self@ == want.0);
        (Ok(()), actions)
    }

    /// Remove a persistent peer: an error where the address is none. A peer that
    /// is connected is disconnected, unless it is an inbound peer that may stay.
    pub fn remove_persistent_peer(&mut self, addr: Multiaddr) -> (r: (
        Result<(), PersistentPeerError>,
        Vec<Action>,
    ))
        requires
            old(self).wf(),
        ensures
            final(self).wf(),
            r.0 is Ok == old(self)@.persistent_addrs.contains(addr@),
            r.0 matches Err(e) ==> e is NotFound && final(self)@ == old(self)@ && r.1@.len() == 0,
            r.0 is Ok ==> exists|i: int| #[trigger]
                is_first(old(self)@.persistent_addrs, addr@, i) && (final(self)@, work(r.1@))
                    == old(self)@.persistent_removed(i),
    {
        let ghost start = self@;
        let mut actions: Vec<Action> = Vec::new();
        assert(work(actions@) =~= Seq::<ActionView>::empty());
        let pos: usize = match position_of(&self.persistent_peer_addrs, &addr) {
            Some(i) => i,
            None => {
                return (Err(PersistentPeerError::NotFound), actions);
            },
        };
        let ghost want = start.persistent_removed(pos as int);
        assert(is_first(start.persistent_addrs, addr@, pos as int));
        self.persistent_peer_addrs.remove(pos);
        assert(self@.persistent_addrs =~= start.persistent_addrs.remove(pos as int));
        let peer_id = match addr.peer_id() {
            Some(p) => Some(p),
            None => self.discovery.get_peer_id_for_addr(&addr),
        };
        assert(peer_id == start.peer_behind(addr@));
        if let Some(p) = peer_id {
            self.persistent_peer_ids.remove(&p);
            assert(self@.persistent_ids =~= start.persistent_ids.remove(p));
            let quiet = self.remove_explicit_peer_from_gossipsub(&p);
            append_work(&mut actions, quiet);
            let rescored = self.update_peer_persistent_status(p, false);
            append_work(&mut actions, rescored);
            let ghost sofar = work(actions@);
            if self.local_node.persistent_peers_only || !self.discovery.is_inbound_peer(&p) {
                actions.push(Action::DisconnectIfConnected(p));
                assert(work(actions@) =~= sofar + seq![ActionView::DisconnectIfConnected(p)]);
            } else {
                assert(work(actions@) =~= sofar + Seq::<ActionView>::empty());
            }
        }
        let cancelled = Discovery::<E>::cancel_dial_attempts(&addr, peer_id);
        append_discovery_work(&mut actions, cancelled);
        self.discovery.remove_bootstrap_node(&addr);
        assert(work(actions@) =~= want.1);
        assert(self@ == want.0);
        (Ok(()), actions)
    }

    /// Forget a peer whose last connection was closed.
    pub fn remove_peer(&mut self, peer_id: &PeerId) -> (r: Vec<Action>)
        requires
            old(self).wf(),
        ensures
            final(self).wf(),
            (final(self)@, work(r@)) == old(self)@.peer_left(*peer_id),
    {
        let actions = self.remove_explicit_peer_from_gossipsub(peer_id);
        self.remove_learned_persistent_peer_id(peer_id);
        let ghost unlearned = self@;
        if let Some(info) = self.peer_info.remove(peer_id) {
            assert(unlearned.peers[*peer_id] == info@);
            self.metrics.free_slot(peer_id, &info);
        }
        self.pending_verified_proofs.remove(peer_id);
        proof {
            assert(self@.peers =~= unlearned.peers.remove(*peer_id));
            assert(self@.pending =~= unlearned.pending.remove(*peer_id));
        }
        actions
    }
}

} // verus!
