//! The metrics of the network: which series there are, and when they go.

use prometheus_client::metrics::family::Family;
use prometheus_client::metrics::gauge::Gauge;
use prometheus_client::registry::Registry;
use vstd::prelude::*;
use vstd::string::*;

use crate::engine::event::PeerId;
use crate::ident::OrdMap;
use crate::network::peer::{
    address_text, address_to_text, peer_id_to_text, peer_text, same_text, text_or_none,
    text_or_none_of, LocalNodeInfo, LocalNodeView, PeerInfo, PeerView, Score,
};
use crate::text::{contains_text, decimal, decimal_text, texts};

verus! {

/// How many peers have metrics of their own.
pub const MAX_PEER_SLOTS: usize = 100;

/// `prometheus_client`'s registry of metrics.
#[verifier::external_type_specification]
#[verifier::external_body]
pub struct ExRegistry(Registry);

/// Labels, each with its value.
pub type LabelsView = Seq<(Seq<char>, Seq<char>)>;

/// Labels, as values.
pub open spec fn label_views(labels: Seq<(String, String)>) -> LabelsView {
    labels.map_values(|l: (String, String)| (l.0@, l.1@))
}

/// A family of gauges of `prometheus_client`: one gauge for each set of labels.
#[verifier::external_body]
pub struct GaugeFamily {
    inner: Family<Vec<(String, String)>, Gauge>,
}

/// The gauges of a family, each with its value.
pub uninterp spec fn series(family: GaugeFamily) -> Map<Seq<(Seq<char>, Seq<char>)>, i64>;

/// The metrics of a registry, each with the name and the help text that it was
/// registered with, in order.
pub uninterp spec fn registered(registry: Registry) -> Seq<(Seq<char>, Seq<char>)>;

/// The name that the gauges of a family were last registered with.
pub uninterp spec fn family_name(family: GaugeFamily) -> Seq<char>;

/// No gauges.
pub open spec fn no_series() -> Map<LabelsView, i64> {
    Map::empty()
}

impl GaugeFamily {
    /// `prometheus_client`'s `Family::default`: a family without gauges.
    #[verifier::external_body]
    fn new() -> (r: Self)
        ensures
            series(r) == no_series(),
    {
        GaugeFamily { inner: Family::default() }
    }

    /// `prometheus_client`'s `Registry::register`, on a handle to the gauges of
    /// the family: the registry has one metric more, the last, with this name and
    /// help text, and the family, whose gauges stay as they are, has this name.
    #[verifier::external_body]
    fn register(self, registry: &mut Registry, name: &str, help: &str) -> (r: Self)
        ensures
            registered(*final(registry)) == registered(*old(registry)).push((name@, help@)),
            series(r) == series(self),
            family_name(r) == name@,
    {
        registry.register(name, help, self.inner.clone());
        self
    }

    /// `prometheus_client`'s `Family::get_or_create` and `Gauge::set`: the gauge
    /// with these labels has this value, and the others stay as they are.
    #[verifier::external_body]
    fn set(&mut self, labels: &Vec<(String, String)>, value: i64)
        ensures
            series(*final(self)) == series(*old(self)).insert(label_views(labels@), value),
            family_name(*final(self)) == family_name(*old(self)),
    {
        self.inner.get_or_create(labels).set(value);
    }

    /// `prometheus_client`'s `Family::remove`: there is no gauge with these
    /// labels, and the others stay as they are.
    #[verifier::external_body]
    fn remove(&mut self, labels: &Vec<(String, String)>)
        ensures
            series(*final(self)) == series(*old(self)).remove(label_views(labels@)),
            family_name(*final(self)) == family_name(*old(self)),
    {
        self.inner.remove(labels);
    }
}

/// The lowest number from `from` on, below `max`, that no peer has.
pub open spec fn lowest_free(slots: Map<PeerId, usize>, max: usize, from: int) -> Option<usize>
    decreases max - from,
{
    if from < 0 || from >= max {
        None
    } else if exists|p: PeerId| #[trigger] slots.contains_key(p) && slots[p] == from {
        lowest_free(slots, max, from + 1)
    } else {
        Some(from as usize)
    }
}

/// Numbers below a bound, each held by one peer at most.
pub struct Slots {
    pub max: usize,
    pub held: OrdMap<PeerId, usize>,
}

/// Whether no two peers have the same number, and all are below `max`.
pub open spec fn distinct_slots(slots: Map<PeerId, usize>, max: usize) -> bool {
    &&& forall|p: PeerId| #[trigger] slots.contains_key(p) ==> slots[p] < max
    &&& forall|p: PeerId, q: PeerId| #[trigger]
        slots.contains_key(p) && #[trigger] slots.contains_key(q) && slots[p] == slots[q] ==> p == q
}

/// The numbers after `p` has asked for one: the one that it has, or the lowest
/// free one.
pub open spec fn with_slot(slots: Map<PeerId, usize>, max: usize, p: PeerId) -> (
    Map<PeerId, usize>,
    Option<usize>,
) {
    if slots.contains_key(p) {
        (slots, Some(slots[p]))
    } else {
        match lowest_free(slots, max, 0) {
            Some(s) => (slots.insert(p, s), Some(s)),
            None => (slots, None),
        }
    }
}

/// The lowest free number is free, and below the bound.
pub proof fn lemma_lowest_free(slots: Map<PeerId, usize>, max: usize, from: int)
    requires
        0 <= from,
    ensures
        lowest_free(slots, max, from) matches Some(s) ==> from <= s < max && forall|p: PeerId| #[trigger]
            slots.contains_key(p) ==> slots[p] != s,
    decreases max - from,
{
    if from < max {
        lemma_lowest_free(slots, max, from + 1);
    }
}

impl Slots {
    /// Numbers are below the bound and distinct.
    pub open spec fn wf(self) -> bool {
        &&& self.held.wf()
        &&& distinct_slots(self.held@, self.max)
    }

    /// No number is held.
    pub fn new(max: usize) -> (r: Self)
        ensures
            r.wf(),
            r.max == max,
            r.held@ == Map::<PeerId, usize>::empty(),
    {
        Slots { max, held: OrdMap::new() }
    }

    /// The number that `id` holds.
    pub fn get(&self, id: &PeerId) -> (r: Option<usize>)
        requires
            self.wf(),
        ensures
            match r {
                Some(s) => self.held@.contains_key(*id) && s == self.held@[*id],
                None => !self.held@.contains_key(*id),
            },
    {
        match self.held.get(id) {
            Some(s) => Some(*s),
            None => None,
        }
    }

    /// Whether some peer holds the number `slot`.
    fn is_held(&self, slot: usize) -> (r: bool)
        requires
            self.wf(),
        ensures
            r == exists|p: PeerId| #[trigger] self.held@.contains_key(p) && self.held@[p] == slot,
    {
        let mut i: usize = 0;
        while i < self.held.entries.len()
            invariant
                self.wf(),
                i <= self.held.entries@.len(),
                forall|j: int| 0 <= j < i ==> (#[trigger] self.held.entries@[j]).1 != slot,
            decreases self.held.entries@.len() - i,
        {
            proof {
                self.held.lemma_entry(i as int);
            }
            if self.held.entries[i].1 == slot {
                return true;
            }
            i = i + 1;
        }
        proof {
            assert forall|p: PeerId| #[trigger] self.held@.contains_key(p) implies self.held@[p]
                != slot by {
                let k = self.held.index_of(p);
                assert(self.held.entries@[k].1 != slot);
            }
        }
        false
    }

    /// The number that `id` holds, or else the lowest free one, which it then
    /// holds; none where all are held by others.
    pub fn assign(&mut self, id: PeerId) -> (r: Option<usize>)
        requires
            old(self).wf(),
        ensures
            final(self).wf(),
            final(self).max == old(self).max,
            (final(self).held@, r) == with_slot(old(self).held@, old(self).max, id),
    {
        if let Some(s) = self.get(&id) {
            return Some(s);
        }
        let mut s: usize = 0;
        while s < self.max
            invariant
                s <= self.max,
                *self == *old(self),
                self.wf(),
                !self.held@.contains_key(id),
                lowest_free(self.held@, self.max, 0) == lowest_free(self.held@, self.max, s as int),
            decreases self.max - s,
        {
            if !self.is_held(s) {
                proof {
                    lemma_lowest_free(self.held@, self.max, 0);
                }
                self.held.insert(id, s);
                return Some(s);
            }
            s = s + 1;
        }
        None
    }

    /// Take the number that `id` holds.
    pub fn release(&mut self, id: &PeerId) -> (r: Option<usize>)
        requires
            old(self).wf(),
        ensures
            final(self).wf(),
            final(self).max == old(self).max,
            final(self).held@ == old(self).held@.remove(*id),
            match r {
                Some(s) => old(self).held@.contains_key(*id) && s == old(self).held@[*id],
                None => !old(self).held@.contains_key(*id),
            },
    {
        self.held.remove(id)
    }

    /// How many numbers are held.
    pub fn assigned(&self) -> (r: usize)
        requires
            self.wf(),
        ensures
            r == self.held@.len(),
    {
        self.held.len()
    }
}

/// The labels of the series of a peer.
pub open spec fn peer_labels(p: PeerId, slot: usize, info: PeerView) -> LabelsView {
    seq![
        ("slot"@, decimal(slot as nat)),
        ("peer_moniker"@, info.moniker),
        ("peer_id"@, peer_text(p)),
        ("peer_type"@, info.peer_type.role()),
        ("consensus_address"@, text_or_none(info.consensus_address)),
    ]
}

/// The labels of a peer in the mesh of a topic.
pub open spec fn mesh_labels(p: PeerId, moniker: Seq<char>, topic: Seq<char>) -> LabelsView {
    seq![("peer_id"@, peer_text(p)), ("peer_moniker"@, moniker), ("topic"@, topic)]
}

/// The labels of an explicit peer.
pub open spec fn explicit_labels(p: PeerId, moniker: Seq<char>) -> LabelsView {
    seq![("peer_id"@, peer_text(p)), ("peer_moniker"@, moniker)]
}

/// The labels of this node.
pub open spec fn local_labels(info: LocalNodeView) -> LabelsView {
    seq![
        ("peer_id"@, peer_text(info.peer_id)),
        ("listen_addr"@, address_text(info.listen_addr)),
        ("consensus_address"@, text_or_none(info.consensus_address)),
    ]
}

/// `mesh` without the series of a peer in the topics that are not in `keep`.
pub open spec fn without_topics(
    mesh: Map<LabelsView, i64>,
    p: PeerId,
    moniker: Seq<char>,
    topics: Seq<Seq<char>>,
    keep: Seq<Seq<char>>,
) -> Map<LabelsView, i64>
    decreases topics.len(),
{
    if topics.len() == 0 {
        mesh
    } else {
        let rest = without_topics(mesh, p, moniker, topics.drop_last(), keep);
        if keep.contains(topics.last()) {
            rest
        } else {
            rest.remove(mesh_labels(p, moniker, topics.last()))
        }
    }
}

/// `mesh` with series of a peer in the topics that are not in `known`.
pub open spec fn with_topics(
    mesh: Map<LabelsView, i64>,
    p: PeerId,
    moniker: Seq<char>,
    topics: Seq<Seq<char>>,
    known: Seq<Seq<char>>,
) -> Map<LabelsView, i64>
    decreases topics.len(),
{
    if topics.len() == 0 {
        mesh
    } else {
        let rest = with_topics(mesh, p, moniker, topics.drop_last(), known);
        if known.contains(topics.last()) {
            rest
        } else {
            rest.insert(mesh_labels(p, moniker, topics.last()), 1)
        }
    }
}

impl PeerView {
    /// Whether what the labels show of two peers is the same.
    pub open spec fn labels_match(self, other: PeerView) -> bool {
        &&& self.moniker == other.moniker
        &&& self.peer_type == other.peer_type
        &&& self.consensus_address == other.consensus_address
    }
}

impl PeerInfo {
    /// The labels of the series of the peer.
    fn to_labels(&self, peer_id: &PeerId, slot: usize) -> (r: Vec<(String, String)>)
        ensures
            label_views(r@) == peer_labels(*peer_id, slot, self@),
    {
        let mut labels: Vec<(String, String)> = Vec::new();
        labels.push(("slot".to_owned(), decimal_text(slot as u64)));
        labels.push(("peer_moniker".to_owned(), self.moniker.clone()));
        labels.push(("peer_id".to_owned(), peer_id_to_text(peer_id)));
        labels.push(("peer_type".to_owned(), self.peer_type.primary_type_str().to_owned()));
        labels.push(("consensus_address".to_owned(), text_or_none_of(&self.consensus_address)));
        assert(label_views(labels@) =~= peer_labels(*peer_id, slot, self@));
        labels
    }

    /// Whether what the labels show of two peers is the same.
    pub fn labels_match(&self, other: &PeerInfo) -> (r: bool)
        ensures
            r == self@.labels_match(other@),
    {
        self.moniker == other.moniker && self.peer_type == other.peer_type && same_text(
            &self.consensus_address,
            &other.consensus_address,
        )
    }
}

/// The labels of a peer in the mesh of a topic.
fn mesh_membership_labels(peer_id: &PeerId, moniker: &String, topic: &String) -> (r: Vec<(String, String)>)
    ensures
        label_views(r@) == mesh_labels(*peer_id, moniker@, topic@),
{
    let mut labels: Vec<(String, String)> = Vec::new();
    labels.push(("peer_id".to_owned(), peer_id_to_text(peer_id)));
    labels.push(("peer_moniker".to_owned(), moniker.clone()));
    labels.push(("topic".to_owned(), topic.clone()));
    assert(label_views(labels@) =~= mesh_labels(*peer_id, moniker@, topic@));
    labels
}

/// The labels of an explicit peer.
fn explicit_peer_labels(peer_id: &PeerId, moniker: &String) -> (r: Vec<(String, String)>)
    ensures
        label_views(r@) == explicit_labels(*peer_id, moniker@),
{
    let mut labels: Vec<(String, String)> = Vec::new();
    labels.push(("peer_id".to_owned(), peer_id_to_text(peer_id)));
    labels.push(("peer_moniker".to_owned(), moniker.clone()));
    assert(label_views(labels@) =~= explicit_labels(*peer_id, moniker@));
    labels
}

/// The metrics of the network.
pub struct Metrics {
    local_node_info: GaugeFamily,
    discovered_peers: GaugeFamily,
    peer_mesh_membership: GaugeFamily,
    explicit_peers: GaugeFamily,
    peer_slots: Slots,
}

/// The metrics of the network, as values.
pub struct MetricsView {
    /// Whether this node is a validator.
    pub local_node_info: Map<LabelsView, i64>,
    /// The scores of the peers.
    pub discovered_peers: Map<LabelsView, i64>,
    /// The peers in the meshes of topics.
    pub peer_mesh_membership: Map<LabelsView, i64>,
    /// The explicit peers.
    pub explicit_peers: Map<LabelsView, i64>,
    /// The numbers of the peers that have metrics.
    pub slots: Map<PeerId, usize>,
    /// The names that the four families are registered with, in the order above.
    pub names: Seq<Seq<char>>,
}

impl View for Metrics {
    type V = MetricsView;

    closed spec fn view(&self) -> MetricsView {
        MetricsView {
            local_node_info: series(self.local_node_info),
            discovered_peers: series(self.discovered_peers),
            peer_mesh_membership: series(self.peer_mesh_membership),
            explicit_peers: series(self.explicit_peers),
            slots: self.peer_slots.held@,
            names: seq![
                family_name(self.local_node_info),
                family_name(self.discovered_peers),
                family_name(self.peer_mesh_membership),
                family_name(self.explicit_peers),
            ],
        }
    }
}

/// The names and help texts of the families, in the order in which they are
/// registered.
pub open spec fn families() -> Seq<(Seq<char>, Seq<char>)> {
    seq![
        (
            "local_node_info"@,
            "Information about the local node (gauge value: 1 = validator, 0 = not validator)"@,
        ),
        (
            "discovered_peers"@,
            "Discovered/connected peers with basic info (gauge value = peer score)"@,
        ),
        (
            "peer_mesh_membership"@,
            "Per-peer, per-topic gossipsub mesh membership (entry present with value 1 = in mesh; entry absent = not in mesh)"@,
        ),
        (
            "explicit_peers"@,
            "Peers added as explicit peers in gossipsub (entry present with value 1 = active; entry absent = not explicit / disconnected)"@,
        ),
    ]
}

impl MetricsView {
    /// No series, and the names of the families.
    pub open spec fn empty() -> MetricsView {
        MetricsView {
            local_node_info: Map::empty(),
            discovered_peers: Map::empty(),
            peer_mesh_membership: Map::empty(),
            explicit_peers: Map::empty(),
            slots: Map::empty(),
            names: seq![
                "local_node_info"@,
                "discovered_peers"@,
                "peer_mesh_membership"@,
                "explicit_peers"@,
            ],
        }
    }

    /// The metrics with what is known of this node.
    pub open spec fn set_local(self, info: LocalNodeView) -> MetricsView {
        MetricsView {
            local_node_info: self.local_node_info.insert(
                local_labels(info),
                if info.is_validator { 1 } else { 0 },
            ),
            ..self
        }
    }

    /// The metrics with a series for a new peer, while there is room.
    pub open spec fn record_new_peer(self, p: PeerId, info: PeerView) -> MetricsView {
        let (slots, slot) = with_slot(self.slots, MAX_PEER_SLOTS, p);
        match slot {
            Some(s) => MetricsView {
                slots,
                discovered_peers: self.discovered_peers.insert(
                    peer_labels(p, s, info),
                    info.score.whole,
                ),
                ..self
            },
            None => self,
        }
    }

    /// The metrics with the series of a peer moved to its new labels.
    pub open spec fn update_peer_labels(self, p: PeerId, was: PeerView, info: PeerView) -> MetricsView {
        if !self.slots.contains_key(p) {
            self
        } else {
            let s = self.slots[p];
            let kept = if was.labels_match(info) {
                self.discovered_peers
            } else {
                self.discovered_peers.remove(peer_labels(p, s, was))
            };
            MetricsView {
                discovered_peers: kept.insert(peer_labels(p, s, info), info.score.whole),
                ..self
            }
        }
    }

    /// The metrics with the score and the meshes of a peer, while there is room.
    pub open spec fn update_peer_metrics(
        self,
        p: PeerId,
        info: PeerView,
        score: Score,
        topics: Option<Seq<Seq<char>>>,
    ) -> MetricsView {
        let (slots, slot) = with_slot(self.slots, MAX_PEER_SLOTS, p);
        match slot {
            Some(s) => MetricsView {
                slots,
                peer_mesh_membership: match topics {
                    Some(now) => with_topics(
                        without_topics(
                            self.peer_mesh_membership,
                            p,
                            info.moniker,
                            info.topics,
                            now,
                        ),
                        p,
                        info.moniker,
                        now,
                        info.topics,
                    ),
                    None => self.peer_mesh_membership,
                },
                discovered_peers: self.discovered_peers.insert(peer_labels(p, s, info), score.whole),
                ..self
            },
            None => self,
        }
    }

    /// The metrics without the series of a peer.
    pub open spec fn free_slot(self, p: PeerId, info: PeerView) -> MetricsView {
        if !self.slots.contains_key(p) {
            self
        } else {
            MetricsView {
                slots: self.slots.remove(p),
                discovered_peers: self.discovered_peers.remove(peer_labels(p, self.slots[p], info)),
                peer_mesh_membership: without_topics(
                    self.peer_mesh_membership,
                    p,
                    info.moniker,
                    info.topics,
                    Seq::empty(),
                ),
                ..self
            }
        }
    }

    /// The metrics with an explicit peer.
    pub open spec fn record_explicit_peer(self, p: PeerId, moniker: Seq<char>) -> MetricsView {
        MetricsView {
            explicit_peers: self.explicit_peers.insert(explicit_labels(p, moniker), 1),
            ..self
        }
    }

    /// The metrics without an explicit peer.
    pub open spec fn mark_explicit_peer_stale(self, p: PeerId, moniker: Seq<char>) -> MetricsView {
        MetricsView {
            explicit_peers: self.explicit_peers.remove(explicit_labels(p, moniker)),
            ..self
        }
    }
}

impl Metrics {
    /// No two peers have the same number.
    pub closed spec fn wf(self) -> bool {
        &&& self.peer_slots.wf()
        &&& self.peer_slots.max == MAX_PEER_SLOTS
    }

    /// The numbers of peers are distinct, and below the bound.
    pub proof fn law_slots_are_distinct(self)
        requires
            self.wf(),
        ensures
            distinct_slots(self@.slots, MAX_PEER_SLOTS),
    {
    }

    /// Metrics without series, each family registered with `registry` under its
    /// name.
    pub fn new(registry: &mut Registry) -> (r: Self)
        ensures
            r.wf(),
            r@ == MetricsView::empty(),
            registered(*final(registry)) == registered(*old(registry)) + families(),
    {
        let ghost before = registered(*registry);
        let local_node_info = GaugeFamily::new().register(
            registry,
            "local_node_info",
            "Information about the local node (gauge value: 1 = validator, 0 = not validator)",
        );
        let discovered_peers = GaugeFamily::new().register(
            registry,
            "discovered_peers",
            "Discovered/connected peers with basic info (gauge value = peer score)",
        );
        let peer_mesh_membership = GaugeFamily::new().register(
            registry,
            "peer_mesh_membership",
            "Per-peer, per-topic gossipsub mesh membership (entry present with value 1 = in mesh; entry absent = not in mesh)",
        );
        let explicit_peers = GaugeFamily::new().register(
            registry,
            "explicit_peers",
            "Peers added as explicit peers in gossipsub (entry present with value 1 = active; entry absent = not explicit / disconnected)",
        );
        assert(registered(*registry) =~= before + families());
        Metrics {
            local_node_info,
            discovered_peers,
            peer_mesh_membership,
            explicit_peers,
            peer_slots: Slots::new(MAX_PEER_SLOTS),
        }
    }

    /// Show what is known of this node; the value is one for a validator.
    pub fn set_local_node_info(&mut self, info: &LocalNodeInfo)
        requires
            old(self).wf(),
        ensures
            final(self).wf(),
            final(self)@ == old(self)@.set_local(info@),
    {
        let mut labels: Vec<(String, String)> = Vec::new();
        labels.push(("peer_id".to_owned(), peer_id_to_text(&info.peer_id)));
        labels.push(("listen_addr".to_owned(), address_to_text(&info.listen_addr)));
        labels.push(("consensus_address".to_owned(), text_or_none_of(&info.consensus_address)));
        assert(label_views(labels@) =~= local_labels(info@));
        self.local_node_info.set(
            &labels,
            if info.is_validator {
                1
            } else {
                0
            },
        );
    }

    /// Remove the series of a peer in the topics that are not in `keep`.
    fn remove_topics(&mut self, peer_id: &PeerId, moniker: &String, topics: &Vec<String>, keep: &Vec<String>)
        requires
            old(self).wf(),
        ensures
            final(self).wf(),
            final(self)@ == (MetricsView {
                peer_mesh_membership: without_topics(
                    old(self)@.peer_mesh_membership,
                    *peer_id,
                    moniker@,
                    texts(topics@),
                    texts(keep@),
                ),
                ..old(self)@
            }),
    {
        let ghost start = self@;
        let ghost all = texts(topics@);
        let mut i: usize = 0;
        assert(all.subrange(0, 0) =~= Seq::<Seq<char>>::empty());
        while i < topics.len()
            invariant
                self.wf(),
                i <= topics@.len(),
                all == texts(topics@),
                self@ == (MetricsView {
                    peer_mesh_membership: without_topics(
                        start.peer_mesh_membership,
                        *peer_id,
                        moniker@,
                        all.subrange(0, i as int),
                        texts(keep@),
                    ),
                    ..start
                }),
            decreases topics@.len() - i,
        {
            proof {
                assert(all.subrange(0, i + 1).drop_last() =~= all.subrange(0, i as int));
                assert(all.subrange(0, i + 1).last() == topics@[i as int]@);
            }
            if !contains_text(keep, &topics[i]) {
                let labels = mesh_membership_labels(peer_id, moniker, &topics[i]);
                self.peer_mesh_membership.remove(&labels);
            }
            i = i + 1;
        }
        assert(all.subrange(0, i as int) =~= all);
    }

    /// Add series of a peer in the topics that are not in `known`.
    fn add_topics(&mut self, peer_id: &PeerId, moniker: &String, topics: &Vec<String>, known: &Vec<String>)
        requires
            old(self).wf(),
        ensures
            final(self).wf(),
            final(self)@ == (MetricsView {
                peer_mesh_membership: with_topics(
                    old(self)@.peer_mesh_membership,
                    *peer_id,
                    moniker@,
                    texts(topics@),
                    texts(known@),
                ),
                ..old(self)@
            }),
    {
        let ghost start = self@;
        let ghost all = texts(topics@);
        let mut i: usize = 0;
        assert(all.subrange(0, 0) =~= Seq::<Seq<char>>::empty());
        while i < topics.len()
            invariant
                self.wf(),
                i <= topics@.len(),
                all == texts(topics@),
                self@ == (MetricsView {
                    peer_mesh_membership: with_topics(
                        start.peer_mesh_membership,
                        *peer_id,
                        moniker@,
                        all.subrange(0, i as int),
                        texts(known@),
                    ),
                    ..start
                }),
            decreases topics@.len() - i,
        {
            proof {
                assert(all.subrange(0, i + 1).drop_last() =~= all.subrange(0, i as int));
                assert(all.subrange(0, i + 1).last() == topics@[i as int]@);
            }
            if !contains_text(known, &topics[i]) {
                let labels = mesh_membership_labels(peer_id, moniker, &topics[i]);
                self.peer_mesh_membership.set(&labels, 1);
            }
            i = i + 1;
        }
        assert(all.subrange(0, i as int) =~= all);
    }

    /// Show the score of a peer and, where they are given, the meshes that it
    /// is in now; `peer_info` still has the ones that it was in. An error where
    /// there is no room for the peer.
    pub fn update_peer_metrics(
        &mut self,
        peer_id: &PeerId,
        peer_info: &PeerInfo,
        score: Score,
        new_topics: Option<&Vec<String>>,
    ) -> (r: Result<(), ()>)
        requires
            old(self).wf(),
        ensures
            final(self).wf(),
            final(self)@ == old(self)@.update_peer_metrics(
                *peer_id,
                peer_info@,
                score,
                match new_topics {
                    Some(t) => Some(texts(t@)),
                    None => None,
                },
            ),
            r is Ok == with_slot(old(self)@.slots, MAX_PEER_SLOTS, *peer_id).1 is Some,
    {
        let slot: usize = match self.peer_slots.assign(*peer_id) {
            Some(s) => s,
            None => {
                return Err(());
            },
        };
        if let Some(now) = new_topics {
            self.remove_topics(peer_id, &peer_info.moniker, &peer_info.topics, now);
            self.add_topics(peer_id, &peer_info.moniker, now, &peer_info.topics);
        }
        let labels = peer_info.to_labels(peer_id, slot);
        self.discovered_peers.set(&labels, score.whole);
        Ok(())
    }

    /// Remove the series of a peer that is gone.
    pub fn free_slot(&mut self, peer_id: &PeerId, peer_info: &PeerInfo)
        requires
            old(self).wf(),
        ensures
            final(self).wf(),
            final(self)@ == old(self)@.free_slot(*peer_id, peer_info@),
    {
        if let Some(slot) = self.peer_slots.release(peer_id) {
            let labels = peer_info.to_labels(peer_id, slot);
            self.discovered_peers.remove(&labels);
            let none: Vec<String> = Vec::new();
            assert(texts(none@) =~= Seq::<Seq<char>>::empty());
            self.remove_topics(peer_id, &peer_info.moniker, &peer_info.topics, &none);
        } else {
            assert(self@.slots =~= old(self)@.slots);
        }
    }

    /// Show an explicit peer.
    pub fn record_explicit_peer(&mut self, peer_id: &PeerId, moniker: &String)
        requires
            old(self).wf(),
        ensures
            final(self).wf(),
            final(self)@ == old(self)@.record_explicit_peer(*peer_id, moniker@),
    {
        let labels = explicit_peer_labels(peer_id, moniker);
        self.explicit_peers.set(&labels, 1);
    }

    /// Remove an explicit peer.
    pub fn mark_explicit_peer_stale(&mut self, peer_id: &PeerId, moniker: &String)
        requires
            old(self).wf(),
        ensures
            final(self).wf(),
            final(self)@ == old(self)@.mark_explicit_peer_stale(*peer_id, moniker@),
    {
        let labels = explicit_peer_labels(peer_id, moniker);
        self.explicit_peers.remove(&labels);
    }

    /// Show a new peer, while there is room.
    pub fn record_new_peer(&mut self, peer_id: &PeerId, peer_info: &PeerInfo)
        requires
            old(self).wf(),
        ensures
            final(self).wf(),
            final(self)@ == old(self)@.record_new_peer(*peer_id, peer_info@),
    {
        if let Some(slot) = self.peer_slots.assign(*peer_id) {
            let labels = peer_info.to_labels(peer_id, slot);
            self.discovered_peers.set(&labels, peer_info.score.whole);
        }
    }

    /// Show a peer under its new labels, and no longer under its old ones.
    /// Whether the labels of a peer that is shown have changed.
    pub fn update_peer_labels(
        &mut self,
        peer_id: &PeerId,
        old_peer_info: &PeerInfo,
        new_peer_info: &PeerInfo,
    ) -> (r: bool)
        requires
            old(self).wf(),
        ensures
            final(self).wf(),
            final(self)@ == old(self)@.update_peer_labels(
                *peer_id,
                old_peer_info@,
                new_peer_info@,
            ),
            r == (old(self)@.slots.contains_key(*peer_id) && !old_peer_info@.labels_match(
                new_peer_info@,
            )),
    {
        let slot: usize = match self.peer_slots.get(peer_id) {
            Some(s) => s,
            None => {
                return false;
            },
        };
        let labels_changed = !old_peer_info.labels_match(new_peer_info);
        if labels_changed {
            let old_labels = old_peer_info.to_labels(peer_id, slot);
            self.discovered_peers.remove(&old_labels);
        }
        let new_labels = new_peer_info.to_labels(peer_id, slot);
        self.discovered_peers.set(&new_labels, new_peer_info.score.whole);
        labels_changed
    }
}

} // verus!
