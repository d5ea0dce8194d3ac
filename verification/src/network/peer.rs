//! What is known of this node, of its peers and of the validators.

use libp2p::PeerId as Libp2pPeerId;
use vstd::prelude::*;
use vstd::string::*;

use crate::bytes::{same_bytes, SHORT_BYTES_MAX};
use crate::discovery::state::{AddressView, ConnectionDirection};
use crate::engine::event::PeerId;
use crate::network::multiaddr::{binary, multiaddr_text, Multiaddr};
use crate::text::{
    copy_texts, is_sorted_version, join, joined, signed_decimal, signed_decimal_text, sorted_texts,
    texts,
};

verus! {

/// The text that `libp2p` gives for the bytes of a peer identifier; none where
/// the bytes are not that of one.
pub uninterp spec fn peer_id_text(bytes: Seq<u8>) -> Option<Seq<char>>;

/// The text of a peer identifier with `libp2p`'s `PeerId`, read with
/// `PeerId::from_bytes` and written with `Display`. The result depends on the
/// bytes alone and is named [`peer_id_text`].
#[verifier::external_body]
fn format_peer_id(bytes: &[u8]) -> (r: Option<String>)
    ensures
        match r {
            Some(t) => peer_id_text(bytes@) == Some(t@),
            None => peer_id_text(bytes@) is None,
        },
{
    Libp2pPeerId::from_bytes(bytes).ok().map(|id| id.to_string())
}

/// The text of a peer identifier; empty where it has none.
pub open spec fn peer_text(id: PeerId) -> Seq<char> {
    if id.len > SHORT_BYTES_MAX {
        Seq::empty()
    } else {
        match peer_id_text(id.seq()) {
            Some(t) => t,
            None => Seq::empty(),
        }
    }
}

/// The text of a peer identifier; empty where it has none.
pub fn peer_id_to_text(id: &PeerId) -> (r: String)
    ensures
        r@ == peer_text(*id),
{
    let empty = String::new();
    assert(empty@ =~= Seq::<char>::empty());
    if id.len > SHORT_BYTES_MAX as u64 {
        return empty;
    }
    let bytes = id.to_vec();
    match format_peer_id(bytes.as_slice()) {
        Some(t) => t,
        None => empty,
    }
}

/// The text of an address; empty where it has none.
pub open spec fn address_text(a: AddressView) -> Seq<char> {
    match multiaddr_text(binary(a)) {
        Some(t) => t,
        None => Seq::empty(),
    }
}

/// The text of an address; empty where it has none.
pub fn address_to_text(a: &Multiaddr) -> (r: String)
    ensures
        r@ == address_text(a@),
{
    match a.to_text() {
        Some(t) => t,
        None => {
            let empty = String::new();
            assert(empty@ =~= Seq::<char>::empty());
            empty
        },
    }
}

/// A text that may be missing, as a value.
pub open spec fn text_view(t: Option<String>) -> Option<Seq<char>> {
    match t {
        Some(s) => Some(s@),
        None => None,
    }
}

/// A byte string that may be missing, as a value.
pub open spec fn bytes_view(b: Option<Vec<u8>>) -> Option<Seq<u8>> {
    match b {
        Some(s) => Some(s@),
        None => None,
    }
}

/// A text, or "none" where it is missing.
pub open spec fn text_or_none(t: Option<Seq<char>>) -> Seq<char> {
    match t {
        Some(s) => s,
        None => "none"@,
    }
}

/// A copy of a text that may be missing.
pub fn copy_text(t: &Option<String>) -> (r: Option<String>)
    ensures
        text_view(r) == text_view(*t),
{
    match t {
        Some(s) => Some(s.clone()),
        None => None,
    }
}

/// A text, or "none" where it is missing.
pub fn text_or_none_of(t: &Option<String>) -> (r: String)
    ensures
        r@ == text_or_none(text_view(*t)),
{
    match t {
        Some(s) => s.clone(),
        None => "none".to_owned(),
    }
}

/// Whether two texts that may be missing are the same.
pub fn same_text(a: &Option<String>, b: &Option<String>) -> (r: bool)
    ensures
        r == (text_view(*a) == text_view(*b)),
{
    match (a, b) {
        (Some(x), Some(y)) => *x == *y,
        (None, None) => true,
        _ => false,
    }
}

/// What a peer is to this node. A peer can be persistent and a validator.
#[derive(Clone, Copy, Debug, PartialEq, Eq, Structural)]
pub struct PeerType {
    pub persistent: bool,
    pub validator: bool,
}

impl PeerType {
    /// A peer type with the two roles.
    pub fn new(is_persistent: bool, is_validator: bool) -> (r: Self)
        ensures
            r == (PeerType { persistent: is_persistent, validator: is_validator }),
    {
        PeerType { persistent: is_persistent, validator: is_validator }
    }

    /// Whether the peer is a persistent peer.
    pub fn is_persistent(&self) -> (r: bool)
        ensures
            r == self.persistent,
    {
        self.persistent
    }

    /// Whether the peer is a validator.
    pub fn is_validator(&self) -> (r: bool)
        ensures
            r == self.validator,
    {
        self.validator
    }

    /// The type with another validator role.
    pub fn with_validator_status(self, is_validator: bool) -> (r: Self)
        ensures
            r == (PeerType { validator: is_validator, ..self }),
    {
        PeerType { persistent: self.persistent, validator: is_validator }
    }

    /// The type with another persistent role.
    pub fn with_persistent(self, is_persistent: bool) -> (r: Self)
        ensures
            r == (PeerType { persistent: is_persistent, ..self }),
    {
        PeerType { persistent: is_persistent, validator: self.validator }
    }

    /// Whether the peer is a validator or persistent.
    pub open spec fn has_priority(self) -> bool {
        self.validator || self.persistent
    }

    /// The name of the highest role.
    pub open spec fn role(self) -> Seq<char> {
        if self.validator {
            "validator"@
        } else if self.persistent {
            "persistent_peer"@
        } else {
            "full_node"@
        }
    }

    /// The name of the highest role.
    pub fn primary_type_str(&self) -> (r: &'static str)
        ensures
            r@ == self.role(),
    {
        if self.validator {
            "validator"
        } else if self.persistent {
            "persistent_peer"
        } else {
            "full_node"
        }
    }
}

/// A score of a peer.
#[derive(Clone, Copy, Debug, PartialEq, Eq, Structural)]
pub struct Score {
    /// The position of the score in the total order of scores.
    pub order: i64,
    /// The score without its fraction.
    pub whole: i64,
}

/// The scores that peers have by their roles.
#[derive(Clone, Copy, Debug, PartialEq, Eq, Structural)]
pub struct Scores {
    pub validator: Score,
    pub persistent_peer: Score,
    pub full_node: Score,
    /// The score of a peer that is not yet identified.
    pub unidentified: Score,
}

impl Scores {
    /// The score of a peer of the given type: that of its highest role.
    pub open spec fn score_of(self, t: PeerType) -> Score {
        if t.validator {
            self.validator
        } else if t.persistent {
            self.persistent_peer
        } else {
            self.full_node
        }
    }

    /// The score of a peer of the given type.
    pub fn get_peer_score(&self, peer_type: PeerType) -> (r: Score)
        ensures
            r == self.score_of(peer_type),
    {
        if peer_type.validator {
            self.validator
        } else if peer_type.persistent {
            self.persistent_peer
        } else {
            self.full_node
        }
    }
}

/// A validator, as consensus tells the network of it.
#[derive(Clone, Debug)]
pub struct ValidatorInfo {
    /// The consensus address.
    pub address: String,
    /// The public key.
    pub public_key: Vec<u8>,
    pub voting_power: u64,
}

/// A validator, as a value.
pub struct ValidatorView {
    pub address: Seq<char>,
    pub public_key: Seq<u8>,
    pub voting_power: u64,
}

impl View for ValidatorInfo {
    type V = ValidatorView;

    open spec fn view(&self) -> ValidatorView {
        ValidatorView {
            address: self.address@,
            public_key: self.public_key@,
            voting_power: self.voting_power,
        }
    }
}

/// Validators, as values.
pub open spec fn validator_views(validators: Seq<ValidatorInfo>) -> Seq<ValidatorView> {
    validators.map_values(|v: ValidatorInfo| v@)
}

impl ValidatorInfo {
    /// The address, if the public key is that of the validator.
    pub fn address_for_public_key(&self, public_key: &[u8]) -> (r: Option<&str>)
        ensures
            match r {
                Some(a) => self.public_key@ == public_key@ && a@ == self.address@,
                None => self.public_key@ != public_key@,
            },
    {
        if same_bytes(self.public_key.as_slice(), public_key) {
            Some(self.address.as_str())
        } else {
            None
        }
    }

    /// Whether two validators are the same.
    pub fn same(&self, other: &ValidatorInfo) -> (r: bool)
        ensures
            r == (self@ == other@),
    {
        self.address == other.address && same_bytes(
            self.public_key.as_slice(),
            other.public_key.as_slice(),
        ) && self.voting_power == other.voting_power
    }

    /// A copy of the validator.
    pub fn copy(&self) -> (r: ValidatorInfo)
        ensures
            r@ == self@,
    {
        ValidatorInfo {
            address: self.address.clone(),
            public_key: vstd::slice::slice_to_vec(self.public_key.as_slice()),
            voting_power: self.voting_power,
        }
    }
}

/// The address of the first validator with the public key `key`.
pub open spec fn address_of_key(validators: Seq<ValidatorView>, key: Seq<u8>) -> Option<Seq<char>>
    decreases validators.len(),
{
    if validators.len() == 0 {
        None
    } else if validators[0].public_key == key {
        Some(validators[0].address)
    } else {
        address_of_key(validators.drop_first(), key)
    }
}

/// The address of the first validator with the public key `key`.
pub fn find_address_of_key(validators: &Vec<ValidatorInfo>, key: &[u8]) -> (r: Option<String>)
    ensures
        text_view(r) == address_of_key(validator_views(validators@), key@),
{
    let ghost all = validator_views(validators@);
    let mut i: usize = 0;
    assert(all.subrange(0, all.len() as int) =~= all);
    while i < validators.len()
        invariant
            i <= validators@.len(),
            all == validator_views(validators@),
            address_of_key(all, key@) == address_of_key(
                all.subrange(i as int, all.len() as int),
                key@,
            ),
        decreases validators@.len() - i,
    {
        let ghost rest = all.subrange(i as int, all.len() as int);
        assert(rest[0] == validators@[i as int]@);
        if let Some(address) = validators[i].address_for_public_key(key) {
            return Some(address.to_owned());
        }
        assert(rest.drop_first() =~= all.subrange(i + 1, all.len() as int));
        i = i + 1;
    }
    None
}

/// Whether some validator has the address `address`.
pub open spec fn has_address(validators: Seq<ValidatorView>, address: Seq<char>) -> bool {
    exists|i: int| 0 <= i < validators.len() && (#[trigger] validators[i]).address == address
}

/// This node.
#[derive(Clone, Debug)]
pub struct LocalNodeInfo {
    pub moniker: String,
    pub peer_id: PeerId,
    pub listen_addr: Multiaddr,
    /// The consensus address, if the node has the credentials of a validator.
    pub consensus_address: Option<String>,
    /// The signed proof that the node is a validator, if it has one.
    pub proof_bytes: Option<Vec<u8>>,
    /// Whether the node is in the validator set now.
    pub is_validator: bool,
    /// Whether only persistent peers are accepted.
    pub persistent_peers_only: bool,
    /// The topics that the node is subscribed to.
    pub subscribed_topics: Vec<String>,
}

/// This node, as a value.
pub struct LocalNodeView {
    pub moniker: Seq<char>,
    pub peer_id: PeerId,
    pub listen_addr: AddressView,
    pub consensus_address: Option<Seq<char>>,
    pub proof_bytes: Option<Seq<u8>>,
    pub is_validator: bool,
    pub persistent_peers_only: bool,
    pub subscribed_topics: Seq<Seq<char>>,
}

impl View for LocalNodeInfo {
    type V = LocalNodeView;

    open spec fn view(&self) -> LocalNodeView {
        LocalNodeView {
            moniker: self.moniker@,
            peer_id: self.peer_id,
            listen_addr: self.listen_addr@,
            consensus_address: text_view(self.consensus_address),
            proof_bytes: bytes_view(self.proof_bytes),
            is_validator: self.is_validator,
            persistent_peers_only: self.persistent_peers_only,
            subscribed_topics: texts(self.subscribed_topics@),
        }
    }
}

/// Topics in brackets.
pub open spec fn bracketed(topics: Seq<Seq<char>>) -> Seq<char> {
    "["@ + joined(topics, ","@) + "]"@
}

/// Topics in ascending order, in brackets.
fn topics_text(topics: &Vec<String>) -> (r: String)
    ensures
        exists|sorted: Seq<Seq<char>>| #[trigger]
            is_sorted_version(texts(topics@), sorted) && r@ == bracketed(sorted),
{
    let sorted = sorted_texts(topics);
    let r = "[".to_owned().concat(join(&sorted, ",").as_str()).concat("]");
    assert(is_sorted_version(texts(topics@), texts(sorted@)) && r@ == bracketed(texts(sorted@)));
    r
}

impl LocalNodeView {
    /// The line that describes the node, with its topics as listed.
    pub open spec fn line(self, topics: Seq<Seq<char>>) -> Seq<char> {
        joined(
            seq![
                address_text(self.listen_addr),
                self.moniker,
                if self.is_validator { "validator"@ } else { "full_node"@ },
                peer_text(self.peer_id),
                text_or_none(self.consensus_address),
                bracketed(topics),
                if self.persistent_peers_only { "persistent_only"@ } else { "open"@ },
                "me"@,
            ],
            ", "@,
        )
    }

    /// Whether `text` describes the node: the line with the topics sorted.
    pub open spec fn described_by(self, text: Seq<char>) -> bool {
        exists|sorted: Seq<Seq<char>>| #[trigger]
            is_sorted_version(self.subscribed_topics, sorted) && text == self.line(sorted)
    }
}

impl LocalNodeInfo {
    /// The line that describes the node.
    pub fn to_text(&self) -> (r: String)
        ensures
            self@.described_by(r@),
    {
        let mut parts: Vec<String> = Vec::new();
        parts.push(address_to_text(&self.listen_addr));
        parts.push(self.moniker.clone());
        parts.push(
            if self.is_validator {
                "validator".to_owned()
            } else {
                "full_node".to_owned()
            },
        );
        parts.push(peer_id_to_text(&self.peer_id));
        parts.push(text_or_none_of(&self.consensus_address));
        let topics = topics_text(&self.subscribed_topics);
        let ghost listed = topics@;
        parts.push(topics);
        parts.push(
            if self.persistent_peers_only {
                "persistent_only".to_owned()
            } else {
                "open".to_owned()
            },
        );
        parts.push("me".to_owned());
        let r = join(&parts, ", ");
        proof {
            let sorted = choose|sorted: Seq<Seq<char>>| #[trigger]
                is_sorted_version(texts(self.subscribed_topics@), sorted) && listed == bracketed(sorted);
            assert(texts(parts@) =~= seq![
                address_text(self@.listen_addr),
                self@.moniker,
                if self.is_validator { "validator"@ } else { "full_node"@ },
                peer_text(self.peer_id),
                text_or_none(self@.consensus_address),
                bracketed(sorted),
                if self.persistent_peers_only { "persistent_only"@ } else { "open"@ },
                "me"@,
            ]);
            assert(is_sorted_version(self@.subscribed_topics, sorted) && r@ == self@.line(sorted));
        }
        r
    }

    /// A copy of the description.
    pub fn copy(&self) -> (r: LocalNodeInfo)
        ensures
            r@ == self@,
    {
        LocalNodeInfo {
            moniker: self.moniker.clone(),
            peer_id: self.peer_id,
            listen_addr: self.listen_addr.copy(),
            consensus_address: copy_text(&self.consensus_address),
            proof_bytes: copy_bytes(&self.proof_bytes),
            is_validator: self.is_validator,
            persistent_peers_only: self.persistent_peers_only,
            subscribed_topics: copy_texts(&self.subscribed_topics),
        }
    }
}

/// A copy of a byte string that may be missing.
pub fn copy_bytes(b: &Option<Vec<u8>>) -> (r: Option<Vec<u8>>)
    ensures
        bytes_view(r) == bytes_view(*b),
{
    match b {
        Some(s) => Some(vstd::slice::slice_to_vec(s.as_slice())),
        None => None,
    }
}

/// A peer.
#[derive(Clone, Debug)]
pub struct PeerInfo {
    pub moniker: String,
    pub address: Multiaddr,
    /// The consensus address, where the peer has proved to be a validator and
    /// is in the validator set.
    pub consensus_address: Option<String>,
    /// The public key that the peer has proved to hold.
    pub consensus_public_key: Option<Vec<u8>>,
    pub peer_type: PeerType,
    /// The direction of the connection; none for a passing one.
    pub connection_direction: Option<ConnectionDirection>,
    pub score: Score,
    /// The topics in whose mesh the peer is.
    pub topics: Vec<String>,
    /// Whether the peer is an explicit peer.
    pub is_explicit: bool,
}

/// A peer, as a value.
pub struct PeerView {
    pub moniker: Seq<char>,
    pub address: AddressView,
    pub consensus_address: Option<Seq<char>>,
    pub consensus_public_key: Option<Seq<u8>>,
    pub peer_type: PeerType,
    pub connection_direction: Option<ConnectionDirection>,
    pub score: Score,
    pub topics: Seq<Seq<char>>,
    pub is_explicit: bool,
}

impl View for PeerInfo {
    type V = PeerView;

    open spec fn view(&self) -> PeerView {
        PeerView {
            moniker: self.moniker@,
            address: self.address@,
            consensus_address: text_view(self.consensus_address),
            consensus_public_key: bytes_view(self.consensus_public_key),
            peer_type: self.peer_type,
            connection_direction: self.connection_direction,
            score: self.score,
            topics: texts(self.topics@),
            is_explicit: self.is_explicit,
        }
    }
}

impl PeerView {
    /// The line that describes the peer, with its topics as listed.
    pub open spec fn line(self, id: PeerId, topics: Seq<Seq<char>>) -> Seq<char> {
        joined(
            seq![
                address_text(self.address),
                self.moniker,
                self.peer_type.role(),
                peer_text(id),
                text_or_none(self.consensus_address),
                bracketed(topics),
                match self.connection_direction {
                    Some(ConnectionDirection::Outbound) => "outbound"@,
                    Some(ConnectionDirection::Inbound) => "inbound"@,
                    None => "??"@,
                },
                signed_decimal(self.score.whole as int),
                if self.is_explicit { "explicit"@ } else { "-"@ },
            ],
            ", "@,
        )
    }

    /// Whether `text` describes the peer: the line with the topics sorted.
    pub open spec fn described_by(self, id: PeerId, text: Seq<char>) -> bool {
        exists|sorted: Seq<Seq<char>>| #[trigger]
            is_sorted_version(self.topics, sorted) && text == self.line(id, sorted)
    }
}

impl PeerInfo {
    /// The line that describes the peer: address, moniker, type, identifier,
    /// consensus address, mesh, direction, score and whether it is explicit.
    pub fn format_with_peer_id(&self, peer_id: &PeerId) -> (r: String)
        ensures
            self@.described_by(*peer_id, r@),
    {
        let mut parts: Vec<String> = Vec::new();
        parts.push(address_to_text(&self.address));
        parts.push(self.moniker.clone());
        parts.push(self.peer_type.primary_type_str().to_owned());
        parts.push(peer_id_to_text(peer_id));
        parts.push(text_or_none_of(&self.consensus_address));
        let topics = topics_text(&self.topics);
        let ghost listed = topics@;
        parts.push(topics);
        parts.push(
            match self.connection_direction {
                Some(d) => d.as_str().to_owned(),
                None => "??".to_owned(),
            },
        );
        parts.push(signed_decimal_text(self.score.whole));
        parts.push(
            if self.is_explicit {
                "explicit".to_owned()
            } else {
                "-".to_owned()
            },
        );
        let r = join(&parts, ", ");
        proof {
            let sorted = choose|sorted: Seq<Seq<char>>| #[trigger]
                is_sorted_version(texts(self.topics@), sorted) && listed == bracketed(sorted);
            assert(texts(parts@) =~= seq![
                address_text(self@.address),
                self@.moniker,
                self.peer_type.role(),
                peer_text(*peer_id),
                text_or_none(self@.consensus_address),
                bracketed(sorted),
                match self.connection_direction {
                    Some(ConnectionDirection::Outbound) => "outbound"@,
                    Some(ConnectionDirection::Inbound) => "inbound"@,
                    None => "??"@,
                },
                signed_decimal(self.score.whole as int),
                if self.is_explicit { "explicit"@ } else { "-"@ },
            ]);
            assert(is_sorted_version(self@.topics, sorted) && r@ == self@.line(*peer_id, sorted));
        }
        r
    }

    /// A copy of the description.
    pub fn copy(&self) -> (r: PeerInfo)
        ensures
            r@ == self@,
    {
        PeerInfo {
            moniker: self.moniker.clone(),
            address: self.address.copy(),
            consensus_address: copy_text(&self.consensus_address),
            consensus_public_key: copy_bytes(&self.consensus_public_key),
            peer_type: self.peer_type,
            connection_direction: self.connection_direction,
            score: self.score,
            topics: copy_texts(&self.topics),
            is_explicit: self.is_explicit,
        }
    }
}

} // verus!
