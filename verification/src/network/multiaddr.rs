//! Addresses of peers.

use libp2p::multiaddr::{Multiaddr as Address, Protocol as Part};
use vstd::prelude::*;

use crate::bytes::{be_bound, lemma_be_value_bound, same_bytes, Bytes, ShortBytes};
use crate::engine::event::PeerId;
use crate::ident::{Ident, Ranked};

verus! {

/// An IP address.
#[derive(Clone, Copy, Debug, PartialEq, Eq)]
pub enum IpAddr {
    /// A version 4 address.
    V4(Bytes<4>),
    /// A version 6 address.
    V6(Bytes<16>),
}

impl Ident for IpAddr {
    fn same(&self, other: &Self) -> (r: bool) {
        match (self, other) {
            (IpAddr::V4(a), IpAddr::V4(b)) => a.same(b),
            (IpAddr::V6(a), IpAddr::V6(b)) => a.same(b),
            _ => false,
        }
    }

    fn dup(&self) -> (r: Self) {
        *self
    }
}

impl Ranked for IpAddr {
    /// Version 4 addresses come first, each version in byte order.
    open spec fn rank(self) -> int {
        match self {
            IpAddr::V4(a) => a.rank(),
            IpAddr::V6(a) => be_bound(4) + a.rank(),
        }
    }

    proof fn rank_injective(a: Self, b: Self) {
        match (a, b) {
            (IpAddr::V4(x), IpAddr::V4(y)) => {
                Bytes::<4>::rank_injective(x, y);
            },
            (IpAddr::V6(x), IpAddr::V6(y)) => {
                Bytes::<16>::rank_injective(x, y);
            },
            (IpAddr::V4(x), IpAddr::V6(y)) => {
                lemma_be_value_bound(x.0@);
            },
            (IpAddr::V6(x), IpAddr::V4(y)) => {
                lemma_be_value_bound(y.0@);
            },
        }
    }

    fn precedes(&self, other: &Self) -> (r: bool) {
        match (self, other) {
            (IpAddr::V4(a), IpAddr::V4(b)) => a.precedes(b),
            (IpAddr::V6(a), IpAddr::V6(b)) => a.precedes(b),
            (IpAddr::V4(a), IpAddr::V6(_)) => {
                proof {
                    lemma_be_value_bound(a.0@);
                }
                true
            },
            (IpAddr::V6(_), IpAddr::V4(b)) => {
                proof {
                    lemma_be_value_bound(b.0@);
                }
                false
            },
        }
    }
}

/// A part of an address, as far as it is told apart.
#[derive(Clone, Copy, Debug, PartialEq, Eq)]
pub enum Protocol {
    /// An IP address, version 4.
    Ip4(Bytes<4>),
    /// An IP address, version 6.
    Ip6(Bytes<16>),
    /// A peer.
    P2p(PeerId),
    /// TCP.
    Tcp,
    /// QUIC, as drafted.
    Quic,
    /// QUIC, version 1.
    QuicV1,
    /// Anything else.
    Other,
}

/// A part of an address with its binary form.
#[derive(Clone, Debug, PartialEq, Eq)]
pub struct Component {
    pub protocol: Protocol,
    pub bytes: Vec<u8>,
}

/// A part of an address with its binary form, as a value.
pub struct ComponentView {
    pub protocol: Protocol,
    pub bytes: Seq<u8>,
}

impl View for Component {
    type V = ComponentView;

    open spec fn view(&self) -> ComponentView {
        ComponentView { protocol: self.protocol, bytes: self.bytes@ }
    }
}

/// The parts of an address, as values.
pub open spec fn views(components: Seq<Component>) -> Seq<ComponentView> {
    components.map_values(|c: Component| c@)
}

/// The address of a peer: its parts, in order.
#[derive(Clone, Debug, PartialEq, Eq)]
pub struct Multiaddr {
    pub components: Vec<Component>,
}

impl View for Multiaddr {
    type V = Seq<ComponentView>;

    open spec fn view(&self) -> Seq<ComponentView> {
        views(self.components@)
    }
}

/// What the text of an address is read as by `multiaddr`, with the binary form
/// of each part; none where it is not the text of an address.
pub uninterp spec fn multiaddr_components(text: Seq<char>) -> Option<Seq<ComponentView>>;

/// The text that `multiaddr` gives for the binary form of an address; none
/// where the bytes are not that of an address.
pub uninterp spec fn multiaddr_text(bytes: Seq<u8>) -> Option<Seq<char>>;

/// Read the text of an address with `libp2p`'s `Multiaddr::from_str`, and list
/// its parts with `Multiaddr::iter`. The result depends on the text alone and
/// is named [`multiaddr_components`]. A peer is a hash of at most sixty-four
/// bytes behind one byte for its kind and one for its length, so its bytes are
/// always held.
#[verifier::external_body]
fn parse_components(text: &str) -> (r: Option<Vec<Component>>)
    ensures
        match r {
            Some(c) => multiaddr_components(text@) == Some(views(c@)),
            None => multiaddr_components(text@) is None,
        },
        r matches Some(c) ==> forall|i: int|
            0 <= i < c@.len() ==> ((#[trigger] c@[i]).protocol matches Protocol::P2p(id) ==> id.wf()),
{
    let address: Address = text.parse().ok()?;
    Some(address.iter().map(|part| Component {
        protocol: match &part {
            Part::Ip4(ip) => Protocol::Ip4(Bytes(ip.octets())),
            Part::Ip6(ip) => Protocol::Ip6(Bytes(ip.octets())),
            Part::P2p(id) => Protocol::P2p(ShortBytes::from_slice(&id.to_bytes()).unwrap()),
            Part::Tcp(_) => Protocol::Tcp,
            Part::Quic => Protocol::Quic,
            Part::QuicV1 => Protocol::QuicV1,
            _ => Protocol::Other,
        },
        bytes: Address::from(part).to_vec(),
    }).collect())
}

/// The text of an address with `libp2p`'s `Multiaddr`, read from its binary
/// form with `TryFrom` and written with `Display`. The result depends on the
/// bytes alone and is named [`multiaddr_text`].
#[verifier::external_body]
fn format_address(bytes: Vec<u8>) -> (r: Option<String>)
    ensures
        match r {
            Some(t) => multiaddr_text(bytes@) == Some(t@),
            None => multiaddr_text(bytes@) is None,
        },
{
    Address::try_from(bytes).ok().map(|address| address.to_string())
}

/// The binary form of an address.
pub open spec fn binary(parts: Seq<ComponentView>) -> Seq<u8>
    decreases parts.len(),
{
    if parts.len() == 0 {
        Seq::empty()
    } else {
        binary(parts.drop_last()) + parts.last().bytes
    }
}

/// The first peer that an address names.
pub open spec fn peer_in(parts: Seq<ComponentView>) -> Option<PeerId>
    decreases parts.len(),
{
    if parts.len() == 0 {
        None
    } else {
        match parts[0].protocol {
            Protocol::P2p(id) => Some(id),
            _ => peer_in(parts.drop_first()),
        }
    }
}

/// The parts of an address that do not name a peer.
pub open spec fn without_peer(parts: Seq<ComponentView>) -> Seq<ComponentView>
    decreases parts.len(),
{
    if parts.len() == 0 {
        Seq::empty()
    } else {
        let rest = without_peer(parts.drop_last());
        match parts.last().protocol {
            Protocol::P2p(_) => rest,
            _ => rest.push(parts.last()),
        }
    }
}

impl Component {
    /// Whether two parts are the same.
    fn same(&self, other: &Component) -> (r: bool)
        ensures
            r == (self@ == other@),
    {
        let kind = match (&self.protocol, &other.protocol) {
            (Protocol::Ip4(a), Protocol::Ip4(b)) => a.same(b),
            (Protocol::Ip6(a), Protocol::Ip6(b)) => a.same(b),
            (Protocol::P2p(a), Protocol::P2p(b)) => a.same(b),
            (Protocol::Tcp, Protocol::Tcp) => true,
            (Protocol::Quic, Protocol::Quic) => true,
            (Protocol::QuicV1, Protocol::QuicV1) => true,
            (Protocol::Other, Protocol::Other) => true,
            _ => false,
        };
        kind && same_bytes(self.bytes.as_slice(), other.bytes.as_slice())
    }

    /// A copy of the part.
    fn copy(&self) -> (r: Component)
        ensures
            r@ == self@,
    {
        let bytes = vstd::slice::slice_to_vec(self.bytes.as_slice());
        Component { protocol: self.protocol, bytes }
    }
}

impl Multiaddr {
    /// Read the text of an address.
    pub fn parse(text: &str) -> (r: Option<Multiaddr>)
        ensures
            match r {
                Some(a) => multiaddr_components(text@) == Some(a@),
                None => multiaddr_components(text@) is None,
            },
    {
        match parse_components(text) {
            Some(components) => Some(Multiaddr { components }),
            None => None,
        }
    }

    /// The binary form of the address.
    pub fn to_bytes(&self) -> (r: Vec<u8>)
        ensures
            r@ == binary(self@),
    {
        let mut out: Vec<u8> = Vec::new();
        let mut i: usize = 0;
        assert(self@.subrange(0, 0) =~= Seq::<ComponentView>::empty());
        while i < self.components.len()
            invariant
                i <= self.components@.len(),
                out@ == binary(self@.subrange(0, i as int)),
            decreases self.components@.len() - i,
        {
            let mut part = vstd::slice::slice_to_vec(self.components[i].bytes.as_slice());
            proof {
                assert(self@.subrange(0, i + 1).drop_last() =~= self@.subrange(0, i as int));
                assert(self@.subrange(0, i + 1).last() == self.components@[i as int]@);
            }
            out.append(&mut part);
            i = i + 1;
        }
        assert(self@.subrange(0, i as int) =~= self@);
        out
    }

    /// The text of the address.
    pub fn to_text(&self) -> (r: Option<String>)
        ensures
            match r {
                Some(t) => multiaddr_text(binary(self@)) == Some(t@),
                None => multiaddr_text(binary(self@)) is None,
            },
    {
        format_address(self.to_bytes())
    }

    /// Whether two addresses are the same.
    pub fn same(&self, other: &Multiaddr) -> (r: bool)
        ensures
            r == (self@ == other@),
    {
        if self.components.len() != other.components.len() {
            assert(self@.len() != other@.len());
            return false;
        }
        let mut i: usize = 0;
        while i < self.components.len()
            invariant
                i <= self.components@.len(),
                self.components@.len() == other.components@.len(),
                forall|j: int| 0 <= j < i ==> self.components@[j]@ == other.components@[j]@,
            decreases self.components@.len() - i,
        {
            if !self.components[i].same(&other.components[i]) {
                assert(self@[i as int] != other@[i as int]);
                return false;
            }
            i = i + 1;
        }
        assert(self@ =~= other@);
        true
    }

    /// A copy of the address.
    pub fn copy(&self) -> (r: Multiaddr)
        ensures
            r@ == self@,
    {
        let mut components: Vec<Component> = Vec::new();
        let mut i: usize = 0;
        while i < self.components.len()
            invariant
                i <= self.components@.len(),
                components@.len() == i,
                forall|j: int| 0 <= j < i ==> (#[trigger] components@[j])@ == self.components@[j]@,
            decreases self.components@.len() - i,
        {
            components.push(self.components[i].copy());
            i = i + 1;
        }
        let r = Multiaddr { components };
        assert(r@ =~= self@);
        r
    }

    /// The address without the parts that name a peer.
    pub fn strip_peer_id(&self) -> (r: Multiaddr)
        ensures
            r@ == without_peer(self@),
    {
        let mut components: Vec<Component> = Vec::new();
        let mut i: usize = 0;
        assert(self@.subrange(0, 0) =~= Seq::<ComponentView>::empty());
        assert(views(components@) =~= Seq::<ComponentView>::empty());
        while i < self.components.len()
            invariant
                i <= self.components@.len(),
                views(components@) == without_peer(self@.subrange(0, i as int)),
            decreases self.components@.len() - i,
        {
            proof {
                assert(self@.subrange(0, i + 1).drop_last() =~= self@.subrange(0, i as int));
                assert(self@.subrange(0, i + 1).last() == self.components@[i as int]@);
            }
            match self.components[i].protocol {
                Protocol::P2p(_) => {},
                _ => {
                    let ghost before = components@;
                    let c = self.components[i].copy();
                    components.push(c);
                    assert(views(components@) =~= views(before).push(c@));
                },
            }
            i = i + 1;
        }
        assert(self@.subrange(0, i as int) =~= self@);
        Multiaddr { components }
    }

    /// The first peer that the address names.
    pub fn peer_id(&self) -> (r: Option<PeerId>)
        ensures
            r == peer_in(self@),
    {
        let mut i: usize = 0;
        assert(self@.subrange(0, self@.len() as int) =~= self@);
        while i < self.components.len()
            invariant
                i <= self.components@.len(),
                peer_in(self@) == peer_in(self@.subrange(i as int, self@.len() as int)),
            decreases self.components@.len() - i,
        {
            proof {
                let rest = self@.subrange(i as int, self@.len() as int);
                assert(rest[0] == self.components@[i as int]@);
                assert(rest.drop_first() =~= self@.subrange(i + 1, self@.len() as int));
            }
            if let Protocol::P2p(id) = self.components[i].protocol {
                return Some(id);
            }
            i = i + 1;
        }
        None
    }
}

/// Whether `addrs` holds the address with the parts `a`.
pub open spec fn holds_address(addrs: Seq<Multiaddr>, a: Seq<ComponentView>) -> bool {
    exists|i: int| 0 <= i < addrs.len() && (#[trigger] addrs[i])@ == a
}

/// Whether `addrs` holds the address `addr`.
pub fn contains_address(addrs: &Vec<Multiaddr>, addr: &Multiaddr) -> (r: bool)
    ensures
        r == holds_address(addrs@, addr@),
{
    let mut i: usize = 0;
    while i < addrs.len()
        invariant
            i <= addrs@.len(),
            forall|j: int| 0 <= j < i ==> (#[trigger] addrs@[j])@ != addr@,
        decreases addrs@.len() - i,
    {
        if addrs[i].same(addr) {
            return true;
        }
        i = i + 1;
    }
    false
}

/// The transports that the node can use.
#[derive(Clone, Copy, Debug, PartialEq, Eq, Structural)]
pub enum TransportProtocol {
    Tcp,
    Quic,
}

/// The transport of an address: that of its first part that names one.
pub open spec fn transport_in(parts: Seq<ComponentView>) -> Option<TransportProtocol>
    decreases parts.len(),
{
    if parts.len() == 0 {
        None
    } else {
        match parts[0].protocol {
            Protocol::Tcp => Some(TransportProtocol::Tcp),
            Protocol::Quic => Some(TransportProtocol::Quic),
            Protocol::QuicV1 => Some(TransportProtocol::Quic),
            _ => transport_in(parts.drop_first()),
        }
    }
}

impl TransportProtocol {
    /// The transport of an address, if it names one.
    pub fn from_multiaddr(multiaddr: &Multiaddr) -> (r: Option<TransportProtocol>)
        ensures
            r == transport_in(multiaddr@),
    {
        let mut i: usize = 0;
        assert(multiaddr@.subrange(0, multiaddr@.len() as int) =~= multiaddr@);
        while i < multiaddr.components.len()
            invariant
                i <= multiaddr.components@.len(),
                transport_in(multiaddr@) == transport_in(
                    multiaddr@.subrange(i as int, multiaddr@.len() as int),
                ),
            decreases multiaddr.components@.len() - i,
        {
            proof {
                let rest = multiaddr@.subrange(i as int, multiaddr@.len() as int);
                assert(rest[0] == multiaddr.components@[i as int]@);
                assert(rest.drop_first() =~= multiaddr@.subrange(i + 1, multiaddr@.len() as int));
            }
            match multiaddr.components[i].protocol {
                Protocol::Tcp => {
                    return Some(TransportProtocol::Tcp);
                },
                Protocol::Quic => {
                    return Some(TransportProtocol::Quic);
                },
                Protocol::QuicV1 => {
                    return Some(TransportProtocol::Quic);
                },
                _ => {},
            }
            i = i + 1;
        }
        None
    }
}

} // verus!
