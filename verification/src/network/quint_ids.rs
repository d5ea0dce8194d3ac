//! Short names for peers, connections and addresses, for traces of the network.
//!
//! Each kind of value is numbered in the order in which it is first seen.

use vstd::prelude::*;
use vstd::string::*;

use crate::discovery::state::{AddressView, ConnectionId};
use crate::engine::event::PeerId;
use crate::first_seen::{number_of, with_seen, FirstSeen, Keyed};
use crate::network::ip_limits::{extract_ip, ip_key};
use crate::network::multiaddr::{peer_in, without_peer, IpAddr, Multiaddr};
use crate::text::{decimal, decimal_text};

verus! {

/// A prefix with a number behind it.
pub open spec fn name(prefix: Seq<char>, n: nat) -> Seq<char> {
    prefix + decimal(n)
}

/// A prefix with a number behind it.
fn name_of(prefix: &str, n: usize) -> (r: String)
    ensures
        r@ == name(prefix@, n as nat),
{
    prefix.to_owned().concat(decimal_text(n as u64).as_str())
}

/// Values, each with a number.
pub struct Numbered<K> {
    pub entries: Vec<(K, usize)>,
}

/// Values with numbers, as values.
pub open spec fn pairs<K: Keyed>(entries: Seq<(K, usize)>) -> Seq<(K::Key, usize)> {
    entries.map_values(|e: (K, usize)| (e.0.key(), e.1))
}

/// The number of the first pair with the value `k`.
pub open spec fn lookup<V>(entries: Seq<(V, usize)>, k: V) -> Option<usize>
    decreases entries.len(),
{
    if entries.len() == 0 {
        None
    } else if entries[0].0 == k {
        Some(entries[0].1)
    } else {
        lookup(entries.drop_first(), k)
    }
}

/// The pairs with `k` numbered, unless it is.
pub open spec fn with_number<V>(entries: Seq<(V, usize)>, k: V, n: usize) -> Seq<(V, usize)> {
    if lookup(entries, k) is Some {
        entries
    } else {
        entries.push((k, n))
    }
}

impl<K: Keyed> View for Numbered<K> {
    type V = Seq<(K::Key, usize)>;

    open spec fn view(&self) -> Seq<(K::Key, usize)> {
        pairs(self.entries@)
    }
}

impl<K: Keyed> Numbered<K> {
    /// Nothing is numbered.
    pub fn new() -> (r: Self)
        ensures
            r@ == Seq::<(K::Key, usize)>::empty(),
    {
        let r = Numbered { entries: Vec::new() };
        assert(r@ =~= Seq::<(K::Key, usize)>::empty());
        r
    }

    /// The number of a value.
    pub fn get(&self, k: &K) -> (r: Option<usize>)
        ensures
            r == lookup(self@, k.key()),
    {
        let ghost all = self@;
        let mut i: usize = 0;
        assert(all.subrange(0, all.len() as int) =~= all);
        while i < self.entries.len()
            invariant
                i <= self.entries@.len(),
                all == self@,
                lookup(all, k.key()) == lookup(all.subrange(i as int, all.len() as int), k.key()),
            decreases self.entries@.len() - i,
        {
            let ghost rest = all.subrange(i as int, all.len() as int);
            assert(rest[0] == (self.entries@[i as int].0.key(), self.entries@[i as int].1));
            if self.entries[i].0.same_key(k) {
                return Some(self.entries[i].1);
            }
            assert(rest.drop_first() =~= all.subrange(i + 1, all.len() as int));
            i = i + 1;
        }
        None
    }

    /// Number a value, unless it is.
    pub fn put(&mut self, k: &K, n: usize)
        ensures
            final(self)@ == with_number(old(self)@, k.key(), n),
    {
        if self.get(k).is_none() {
            let ghost before = self@;
            let copy = k.copy_key();
            self.entries.push((copy, n));
            assert(self@ =~= before.push((k.key(), n)));
        }
    }
}

/// The names that are in use.
pub struct Names {
    pub nodes: FirstSeen<PeerId>,
    pub peers: FirstSeen<PeerId>,
    pub connections: FirstSeen<ConnectionId>,
    pub bases: FirstSeen<Multiaddr>,
    pub ips: FirstSeen<IpAddr>,
    pub limiters: usize,
    /// The consensus addresses of validators, and their public keys: a
    /// validator has one number for both.
    pub validator_addresses: Numbered<String>,
    pub validator_keys: Numbered<Vec<u8>>,
    pub validators: usize,
}

/// The names that are in use, as values.
pub struct NamesView {
    pub nodes: Seq<PeerId>,
    pub peers: Seq<PeerId>,
    pub connections: Seq<ConnectionId>,
    pub bases: Seq<AddressView>,
    pub ips: Seq<IpAddr>,
    pub limiters: usize,
    pub validator_addresses: Seq<(Seq<char>, usize)>,
    pub validator_keys: Seq<(Seq<u8>, usize)>,
    pub validators: usize,
}

impl View for Names {
    type V = NamesView;

    open spec fn view(&self) -> NamesView {
        NamesView {
            nodes: self.nodes@,
            peers: self.peers@,
            connections: self.connections@,
            bases: self.bases@,
            ips: self.ips@,
            limiters: self.limiters,
            validator_addresses: self.validator_addresses@,
            validator_keys: self.validator_keys@,
            validators: self.validators,
        }
    }
}

/// The names of the parts of an address: the address without the peer, its IP
/// address and the peer. What is missing has no name.
pub struct AddrName {
    pub base: String,
    pub ip: String,
    pub peer: String,
}

impl NamesView {
    /// The number that a validator has by its address, or else by its key.
    pub open spec fn known_validator(self, address: Option<Seq<char>>, key: Option<Seq<u8>>) -> Option<
        usize,
    > {
        let by_address = match address {
            Some(a) => lookup(self.validator_addresses, a),
            None => None,
        };
        match (by_address, key) {
            (Some(n), _) => Some(n),
            (None, Some(k)) => lookup(self.validator_keys, k),
            (None, None) => None,
        }
    }

    /// The number of a validator: the one that it has, or the next one.
    pub open spec fn validator_number(self, address: Option<Seq<char>>, key: Option<Seq<u8>>) -> usize {
        match self.known_validator(address, key) {
            Some(n) => n,
            None => (self.validators + 1) as usize,
        }
    }

    /// The names after a validator was numbered by its address and its key, as
    /// far as these are known.
    pub open spec fn with_validator(self, address: Option<Seq<char>>, key: Option<Seq<u8>>) -> NamesView {
        let n = self.validator_number(address, key);
        NamesView {
            validators: if self.known_validator(address, key) is Some {
                self.validators
            } else {
                n
            },
            validator_addresses: match address {
                Some(a) => with_number(self.validator_addresses, a, n),
                None => self.validator_addresses,
            },
            validator_keys: match key {
                Some(k) => with_number(self.validator_keys, k, n),
                None => self.validator_keys,
            },
            ..self
        }
    }
}

impl Names {
    /// Nothing is seen twice.
    pub open spec fn wf(self) -> bool {
        &&& self.nodes.wf()
        &&& self.peers.wf()
        &&& self.connections.wf()
        &&& self.bases.wf()
        &&& self.ips.wf()
    }

    /// No names.
    pub fn new() -> (r: Self)
        ensures
            r.wf(),
            r@ == (NamesView {
                nodes: Seq::empty(),
                peers: Seq::empty(),
                connections: Seq::empty(),
                bases: Seq::empty(),
                ips: Seq::empty(),
                limiters: 0,
                validator_addresses: Seq::empty(),
                validator_keys: Seq::empty(),
                validators: 0,
            }),
    {
        Names {
            nodes: FirstSeen::new(),
            peers: FirstSeen::new(),
            connections: FirstSeen::new(),
            bases: FirstSeen::new(),
            ips: FirstSeen::new(),
            limiters: 0,
            validator_addresses: Numbered::new(),
            validator_keys: Numbered::new(),
            validators: 0,
        }
    }

    /// The name of a node of this process.
    pub fn node(&mut self, peer: &PeerId) -> (r: String)
        requires
            old(self).wf(),
        ensures
            final(self).wf(),
            final(self)@ == (NamesView { nodes: with_seen(old(self)@.nodes, *peer), ..old(self)@ }),
            r@ == name("n"@, number_of(old(self)@.nodes, *peer)),
    {
        let n: usize = self.nodes.number(peer);
        name_of("n", n)
    }

    /// The name of a new limiter of connections.
    pub fn limiter_node(&mut self) -> (r: String)
        requires
            old(self).wf(),
            old(self).limiters < usize::MAX,
        ensures
            final(self).wf(),
            final(self)@ == (NamesView {
                limiters: (old(self)@.limiters + 1) as usize,
                ..old(self)@
            }),
            r@ == name("l"@, (old(self)@.limiters + 1) as nat),
    {
        self.limiters = self.limiters + 1;
        name_of("l", self.limiters)
    }

    /// The name of a peer.
    pub fn peer(&mut self, peer: &PeerId) -> (r: String)
        requires
            old(self).wf(),
        ensures
            final(self).wf(),
            final(self)@ == (NamesView { peers: with_seen(old(self)@.peers, *peer), ..old(self)@ }),
            r@ == name("p"@, number_of(old(self)@.peers, *peer)),
    {
        let n: usize = self.peers.number(peer);
        name_of("p", n)
    }

    /// The name of a connection.
    pub fn conn(&mut self, connection_id: ConnectionId) -> (r: String)
        requires
            old(self).wf(),
        ensures
            final(self).wf(),
            final(self)@ == (NamesView {
                connections: with_seen(old(self)@.connections, connection_id),
                ..old(self)@
            }),
            r@ == name("c"@, number_of(old(self)@.connections, connection_id)),
    {
        let n: usize = self.connections.number(&connection_id);
        name_of("c", n)
    }

    /// The name of an IP address.
    pub fn ip_name(&mut self, ip: &IpAddr) -> (r: String)
        requires
            old(self).wf(),
        ensures
            final(self).wf(),
            final(self)@ == (NamesView { ips: with_seen(old(self)@.ips, *ip), ..old(self)@ }),
            r@ == name("i"@, number_of(old(self)@.ips, *ip)),
    {
        let n: usize = self.ips.number(ip);
        name_of("i", n)
    }

    /// The number of a validator, by its address and its key as far as these
    /// are known.
    fn validator_ix(&mut self, address: Option<&String>, key: Option<&Vec<u8>>) -> (r: usize)
        requires
            old(self).wf(),
            old(self).validators < usize::MAX,
        ensures
            final(self).wf(),
            ({
                let a = match address {
                    Some(a) => Some(a@),
                    None => None,
                };
                let k = match key {
                    Some(k) => Some(k@),
                    None => None,
                };
                &&& final(self)@ == old(self)@.with_validator(a, k)
                &&& r == old(self)@.validator_number(a, k)
            }),
    {
        let by_address = match address {
            Some(a) => self.validator_addresses.get(a),
            None => None,
        };
        let found = match (by_address, key) {
            (Some(n), _) => Some(n),
            (None, Some(k)) => self.validator_keys.get(k),
            (None, None) => None,
        };
        let assigned: usize = match found {
            Some(n) => n,
            None => {
                self.validators = self.validators + 1;
                self.validators
            },
        };
        if let Some(a) = address {
            self.validator_addresses.put(a, assigned);
        }
        if let Some(k) = key {
            self.validator_keys.put(k, assigned);
        }
        assigned
    }

    /// The name of the consensus address of a validator, whose public key has
    /// the same number where it is known.
    pub fn cons_addr(&mut self, address: &String, public_key: Option<&Vec<u8>>) -> (r: String)
        requires
            old(self).wf(),
            old(self).validators < usize::MAX,
        ensures
            final(self).wf(),
            ({
                let k = match public_key {
                    Some(k) => Some(k@),
                    None => None,
                };
                &&& final(self)@ == old(self)@.with_validator(Some(address@), k)
                &&& r@ == name("ca"@, old(self)@.validator_number(Some(address@), k) as nat)
            }),
    {
        let n: usize = self.validator_ix(Some(address), public_key);
        name_of("ca", n)
    }

    /// The name of the public key of a validator.
    pub fn public_key(&mut self, key: &Vec<u8>) -> (r: String)
        requires
            old(self).wf(),
            old(self).validators < usize::MAX,
        ensures
            final(self).wf(),
            final(self)@ == old(self)@.with_validator(None, Some(key@)),
            r@ == name("k"@, old(self)@.validator_number(None, Some(key@)) as nat),
    {
        let n: usize = self.validator_ix(None, Some(key));
        name_of("k", n)
    }

    /// The names of the parts of an address.
    pub fn addr(&mut self, address: &Multiaddr) -> (r: AddrName)
        requires
            old(self).wf(),
        ensures
            final(self).wf(),
            final(self)@ == (NamesView {
                bases: with_seen(old(self)@.bases, without_peer(address@)),
                ips: match ip_key(address@) {
                    Some(ip) => with_seen(old(self)@.ips, ip),
                    None => old(self)@.ips,
                },
                peers: match peer_in(address@) {
                    Some(p) => with_seen(old(self)@.peers, p),
                    None => old(self)@.peers,
                },
                ..old(self)@
            }),
            r.base@ == name("A"@, number_of(old(self)@.bases, without_peer(address@))),
            r.ip@ == (match ip_key(address@) {
                Some(ip) => name("i"@, number_of(old(self)@.ips, ip)),
                None => Seq::empty(),
            }),
            r.peer@ == (match peer_in(address@) {
                Some(p) => name("p"@, number_of(old(self)@.peers, p)),
                None => Seq::empty(),
            }),
    {
        let base = address.strip_peer_id();
        let n: usize = self.bases.number(&base);
        let base_name = name_of("A", n);
        let ip = match extract_ip(address) {
            Some(ip) => self.ip_name(&ip),
            None => empty_name(),
        };
        let peer = match address.peer_id() {
            Some(p) => self.peer(&p),
            None => empty_name(),
        };
        AddrName { base: base_name, ip, peer }
    }
}

/// No name.
fn empty_name() -> (r: String)
    ensures
        r@ == Seq::<char>::empty(),
{
    let r = String::new();
    assert(r@ =~= Seq::<char>::empty());
    r
}

/// What was numbered is found.
proof fn lemma_lookup_push<V>(entries: Seq<(V, usize)>, k: V, n: usize, other: V)
    ensures
        lookup(entries.push((k, n)), other) == (match lookup(entries, other) {
            Some(m) => Some(m),
            None => if other == k {
                Some(n)
            } else {
                None
            },
        }),
    decreases entries.len(),
{
    let longer = entries.push((k, n));
    if entries.len() > 0 {
        assert(longer[0] == entries[0]);
        assert(longer.drop_first() =~= entries.drop_first().push((k, n)));
        lemma_lookup_push(entries.drop_first(), k, n, other);
    } else {
        assert(longer[0] == (k, n));
        assert(longer.drop_first() =~= Seq::<(V, usize)>::empty());
        assert(lookup(longer.drop_first(), other) is None);
    }
}

/// A validator that is new by its address and its key has one number for both.
pub proof fn law_validator_has_one_number(s: NamesView, address: Seq<char>, key: Seq<u8>)
    requires
        s.known_validator(Some(address), Some(key)) is None,
    ensures
        s.with_validator(Some(address), Some(key)).validator_number(Some(address), None)
            == s.validator_number(Some(address), Some(key)),
        s.with_validator(Some(address), Some(key)).validator_number(None, Some(key))
            == s.validator_number(Some(address), Some(key)),
{
    let n = s.validator_number(Some(address), Some(key));
    lemma_lookup_push(s.validator_addresses, address, n, address);
    lemma_lookup_push(s.validator_keys, key, n, key);
}

} // verus!
