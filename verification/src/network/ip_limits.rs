//! Per-IP limits on inbound connections, and a delay before reconnecting.
//!
//! The number of inbound connections from one IP address is limited, and after
//! the last of them closed a new one is refused for a while. This keeps one
//! address from using up the connection slots, with many peer identifiers or
//! by reconnecting quickly. Outbound connections are not counted, so that
//! several peers behind one address can be dialed. A connection counts from
//! the moment it is pending.
//!
//! Version 4 addresses count in full, version 6 addresses by their `/64`
//! prefix, and version 4 addresses mapped into version 6 as version 4.
//!
//! Times are readings of a monotonic clock in nanoseconds.

use vstd::prelude::*;

use crate::bytes::Bytes;
use crate::ident::OrdMap;
use crate::network::multiaddr::{ComponentView, IpAddr, Multiaddr, Protocol};

verus! {

/// How often expired entries are dropped at most: every five seconds.
pub const EVICTION_INTERVAL: u64 = 5_000_000_000;

/// What is known of an IP address.
#[derive(Clone, Copy, Debug, PartialEq, Eq, Structural)]
pub struct IpState {
    /// The number of inbound connections.
    pub connections: usize,
    /// When the last connection closed, while there is none.
    pub last_disconnect: Option<u64>,
}

/// Why a connection is refused.
#[derive(Clone, Copy, Debug, PartialEq, Eq)]
pub enum Denied {
    /// The address has this many connections already.
    IpLimitExceeded { ip: IpAddr, count: usize },
    /// The last connection of the address closed too short a time ago.
    IpThrottled { ip: IpAddr, elapsed: u64, throttle_duration: u64 },
}

/// The version 4 address that a version 6 address maps, if it does.
pub open spec fn mapped_v4(ip: Bytes<16>) -> Option<Bytes<4>> {
    if (forall|i: int| 0 <= i < 10 ==> ip.0@[i] == 0) && ip.0@[10] == 0xff && ip.0@[11] == 0xff {
        Some(Bytes([ip.0@[12], ip.0@[13], ip.0@[14], ip.0@[15]]))
    } else {
        None
    }
}

/// A version 6 address with the part behind its `/64` prefix set to zero.
pub open spec fn prefix_64(ip: Bytes<16>) -> Bytes<16> {
    Bytes(
        [
            ip.0@[0],
            ip.0@[1],
            ip.0@[2],
            ip.0@[3],
            ip.0@[4],
            ip.0@[5],
            ip.0@[6],
            ip.0@[7],
            0u8,
            0u8,
            0u8,
            0u8,
            0u8,
            0u8,
            0u8,
            0u8,
        ],
    )
}

/// What connections from an address with the parts `parts` count under: its
/// first IP address.
pub open spec fn ip_key(parts: Seq<ComponentView>) -> Option<IpAddr>
    decreases parts.len(),
{
    if parts.len() == 0 {
        None
    } else {
        match parts[0].protocol {
            Protocol::Ip4(ip) => Some(IpAddr::V4(ip)),
            Protocol::Ip6(ip) => match mapped_v4(ip) {
                Some(v4) => Some(IpAddr::V4(v4)),
                None => Some(IpAddr::V6(prefix_64(ip))),
            },
            _ => ip_key(parts.drop_first()),
        }
    }
}

/// A version 6 address with the part behind its `/64` prefix set to zero.
fn mask_ipv6_to_64(ip: &Bytes<16>) -> (r: Bytes<16>)
    ensures
        r == prefix_64(*ip),
{
    let a = &ip.0;
    Bytes([a[0], a[1], a[2], a[3], a[4], a[5], a[6], a[7], 0, 0, 0, 0, 0, 0, 0, 0])
}

/// The version 4 address that a version 6 address maps, if it does.
fn to_ipv4_mapped(ip: &Bytes<16>) -> (r: Option<Bytes<4>>)
    ensures
        r == mapped_v4(*ip),
{
    let mut i: usize = 0;
    while i < 10
        invariant
            i <= 10,
            forall|j: int| 0 <= j < i ==> ip.0@[j] == 0,
        decreases 10 - i,
    {
        if ip.0[i] != 0 {
            return None;
        }
        i = i + 1;
    }
    if ip.0[10] != 0xff || ip.0[11] != 0xff {
        return None;
    }
    Some(Bytes([ip.0[12], ip.0[13], ip.0[14], ip.0[15]]))
}

/// What connections from `addr` count under, if it holds an IP address.
pub fn extract_ip(addr: &Multiaddr) -> (r: Option<IpAddr>)
    ensures
        r == ip_key(addr@),
{
    let mut i: usize = 0;
    assert(addr@.subrange(0, addr@.len() as int) =~= addr@);
    while i < addr.components.len()
        invariant
            i <= addr.components@.len(),
            ip_key(addr@) == ip_key(addr@.subrange(i as int, addr@.len() as int)),
        decreases addr.components@.len() - i,
    {
        proof {
            let rest = addr@.subrange(i as int, addr@.len() as int);
            assert(rest[0] == addr.components@[i as int]@);
            assert(rest.drop_first() =~= addr@.subrange(i + 1, addr@.len() as int));
        }
        match &addr.components[i].protocol {
            Protocol::Ip4(ip) => {
                return Some(IpAddr::V4(*ip));
            },
            Protocol::Ip6(ip) => {
                return match to_ipv4_mapped(ip) {
                    Some(v4) => Some(IpAddr::V4(v4)),
                    None => Some(IpAddr::V6(mask_ipv6_to_64(ip))),
                };
            },
            _ => {},
        }
        i = i + 1;
    }
    None
}

/// Two version 6 addresses that map no version 4 address count under one key
/// exactly where they share their `/64` prefix.
pub proof fn law_same_prefix_same_key(a: Bytes<16>, b: Bytes<16>)
    ensures
        prefix_64(a) == prefix_64(b) <==> a.0@.subrange(0, 8) == b.0@.subrange(0, 8),
{
    let pa = prefix_64(a);
    let pb = prefix_64(b);
    if a.0@.subrange(0, 8) == b.0@.subrange(0, 8) {
        assert forall|i: int| 0 <= i < 8 implies a.0@[i] == b.0@[i] by {
            assert(a.0@.subrange(0, 8)[i] == b.0@.subrange(0, 8)[i]);
        }
        assert(pa.0@ =~= pb.0@);
        assert(pa.0 == pb.0);
    }
    if pa == pb {
        assert(pa.0@[0] == pb.0@[0]);
        assert(pa.0@[1] == pb.0@[1]);
        assert(pa.0@[2] == pb.0@[2]);
        assert(pa.0@[3] == pb.0@[3]);
        assert(pa.0@[4] == pb.0@[4]);
        assert(pa.0@[5] == pb.0@[5]);
        assert(pa.0@[6] == pb.0@[6]);
        assert(pa.0@[7] == pb.0@[7]);
        assert(a.0@.subrange(0, 8) =~= b.0@.subrange(0, 8));
    }
}

/// The limiter: which connections come from where, and what is known of each
/// IP address.
pub struct Behaviour {
    /// The IP address of each connection, pending or established.
    pub connection_ips: OrdMap<u64, IpAddr>,
    /// What is known of each IP address.
    pub ip_state: OrdMap<IpAddr, IpState>,
    /// How many connections an IP address may have.
    pub max_connections_per_ip: usize,
    /// How long after its last connection closed an IP address is refused.
    pub ip_throttle_duration: u64,
    /// The IP addresses of persistent peers, which are not refused for
    /// reconnecting, with the number of such peers at each.
    pub persistent_ips: OrdMap<IpAddr, usize>,
    /// When expired entries were last dropped.
    pub last_eviction: u64,
}

/// The limiter, as a value.
pub struct LimitsView {
    pub connection_ips: Map<u64, IpAddr>,
    pub ip_state: Map<IpAddr, IpState>,
    pub max: usize,
    pub throttle: u64,
    pub persistent: Map<IpAddr, usize>,
    pub last_eviction: u64,
}

impl View for Behaviour {
    type V = LimitsView;

    open spec fn view(&self) -> LimitsView {
        LimitsView {
            connection_ips: self.connection_ips@,
            ip_state: self.ip_state@,
            max: self.max_connections_per_ip,
            throttle: self.ip_throttle_duration,
            persistent: self.persistent_ips@,
            last_eviction: self.last_eviction,
        }
    }
}

/// The time from `t` to `now`, 0 where `t` is later.
pub open spec fn since(now: u64, t: u64) -> u64 {
    if now >= t {
        (now - t) as u64
    } else {
        0
    }
}

impl LimitsView {
    /// The number of connections from `ip`.
    pub open spec fn count(self, ip: IpAddr) -> usize {
        if self.ip_state.contains_key(ip) {
            self.ip_state[ip].connections
        } else {
            0
        }
    }

    /// Whether a connection from `ip` is refused at `now`, and why.
    pub open spec fn refusal(self, ip: IpAddr, now: u64) -> Option<Denied> {
        if self.count(ip) >= self.max {
            Some(Denied::IpLimitExceeded { ip, count: self.count(ip) })
        } else if !self.persistent.contains_key(ip) && self.ip_state.contains_key(ip) {
            match self.ip_state[ip].last_disconnect {
                Some(t) if since(now, t) < self.throttle => Some(
                    Denied::IpThrottled {
                        ip,
                        elapsed: since(now, t),
                        throttle_duration: self.throttle,
                    },
                ),
                _ => None,
            }
        } else {
            None
        }
    }

    /// The limiter with `connection` from `ip` counted.
    pub open spec fn with_connection(self, connection: u64, ip: IpAddr) -> LimitsView {
        LimitsView {
            connection_ips: self.connection_ips.insert(connection, ip),
            ip_state: self.ip_state.insert(
                ip,
                IpState { connections: (self.count(ip) + 1) as usize, last_disconnect: None },
            ),
            ..self
        }
    }

    /// The limiter with `connection` no longer counted at `now`. The time is
    /// noted when the last connection of an address closes, unless reconnecting
    /// is allowed.
    pub open spec fn without_connection(self, connection: u64, now: u64) -> LimitsView {
        if !self.connection_ips.contains_key(connection) {
            self
        } else {
            let ip = self.connection_ips[connection];
            let rest = LimitsView {
                connection_ips: self.connection_ips.remove(connection),
                ..self
            };
            if !self.ip_state.contains_key(ip) {
                rest
            } else {
                let state = self.ip_state[ip];
                if state.connections > 1 {
                    LimitsView {
                        ip_state: self.ip_state.insert(
                            ip,
                            IpState { connections: (state.connections - 1) as usize, ..state },
                        ),
                        ..rest
                    }
                } else if self.throttle > 0 && !self.persistent.contains_key(ip) {
                    LimitsView {
                        ip_state: self.ip_state.insert(
                            ip,
                            IpState { connections: 0, last_disconnect: Some(now) },
                        ),
                        ..rest
                    }
                } else {
                    LimitsView { ip_state: self.ip_state.remove(ip), ..rest }
                }
            }
        }
    }

    /// Whether the entry of `ip` only stands for a delay that is over at `now`.
    pub open spec fn expired(self, ip: IpAddr, now: u64) -> bool {
        self.ip_state.contains_key(ip) && self.ip_state[ip].connections == 0 && match self.ip_state[ip].last_disconnect {
            Some(t) => since(now, t) >= self.throttle,
            None => true,
        }
    }

    /// The limiter without expired entries.
    pub open spec fn evicted(self, now: u64) -> LimitsView {
        LimitsView {
            ip_state: self.ip_state.remove_keys(Set::new(|ip: IpAddr| self.expired(ip, now))),
            ..self
        }
    }

    /// The limiter with one more persistent peer at `ip`. With the first, a
    /// delay ends.
    pub open spec fn with_persistent(self, ip: IpAddr) -> LimitsView {
        let n: int = if self.persistent.contains_key(ip) {
            self.persistent[ip] as int
        } else {
            0
        };
        LimitsView {
            persistent: self.persistent.insert(ip, (n + 1) as usize),
            ip_state: if n == 0 && self.ip_state.contains_key(ip) {
                if self.ip_state[ip].connections == 0 {
                    self.ip_state.remove(ip)
                } else {
                    self.ip_state.insert(ip, IpState { last_disconnect: None, ..self.ip_state[ip] })
                }
            } else {
                self.ip_state
            },
            ..self
        }
    }

    /// The limiter with one persistent peer less at `ip`.
    pub open spec fn without_persistent(self, ip: IpAddr) -> LimitsView {
        if !self.persistent.contains_key(ip) {
            self
        } else if self.persistent[ip] == 1 {
            LimitsView { persistent: self.persistent.remove(ip), ..self }
        } else {
            LimitsView {
                persistent: self.persistent.insert(ip, (self.persistent[ip] - 1) as usize),
                ..self
            }
        }
    }
}

/// The events of the swarm that the limiter acts on.
#[derive(Clone, Copy, Debug, PartialEq, Eq, Structural)]
pub enum SwarmEvent {
    /// A connection was closed.
    ConnectionClosed(u64),
    /// An inbound connection failed before it was established.
    ListenFailure(u64),
    /// Anything else.
    Other,
}

/// The number of persistent peers at each IP address, by their addresses.
pub open spec fn peers_per_ip(addrs: Seq<Multiaddr>) -> Map<IpAddr, usize>
    decreases addrs.len(),
{
    if addrs.len() == 0 {
        Map::empty()
    } else {
        let rest = peers_per_ip(addrs.drop_last());
        match ip_key(addrs.last()@) {
            None => rest,
            Some(ip) => rest.insert(
                ip,
                if rest.contains_key(ip) {
                    (rest[ip] + 1) as usize
                } else {
                    1
                },
            ),
        }
    }
}

impl Behaviour {
    /// The maps are well formed, and every persistent address has a peer.
    pub open spec fn wf(self) -> bool {
        &&& self.connection_ips.wf()
        &&& self.ip_state.wf()
        &&& self.persistent_ips.wf()
        &&& forall|ip: IpAddr| #[trigger]
            self.persistent_ips@.contains_key(ip) ==> self.persistent_ips@[ip] >= 1
    }

    /// A limiter without connections, that started at `now`.
    pub fn new(
        max_connections_per_ip: usize,
        ip_throttle_duration: u64,
        persistent_peer_addrs: &Vec<Multiaddr>,
        now: u64,
    ) -> (r: Self)
        ensures
            r.wf(),
            r@.connection_ips == Map::<u64, IpAddr>::empty(),
            r@.ip_state == Map::<IpAddr, IpState>::empty(),
            r@.max == max_connections_per_ip,
            r@.throttle == ip_throttle_duration,
            r@.last_eviction == now,
            r@.persistent == peers_per_ip(persistent_peer_addrs@),
    {
        let mut r = Behaviour {
            connection_ips: OrdMap::new(),
            ip_state: OrdMap::new(),
            max_connections_per_ip,
            ip_throttle_duration,
            persistent_ips: OrdMap::new(),
            last_eviction: now,
        };
        let mut i: usize = 0;
        let ghost addrs = persistent_peer_addrs@;
        assert(addrs.subrange(0, 0) =~= Seq::<Multiaddr>::empty());
        while i < persistent_peer_addrs.len()
            invariant
                r.wf(),
                r@.connection_ips == Map::<u64, IpAddr>::empty(),
                r@.ip_state == Map::<IpAddr, IpState>::empty(),
                r@.max == max_connections_per_ip,
                r@.throttle == ip_throttle_duration,
                r@.last_eviction == now,
                addrs == persistent_peer_addrs@,
                i <= addrs.len(),
                r@.persistent == peers_per_ip(addrs.subrange(0, i as int)),
                forall|ip: IpAddr| #[trigger]
                    r@.persistent.contains_key(ip) ==> r@.persistent[ip] <= i,
            decreases addrs.len() - i,
        {
            proof {
                assert(addrs.subrange(0, i + 1).drop_last() =~= addrs.subrange(0, i as int));
            }
            if let Some(ip) = extract_ip(&persistent_peer_addrs[i]) {
                let n: usize = match r.persistent_ips.get(&ip) {
                    Some(n) => *n,
                    None => 0,
                };
                r.persistent_ips.insert(ip, n + 1);
            }
            i = i + 1;
        }
        assert(addrs.subrange(0, i as int) =~= addrs);
        r
    }

    /// Drop the entries whose delay is over at `now`. Those with connections
    /// stay.
    pub fn evict_expired(&mut self, now: u64)
        requires
            old(self).wf(),
        ensures
            final(self).wf(),
            final(self)@ == old(self)@.evicted(now),
    {
        let ghost before = *self;
        let mut gone: Vec<IpAddr> = Vec::new();
        let mut i: usize = 0;
        while i < self.ip_state.entries.len()
            invariant
                *self == before,
                self.wf(),
                i <= self.ip_state.entries@.len(),
                forall|ip: IpAddr| #[trigger]
                    gone@.contains(ip) <==> exists|j: int|
                        0 <= j < i && (#[trigger] self.ip_state.entries@[j]).0 == ip && before@.expired(
                            ip,
                            now,
                        ),
            decreases self.ip_state.entries@.len() - i,
        {
            let ip = self.ip_state.entries[i].0;
            let state = self.ip_state.entries[i].1;
            let keep = if state.connections > 0 {
                true
            } else {
                match state.last_disconnect {
                    Some(t) => {
                        let elapsed: u64 = if now >= t {
                            now - t
                        } else {
                            0
                        };
                        elapsed < self.ip_throttle_duration
                    },
                    None => false,
                }
            };
            proof {
                self.ip_state.lemma_entry(i as int);
                assert(keep == !before@.expired(ip, now));
            }
            let ghost before_gone = gone@;
            if !keep {
                gone.push(ip);
            }
            proof {
                assert forall|q: IpAddr| #[trigger] gone@.contains(q) <==> exists|j: int|
                    0 <= j < i + 1 && (#[trigger] self.ip_state.entries@[j]).0 == q && before@.expired(
                        q,
                        now,
                    ) by {
                    if before_gone.contains(q) {
                        let k = choose|k: int| 0 <= k < before_gone.len() && before_gone[k] == q;
                        assert(gone@[k] == q);
                    }
                    if !keep {
                        assert(gone@[before_gone.len() as int] == ip);
                    }
                    if gone@.contains(q) {
                        let k = choose|k: int| 0 <= k < gone@.len() && gone@[k] == q;
                        if k < before_gone.len() {
                            assert(before_gone[k] == q);
                            assert(before_gone.contains(q));
                        } else {
                            assert(self.ip_state.entries@[i as int].0 == q);
                        }
                    }
                    if exists|j: int|
                        0 <= j < i + 1 && (#[trigger] self.ip_state.entries@[j]).0 == q && before@.expired(
                            q,
                            now,
                        ) {
                        let j = choose|j: int|
                            0 <= j < i + 1 && (#[trigger] self.ip_state.entries@[j]).0 == q
                                && before@.expired(q, now);
                        if j < i {
                            assert(before_gone.contains(q));
                        }
                    }
                }
            }
            i = i + 1;
        }
        self.ip_state.remove_all(&gone);
        proof {
            let keys = Set::new(|ip: IpAddr| before@.expired(ip, now));
            assert forall|ip: IpAddr| before.ip_state@.contains_key(ip) implies gone@.to_set().contains(ip)
                == keys.contains(ip) by {
                let k = before.ip_state.index_of(ip);
                assert(before.ip_state.entries@[k].0 == ip);
                assert(gone@.contains(ip) <==> exists|j: int|
                    0 <= j < i && (#[trigger] before.ip_state.entries@[j]).0 == ip && before@.expired(
                        ip,
                        now,
                    ));
            }
            assert(self@.ip_state =~= before@.evicted(now).ip_state);
        }
    }

    /// Count a persistent peer at `ip`, which exempts the address from the
    /// delay. Each call is to be paired with one of
    /// [`Behaviour::remove_persistent_ip`].
    pub fn add_persistent_ip(&mut self, ip: IpAddr)
        requires
            old(self).wf(),
            old(self)@.persistent.contains_key(ip) ==> old(self)@.persistent[ip] < usize::MAX,
        ensures
            final(self).wf(),
            final(self)@ == old(self)@.with_persistent(ip),
    {
        let n: usize = match self.persistent_ips.get(&ip) {
            Some(n) => *n,
            None => 0,
        };
        self.persistent_ips.insert(ip, n + 1);
        if n == 0 {
            if let Some(state) = self.ip_state.remove(&ip) {
                if state.connections != 0 {
                    self.ip_state.insert(
                        ip,
                        IpState { connections: state.connections, last_disconnect: None },
                    );
                    assert(self@.ip_state =~= old(self)@.with_persistent(ip).ip_state);
                }
            } else {
                assert(self@.ip_state =~= old(self)@.ip_state);
            }
        }
    }

    /// No longer count a persistent peer at `ip`. The exemption ends with the
    /// last peer there.
    pub fn remove_persistent_ip(&mut self, ip: IpAddr)
        requires
            old(self).wf(),
        ensures
            final(self).wf(),
            final(self)@ == old(self)@.without_persistent(ip),
    {
        if let Some(n) = self.persistent_ips.remove(&ip) {
            if n != 1 {
                self.persistent_ips.insert(ip, n - 1);
                assert(self@.persistent =~= old(self)@.without_persistent(ip).persistent);
            }
        } else {
            assert(self@.persistent =~= old(self)@.persistent);
        }
    }

    /// Count `connection_id` from `ip`.
    fn track_connection(&mut self, connection_id: u64, ip: IpAddr)
        requires
            old(self).wf(),
            old(self)@.count(ip) < usize::MAX,
        ensures
            final(self).wf(),
            final(self)@ == old(self)@.with_connection(connection_id, ip),
    {
        self.connection_ips.insert(connection_id, ip);
        let n: usize = match self.ip_state.get(&ip) {
            Some(state) => state.connections,
            None => 0,
        };
        self.ip_state.insert(ip, IpState { connections: n + 1, last_disconnect: None });
    }

    /// No longer count `connection_id`, which closed or failed at `now`.
    fn untrack_connection(&mut self, connection_id: u64, now: u64)
        requires
            old(self).wf(),
        ensures
            final(self).wf(),
            final(self)@ == old(self)@.without_connection(connection_id, now),
    {
        let ghost want = self@.without_connection(connection_id, now);
        let ip = match self.connection_ips.remove(&connection_id) {
            Some(ip) => ip,
            None => {
                assert(self@.connection_ips =~= want.connection_ips);
                return;
            },
        };
        let state = match self.ip_state.get(&ip) {
            Some(state) => *state,
            None => {
                return;
            },
        };
        let connections: usize = if state.connections > 0 {
            state.connections - 1
        } else {
            0
        };
        if connections == 0 {
            if self.ip_throttle_duration > 0 && !self.persistent_ips.contains_key(&ip) {
                self.ip_state.insert(ip, IpState { connections: 0, last_disconnect: Some(now) });
            } else {
                self.ip_state.remove(&ip);
            }
        } else {
            self.ip_state.insert(
                ip,
                IpState { connections, last_disconnect: state.last_disconnect },
            );
        }
        assert(self@ == want);
    }

    /// Decide on a pending inbound connection at `now`, and count it where it
    /// is not refused. An address without an IP address is not limited.
    pub fn handle_pending_inbound_connection(
        &mut self,
        connection_id: u64,
        remote_addr: &Multiaddr,
        now: u64,
    ) -> (r: Result<(), Denied>)
        requires
            old(self).wf(),
        ensures
            final(self).wf(),
            (final(self)@, r) == old(self)@.decided(connection_id, ip_key(remote_addr@), now),
    {
        match extract_ip(remote_addr) {
            Some(ip) => self.decide(connection_id, ip, now),
            None => Ok(()),
        }
    }

    /// Decide on a pending inbound connection from `ip` at `now`.
    fn decide(&mut self, connection_id: u64, ip: IpAddr, now: u64) -> (r: Result<(), Denied>)
        requires
            old(self).wf(),
        ensures
            final(self).wf(),
            (final(self)@, r) == old(self)@.decided(connection_id, Some(ip), now),
    {
        let count: usize = match self.ip_state.get(&ip) {
            Some(state) => state.connections,
            None => 0,
        };
        if count >= self.max_connections_per_ip {
            return Err(Denied::IpLimitExceeded { ip, count });
        }
        if !self.persistent_ips.contains_key(&ip) {
            if let Some(state) = self.ip_state.get(&ip) {
                if let Some(last) = state.last_disconnect {
                    let elapsed: u64 = if now >= last {
                        now - last
                    } else {
                        0
                    };
                    if elapsed < self.ip_throttle_duration {
                        return Err(
                            Denied::IpThrottled {
                                ip,
                                elapsed,
                                throttle_duration: self.ip_throttle_duration,
                            },
                        );
                    }
                }
            }
        }
        self.track_connection(connection_id, ip);
        Ok(())
    }

    /// Take note of an event of the swarm at `now`.
    pub fn on_swarm_event(&mut self, event: SwarmEvent, now: u64)
        requires
            old(self).wf(),
        ensures
            final(self).wf(),
            final(self)@ == (match event {
                SwarmEvent::ConnectionClosed(c) => old(self)@.without_connection(c, now),
                SwarmEvent::ListenFailure(c) => old(self)@.without_connection(c, now),
                SwarmEvent::Other => old(self)@,
            }),
    {
        match event {
            SwarmEvent::ConnectionClosed(connection_id) => {
                self.untrack_connection(connection_id, now);
            },
            SwarmEvent::ListenFailure(connection_id) => {
                self.untrack_connection(connection_id, now);
            },
            SwarmEvent::Other => {},
        }
    }

    /// Drop expired entries at `now`, where that was not done lately.
    pub fn poll(&mut self, now: u64)
        requires
            old(self).wf(),
        ensures
            final(self).wf(),
            final(self)@ == if since(now, old(self).last_eviction) >= EVICTION_INTERVAL {
                LimitsView { last_eviction: now, ..old(self)@.evicted(now) }
            } else {
                old(self)@
            },
    {
        let elapsed: u64 = if now >= self.last_eviction {
            now - self.last_eviction
        } else {
            0
        };
        if elapsed >= EVICTION_INTERVAL {
            self.evict_expired(now);
            self.last_eviction = now;
        }
    }
}

impl LimitsView {
    /// What becomes of a pending connection that counts under `key`.
    pub open spec fn decided(self, connection: u64, key: Option<IpAddr>, now: u64) -> (
        LimitsView,
        Result<(), Denied>,
    ) {
        match key {
            None => (self, Ok(())),
            Some(ip) => match self.refusal(ip, now) {
                Some(d) => (self, Err(d)),
                None => (self.with_connection(connection, ip), Ok(())),
            },
        }
    }

    /// The connections that count under `ip`.
    pub open spec fn connections_of(self, ip: IpAddr) -> Set<u64> {
        self.connection_ips.dom().filter(|c: u64| self.connection_ips[c] == ip)
    }

    /// The counts are those of the tracked connections, none is over the limit,
    /// and an address with connections has no delay.
    pub open spec fn consistent(self) -> bool {
        &&& self.connection_ips.dom().finite()
        &&& forall|ip: IpAddr| #[trigger] self.connections_of(ip).len() == self.count(ip)
        &&& forall|ip: IpAddr| #[trigger] self.ip_state.contains_key(ip) ==> self.ip_state[ip].connections
            <= self.max
        &&& forall|ip: IpAddr| #[trigger]
            self.ip_state.contains_key(ip) && self.ip_state[ip].connections > 0
                ==> self.ip_state[ip].last_disconnect is None
    }
}

/// Deciding on a new connection keeps the counts those of the tracked
/// connections, and within the limit.
pub proof fn law_accepting_keeps_counts(s: LimitsView, connection: u64, key: Option<IpAddr>, now: u64)
    requires
        s.consistent(),
        !s.connection_ips.contains_key(connection),
    ensures
        s.decided(connection, key, now).0.consistent(),
{
    let t = s.decided(connection, key, now).0;
    if t != s {
        let ip = key->Some_0;
        assert(t == s.with_connection(connection, ip));
        assert forall|q: IpAddr| #[trigger] t.connections_of(q).len() == t.count(q) by {
            assert(s.connections_of(q).len() == s.count(q));
            if q == ip {
                assert(t.connections_of(q) =~= s.connections_of(q).insert(connection));
                assert(!s.connections_of(q).contains(connection));
            } else {
                assert(t.connections_of(q) =~= s.connections_of(q));
            }
        }
    }
}

/// A connection that closes keeps the counts those of the tracked connections.
pub proof fn law_closing_keeps_counts(s: LimitsView, connection: u64, now: u64)
    requires
        s.consistent(),
    ensures
        s.without_connection(connection, now).consistent(),
        !s.without_connection(connection, now).connection_ips.contains_key(connection),
{
    let t = s.without_connection(connection, now);
    if s.connection_ips.contains_key(connection) {
        let ip = s.connection_ips[connection];
        assert(s.connections_of(ip).contains(connection));
        assert(s.connections_of(ip).len() == s.count(ip));
        assert forall|q: IpAddr| #[trigger] t.connections_of(q).len() == t.count(q) by {
            assert(s.connections_of(q).len() == s.count(q));
            if q == ip {
                assert(t.connections_of(q) =~= s.connections_of(q).remove(connection));
            } else {
                assert(t.connections_of(q) =~= s.connections_of(q));
            }
        }
    }
}

/// Dropping expired entries keeps the counts those of the tracked connections.
pub proof fn law_eviction_keeps_counts(s: LimitsView, now: u64)
    requires
        s.consistent(),
    ensures
        s.evicted(now).consistent(),
{
    let t = s.evicted(now);
    assert forall|q: IpAddr| #[trigger] t.connections_of(q).len() == t.count(q) by {
        assert(s.connections_of(q).len() == s.count(q));
        assert(t.connections_of(q) =~= s.connections_of(q));
    }
}

/// Dropping expired entries changes no later decision.
pub proof fn law_eviction_changes_no_decision(s: LimitsView, ip: IpAddr, now: u64, later: u64)
    requires
        now <= later,
    ensures
        s.evicted(now).refusal(ip, later) == s.refusal(ip, later),
{
}

/// After its last connection closed, an address that is no persistent peer's
/// is refused until the delay is over, and accepted from then on.
pub proof fn law_reconnect_delay(s: LimitsView, connection: u64, closed: u64, now: u64)
    requires
        s.consistent(),
        s.connection_ips.contains_key(connection),
        s.count(s.connection_ips[connection]) == 1,
        !s.persistent.contains_key(s.connection_ips[connection]),
        s.max > 0,
        s.throttle > 0,
        closed <= now,
    ensures
        ({
            let ip = s.connection_ips[connection];
            s.without_connection(connection, closed).refusal(ip, now) is Some <==> now - closed < s.throttle
        }),
{
}

/// A persistent peer's address is never refused for reconnecting.
pub proof fn law_persistent_ip_not_delayed(s: LimitsView, ip: IpAddr, now: u64)
    requires
        s.persistent.contains_key(ip),
    ensures
        !(s.refusal(ip, now) matches Some(Denied::IpThrottled { .. })),
{
}

/// Removing a persistent peer undoes adding it.
pub proof fn law_persistent_ip_counted(s: LimitsView, ip: IpAddr)
    requires
        s.persistent.contains_key(ip) ==> 1 <= s.persistent[ip] < usize::MAX,
    ensures
        s.with_persistent(ip).without_persistent(ip).persistent == s.persistent,
{
    assert(s.with_persistent(ip).without_persistent(ip).persistent =~= s.persistent);
}

} // verus!
