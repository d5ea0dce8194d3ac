use malachitebft::bytes::Bytes;
use malachitebft::network::ip_limits::{extract_ip, Behaviour, Denied, SwarmEvent};
use malachitebft::network::multiaddr::{IpAddr, Multiaddr};

/// A second, in nanoseconds.
const SEC: u64 = 1_000_000_000;

/// Some time after the start.
const NOW: u64 = 100 * SEC;

fn multiaddr(addr: &str) -> Multiaddr {
    Multiaddr::parse(addr).expect("valid multiaddr")
}

fn ipv4(a: u8, b: u8, c: u8, d: u8) -> IpAddr {
    IpAddr::V4(Bytes([a, b, c, d]))
}

fn remote_addr() -> Multiaddr {
    multiaddr("/ip4/10.0.0.1/tcp/9000")
}

fn remote_ip() -> IpAddr {
    ipv4(10, 0, 0, 1)
}

fn new_behaviour(max_connections_per_ip: usize) -> Behaviour {
    Behaviour::new(max_connections_per_ip, 0, &vec![], 0)
}

fn new_throttled_behaviour(max_connections_per_ip: usize, throttle: u64) -> Behaviour {
    Behaviour::new(max_connections_per_ip, throttle, &vec![], 0)
}

fn track_pending(b: &mut Behaviour, conn_id: u64) {
    let remote = remote_addr();
    b.handle_pending_inbound_connection(conn_id, &remote, NOW)
        .expect("connection should be accepted");
}

fn emit_connection_closed(b: &mut Behaviour, conn_id: u64) {
    b.on_swarm_event(SwarmEvent::ConnectionClosed(conn_id), NOW);
}

fn emit_listen_failure(b: &mut Behaviour, conn_id: u64) {
    b.on_swarm_event(SwarmEvent::ListenFailure(conn_id), NOW);
}

fn connection_count(b: &Behaviour, ip: &IpAddr) -> usize {
    b.ip_state.get(ip).map(|s| s.connections).unwrap_or(0)
}

fn is_throttled(b: &Behaviour, ip: &IpAddr) -> bool {
    b.ip_state
        .get(ip)
        .is_some_and(|s| s.connections == 0 && s.last_disconnect.is_some())
}

#[test]
fn counter_decremented_on_connection_closed() {
    let mut b = new_behaviour(5);
    let conn = 1;

    track_pending(&mut b, conn);
    assert_eq!(connection_count(&b, &remote_ip()), 1);

    emit_connection_closed(&mut b, conn);
    assert_eq!(connection_count(&b, &remote_ip()), 0);
    assert!(b.connection_ips.is_empty());
}

#[test]
fn counter_decremented_on_listen_failure() {
    let mut b = new_behaviour(5);
    let conn = 1;

    track_pending(&mut b, conn);
    assert_eq!(connection_count(&b, &remote_ip()), 1);

    emit_listen_failure(&mut b, conn);
    assert_eq!(connection_count(&b, &remote_ip()), 0);
    assert!(b.connection_ips.is_empty());
}

#[test]
fn connection_allowed_after_listen_failure() {
    let mut b = new_behaviour(2);
    let conn1 = 1;
    let conn2 = 2;

    // Fill the per-IP limit.
    track_pending(&mut b, conn1);
    track_pending(&mut b, conn2);

    // A third connection from the same IP should be denied.
    let conn3 = 3;
    let remote = remote_addr();
    assert!(b
        .handle_pending_inbound_connection(conn3, &remote, NOW)
        .is_err());

    // Simulate a handshake failure for one connection.
    emit_listen_failure(&mut b, conn1);

    // Now a new connection from the same IP should be accepted.
    let conn4 = 4;
    assert!(b
        .handle_pending_inbound_connection(conn4, &remote, NOW)
        .is_ok());
}

#[test]
fn untrack_unknown_connection_is_noop() {
    let mut b = new_behaviour(5);
    let unknown = 999;

    // Should not panic or alter state.
    emit_listen_failure(&mut b, unknown);

    assert!(b.ip_state.is_empty());
    assert!(b.connection_ips.is_empty());
}

#[test]
fn reconnect_rejected_within_throttle_window() {
    let mut b = new_throttled_behaviour(5, 30 * SEC);
    let conn1 = 1;

    // Connect and disconnect
    track_pending(&mut b, conn1);
    emit_connection_closed(&mut b, conn1);

    // Immediate reconnect should be rejected
    let conn2 = 2;
    let remote = remote_addr();
    assert!(b
        .handle_pending_inbound_connection(conn2, &remote, NOW)
        .is_err());
}

#[test]
fn reconnect_allowed_after_throttle_expires() {
    // Use a very short throttle so the test is fast
    let mut b = new_throttled_behaviour(5, SEC / 1_000);
    let conn1 = 1;

    // Connect and disconnect
    track_pending(&mut b, conn1);
    emit_connection_closed(&mut b, conn1);

    // The delay is over.
    let later = NOW + 5 * SEC / 1_000;

    // Reconnect should now be allowed
    let conn2 = 2;
    let remote = remote_addr();
    assert!(b
        .handle_pending_inbound_connection(conn2, &remote, later)
        .is_ok());
    // After accepting, last_disconnect should be cleared (track_connection sets it to None)
    assert!(!is_throttled(&b, &remote_ip()));
}

#[test]
fn persistent_ip_exempt_from_throttle() {
    let persistent_addr = multiaddr("/ip4/10.0.0.1/tcp/9000");
    let mut b = Behaviour::new(5, 30 * SEC, &vec![persistent_addr], 0);
    let conn1 = 1;

    // Connect and disconnect from persistent IP
    track_pending(&mut b, conn1);
    emit_connection_closed(&mut b, conn1);

    // Immediate reconnect should be allowed (persistent peer exempt)
    let conn2 = 2;
    let remote = remote_addr(); // same IP as persistent_addr: 10.0.0.1
    assert!(b
        .handle_pending_inbound_connection(conn2, &remote, NOW)
        .is_ok());
}

#[test]
fn add_persistent_ip_clears_throttle() {
    let mut b = new_throttled_behaviour(5, 30 * SEC);
    let conn1 = 1;

    // Connect and disconnect (creates throttle entry)
    track_pending(&mut b, conn1);
    emit_connection_closed(&mut b, conn1);
    assert!(is_throttled(&b, &remote_ip()));

    // Adding the IP as persistent should clear the throttle entry
    b.add_persistent_ip(remote_ip());
    assert!(!is_throttled(&b, &remote_ip()));

    // Reconnect should be allowed
    let conn2 = 2;
    let remote = remote_addr();
    assert!(b
        .handle_pending_inbound_connection(conn2, &remote, NOW)
        .is_ok());
}

#[test]
fn throttle_not_recorded_when_connections_remain() {
    let mut b = new_throttled_behaviour(5, 30 * SEC);
    let conn1 = 1;
    let conn2 = 2;

    // Two connections from same IP
    track_pending(&mut b, conn1);
    track_pending(&mut b, conn2);

    // Close only one connection — count goes from 2 to 1
    emit_connection_closed(&mut b, conn1);

    // No throttle should be active (connections remain)
    assert!(!is_throttled(&b, &remote_ip()));
    assert_eq!(connection_count(&b, &remote_ip()), 1);

    // A new connection should still be allowed
    let conn3 = 3;
    let remote = remote_addr();
    assert!(b
        .handle_pending_inbound_connection(conn3, &remote, NOW)
        .is_ok());
}

#[test]
fn throttle_disabled_with_zero_duration() {
    let mut b = new_behaviour(5); // zero throttle
    let conn1 = 1;

    // Connect and disconnect
    track_pending(&mut b, conn1);
    emit_connection_closed(&mut b, conn1);

    // No throttle entry recorded — entry fully removed
    assert!(b.ip_state.is_empty());

    // Immediate reconnect should be allowed
    let conn2 = 2;
    let remote = remote_addr();
    assert!(b
        .handle_pending_inbound_connection(conn2, &remote, NOW)
        .is_ok());
}

#[test]
fn different_ips_throttled_independently() {
    let mut b = new_throttled_behaviour(5, 30 * SEC);
    let conn1 = 1;

    // Connect and disconnect from IP 10.0.0.1
    track_pending(&mut b, conn1);
    emit_connection_closed(&mut b, conn1);

    // A different IP should not be throttled
    let conn2 = 2;
    let other_remote = multiaddr("/ip4/10.0.0.2/tcp/9000");
    assert!(b
        .handle_pending_inbound_connection(conn2, &other_remote, NOW)
        .is_ok());
}

#[test]
fn evict_expired_removes_stale_entries() {
    let mut b = new_throttled_behaviour(5, 30 * SEC);
    let conn1 = 1;
    let conn2 = 2;
    let other_remote = multiaddr("/ip4/10.0.0.2/tcp/9000");

    // IP 1: connect and disconnect (throttle entry created)
    track_pending(&mut b, conn1);
    emit_connection_closed(&mut b, conn1);
    assert!(is_throttled(&b, &remote_ip()));

    // IP 2: still actively connected
    b.handle_pending_inbound_connection(conn2, &other_remote, NOW)
        .unwrap();

    // Evict using an instant far in the future, past the throttle window
    b.evict_expired(NOW + 60 * SEC);

    // IP 1's throttle entry should be gone
    assert!(!b.ip_state.contains_key(&remote_ip()));
    // IP 2's active connection should be preserved
    assert_eq!(connection_count(&b, &ipv4(10, 0, 0, 2)), 1);
}

#[test]
fn extract_ip_returns_full_ipv4_address() {
    let addr = multiaddr("/ip4/10.0.0.1/tcp/9000");
    assert_eq!(
        extract_ip(&addr),
        Some(ipv4(10, 0, 0, 1)),
    );
}

#[test]
fn extract_ip_masks_ipv6_to_64_prefix() {
    let addr = multiaddr("/ip6/2001:db8:1:2:3:4:5:6/tcp/9000");
    let expected = Bytes([0x20, 0x01, 0x0d, 0xb8, 0, 1, 0, 2, 0, 0, 0, 0, 0, 0, 0, 0]);
    assert_eq!(extract_ip(&addr), Some(IpAddr::V6(expected)));
}

#[test]
fn extract_ip_treats_ipv4_mapped_ipv6_as_ipv4() {
    let addr = multiaddr("/ip6/::ffff:10.0.0.1/tcp/9000");
    assert_eq!(
        extract_ip(&addr),
        Some(ipv4(10, 0, 0, 1)),
    );
}

#[test]
fn extract_ip_groups_same_ipv6_64_prefix() {
    let first = multiaddr("/ip6/2001:db8::1/tcp/9000");
    let last = multiaddr("/ip6/2001:db8::ffff:ffff:ffff:ffff/tcp/9000");
    assert_eq!(extract_ip(&first), extract_ip(&last));
}

#[test]
fn extract_ip_separates_different_ipv6_64_prefixes() {
    let first = multiaddr("/ip6/2001:db8:1::1/tcp/9000");
    let second = multiaddr("/ip6/2001:db8:2::1/tcp/9000");
    assert_ne!(extract_ip(&first), extract_ip(&second));
}

#[test]
fn connections_from_same_ipv6_64_share_limit() {
    let mut b = new_behaviour(2);
    let first = multiaddr("/ip6/2001:db8::1/tcp/9000");
    let second = multiaddr("/ip6/2001:db8::2/tcp/9000");
    let third = multiaddr("/ip6/2001:db8::3/tcp/9000");

    b.handle_pending_inbound_connection(1, &first, NOW)
        .expect("first connection accepted");
    b.handle_pending_inbound_connection(2, &second, NOW)
        .expect("second connection accepted");
    assert!(b
        .handle_pending_inbound_connection(3, &third, NOW)
        .is_err());
}

#[test]
fn connections_from_different_ipv6_64_count_separately() {
    let mut b = new_behaviour(1);
    let first_prefix = multiaddr("/ip6/2001:db8:1::1/tcp/9000");
    let second_prefix = multiaddr("/ip6/2001:db8:2::1/tcp/9000");

    b.handle_pending_inbound_connection(1, &first_prefix, NOW)
        .expect("first prefix accepted");
    b.handle_pending_inbound_connection(2, &second_prefix, NOW)
        .expect("second prefix accepted");
}

#[test]
fn persistent_ip_exemption_refcounted_across_removes() {
    let mut b = new_throttled_behaviour(5, 30 * SEC);
    let ip = remote_ip();

    // Two persistent peers reference the same IP (NAT / shared /64).
    b.add_persistent_ip(ip);
    b.add_persistent_ip(ip);

    // First removal: still one reference, exemption must persist.
    b.remove_persistent_ip(ip);
    assert!(b.persistent_ips.contains_key(&ip));

    // Disconnect from this IP — no throttle entry should be recorded
    // because the IP is still exempt.
    let conn = 1;
    let remote = remote_addr();
    b.handle_pending_inbound_connection(conn, &remote, NOW)
        .unwrap();
    emit_connection_closed(&mut b, conn);
    assert!(!is_throttled(&b, &ip));

    // Second removal: refcount reaches 0, exemption dropped.
    b.remove_persistent_ip(ip);
    assert!(!b.persistent_ips.contains_key(&ip));

    // Now a disconnect should record a throttle entry.
    let conn2 = 2;
    b.handle_pending_inbound_connection(conn2, &remote, NOW)
        .unwrap();
    emit_connection_closed(&mut b, conn2);
    assert!(is_throttled(&b, &ip));
}

#[test]
fn constructor_refcounts_duplicate_persistent_addrs() {
    // Two persistent peers behind the same IPv4 (different ports → same IP).
    let addr1 = multiaddr("/ip4/10.0.0.1/tcp/9000");
    let addr2 = multiaddr("/ip4/10.0.0.1/tcp/9001");
    let mut b = Behaviour::new(5, 30 * SEC, &vec![addr1, addr2], 0);
    let ip = remote_ip();

    // One removal must not drop the exemption.
    b.remove_persistent_ip(ip);
    assert!(b.persistent_ips.contains_key(&ip));

    b.remove_persistent_ip(ip);
    assert!(!b.persistent_ips.contains_key(&ip));
}

#[test]
fn remove_persistent_ip_for_unknown_is_noop() {
    let mut b = new_throttled_behaviour(5, 30 * SEC);
    // No `add_persistent_ip` was ever called for this IP.
    b.remove_persistent_ip(remote_ip());
    assert!(b.persistent_ips.is_empty());
}

#[test]
fn a_refusal_says_why() {
    let mut b = new_throttled_behaviour(1, 30 * SEC);
    track_pending(&mut b, 1);
    assert_eq!(
        b.handle_pending_inbound_connection(2, &remote_addr(), NOW),
        Err(Denied::IpLimitExceeded { ip: remote_ip(), count: 1 })
    );
    emit_connection_closed(&mut b, 1);
    assert_eq!(
        b.handle_pending_inbound_connection(3, &remote_addr(), NOW + 7 * SEC),
        Err(Denied::IpThrottled {
            ip: remote_ip(),
            elapsed: 7 * SEC,
            throttle_duration: 30 * SEC,
        })
    );
}

#[test]
fn an_address_without_ip_is_not_limited() {
    let mut b = new_behaviour(0);
    let dns = multiaddr("/dns4/example.com/tcp/9000");
    assert_eq!(extract_ip(&dns), None);
    assert!(b.handle_pending_inbound_connection(1, &dns, NOW).is_ok());
    assert!(b.connection_ips.is_empty());
}

#[test]
fn expired_entries_are_dropped_now_and_then() {
    let mut b = new_throttled_behaviour(5, SEC);
    track_pending(&mut b, 1);
    emit_connection_closed(&mut b, 1);
    b.poll(NOW + 2 * SEC);
    assert!(b.ip_state.is_empty());
    assert_eq!(b.last_eviction, NOW + 2 * SEC);

    assert!(b.handle_pending_inbound_connection(2, &remote_addr(), NOW + 3 * SEC).is_ok());
    b.on_swarm_event(SwarmEvent::ConnectionClosed(2), NOW + 3 * SEC);
    b.poll(NOW + 6 * SEC);
    assert!(is_throttled(&b, &remote_ip()), "dropped too soon after the last time");
    b.poll(NOW + 7 * SEC);
    assert!(b.ip_state.is_empty());
}
