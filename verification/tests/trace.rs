use malachitebft::bytes::{Bytes, ShortBytes};
use malachitebft::discovery::oracle::{
    check_request, dial_add_to_queue, dial_clear_done_for_peer, dial_peer, dial_register_done_on,
    handle_connection,
    handle_failed_bootstrap, handle_new_peer, handle_successful_bootstrap, make_extension_step,
    peers_request_peer, rate_limiter_new, rate_limiter_remove_peer, DialData, Record, Trace, Value,
};
use malachitebft::engine::event::PeerId;
use malachitebft::first_seen::FirstSeen;
use malachitebft::network::multiaddr::{IpAddr, Multiaddr};
use malachitebft::network::quint_ids::Names;
use malachitebft::text::{decimal_text, join, signed_decimal_text, sort_order, sorted_texts};

fn peer(n: u8) -> PeerId {
    ShortBytes::from_slice(&[n; 34]).unwrap()
}

fn addr(text: &str) -> Multiaddr {
    Multiaddr::parse(text).unwrap()
}

fn number(record: &Record, i: usize) -> u128 {
    match record.args[i].value {
        Value::Number(n) => n,
        _ => panic!("expected a number"),
    }
}

#[test]
fn trace_that_is_off_records_nothing() {
    let mut trace = Trace::new(false);
    assert!(check_request(&mut trace, 0, &peer(1)).is_empty());
    assert!(make_extension_step(&mut trace, 0).is_empty());
    assert!(trace.peers.items.is_empty());
}

#[test]
fn values_are_numbered_as_they_are_first_seen() {
    let mut trace = Trace::new(true);
    let r = handle_connection(&mut trace, 0, &peer(5), 70, true);
    assert_eq!(r[0].action, "handle_connection");
    assert_eq!((number(&r[0], 0), number(&r[0], 1)), (1, 1));
    assert_eq!(r[0].args[0].domain, Some("PEERS"));
    let r = handle_connection(&mut trace, 0, &peer(6), 70, false);
    assert_eq!((number(&r[0], 0), number(&r[0], 1)), (2, 1));
    let r = check_request(&mut trace, 0, &peer(5));
    assert_eq!(number(&r[0], 0), 1);
}

#[test]
fn clock_ticks_once_a_millisecond_has_passed() {
    let mut trace = Trace::new(true);
    assert_eq!(handle_successful_bootstrap(&mut trace, 10_000_000).len(), 1);
    assert_eq!(handle_failed_bootstrap(&mut trace, 10_999_999).len(), 1);
    let r = make_extension_step(&mut trace, 11_999_999);
    assert_eq!(r.len(), 2);
    assert_eq!(r[0].action, "clock_tick");
    assert_eq!(r[1].action, "make_extension_step");
}

#[test]
fn addresses_are_numbered_in_tens() {
    let mut trace = Trace::new(true);
    let dial = DialData {
        peer_id: None,
        listen_addrs: vec![addr("/ip4/1.1.1.1/tcp/1"), addr("/ip4/2.2.2.2/tcp/1")],
        retry: 3,
        is_bootstrap: true,
    };
    let r = dial_register_done_on(&mut trace, 0, &dial, true);
    match &r[0].args[0].value {
        Value::Dial { peer_id, listen_addrs, retry, is_bootstrap } => {
            assert_eq!(*peer_id, 0);
            assert_eq!(listen_addrs, &vec![10, 20]);
            assert_eq!((*retry, *is_bootstrap), (3, true));
        }
        _ => panic!("expected a dial"),
    }
    let r = dial_add_to_queue(&mut trace, 0, &dial, Some(250));
    assert_eq!(number(&r[0], 1), 250);
    let r = handle_new_peer(&mut trace, 0, 8, &vec![addr("/ip4/2.2.2.2/tcp/1")], true);
    assert!(matches!(&r[0].args[1].value, Value::Numbers(n) if n == &vec![20]));
    assert!(matches!(r[0].args[2].value, Value::Text("rejected")));
    assert_eq!(r[0].args[2].name, "outcome");
}

#[test]
fn missing_values_are_zero() {
    let mut trace = Trace::new(true);
    assert_eq!(number(&dial_peer(&mut trace, 0, None, false)[0], 0), 0);
    assert_eq!(number(&peers_request_peer(&mut trace, 0, None, false)[0], 0), 0);
    let r = rate_limiter_new(&mut trace, 0, 0, 7, 8, 9);
    assert_eq!(r[0].action, "DiscoveryRateLimiternew");
    let numbers: Vec<u128> = (0..4).map(|i| number(&r[0], i)).collect();
    assert_eq!(numbers, vec![7, 8, 1, 9]);
}

#[test]
fn numbers_stay_and_differ() {
    let mut seen: FirstSeen<u64> = FirstSeen::new();
    assert_eq!(seen.number(&40), 1);
    assert_eq!(seen.number(&50), 2);
    assert_eq!(seen.number(&40), 1);
    assert_eq!(seen.number(&60), 3);
}

#[test]
fn names_have_a_prefix_and_a_number() {
    let mut names = Names::new();
    assert_eq!(names.node(&peer(1)), "n1");
    assert_eq!(names.node(&peer(2)), "n2");
    assert_eq!(names.peer(&peer(2)), "p1");
    assert_eq!(names.conn(99), "c1");
    assert_eq!(names.limiter_node(), "l1");
    assert_eq!(names.limiter_node(), "l2");
    assert_eq!(names.ip_name(&IpAddr::V4(Bytes([1, 2, 3, 4]))), "i1");
    let a = names.addr(&addr("/ip4/1.2.3.4/tcp/5"));
    assert_eq!((a.base.as_str(), a.ip.as_str(), a.peer.as_str()), ("A1", "i1", ""));
    let a = names.addr(&addr("/dns4/example.com/tcp/5"));
    assert_eq!((a.base.as_str(), a.ip.as_str(), a.peer.as_str()), ("A2", "", ""));
}

#[test]
fn validator_has_one_number_for_address_and_key() {
    let mut names = Names::new();
    let (first, second) = ("first".to_string(), "second".to_string());
    assert_eq!(names.cons_addr(&first, Some(&vec![1])), "ca1");
    assert_eq!(names.public_key(&vec![1]), "k1");
    assert_eq!(names.public_key(&vec![2]), "k2");
    assert_eq!(names.cons_addr(&second, Some(&vec![2])), "ca2");
    assert_eq!(names.cons_addr(&first, None), "ca1");
}

#[test]
fn numbers_are_written_in_decimal() {
    assert_eq!(decimal_text(0), "0");
    assert_eq!(decimal_text(1_234_567_890), "1234567890");
    assert_eq!(decimal_text(u64::MAX), "18446744073709551615");
    assert_eq!(signed_decimal_text(-5), "-5");
    assert_eq!(signed_decimal_text(i64::MIN), "-9223372036854775808");
    assert_eq!(signed_decimal_text(42), "42");
}

#[test]
fn texts_are_sorted_and_joined() {
    let texts: Vec<String> = ["b", "a", "", "ab"].iter().map(|t| t.to_string()).collect();
    assert_eq!(sorted_texts(&texts), vec!["", "a", "ab", "b"]);
    assert_eq!(join(&texts, ","), "b,a,,ab");
    assert_eq!(join(&vec![], ","), "");
    assert_eq!(sort_order(vec![vec![2], vec![1], vec![2], vec![0, 9]]), vec![3, 1, 0, 2]);
}

#[test]
fn forgetting_a_peer_is_recorded() {
    let mut trace = Trace::new(true);
    let r = rate_limiter_remove_peer(&mut trace, 0, &peer(5));
    assert_eq!(r.len(), 1);
    assert_eq!(r[0].args[0].name, "peer_id");
    assert_eq!(number(&r[0], 0), 1);
    let addrs = vec![addr("/ip4/10.0.0.1/tcp/1"), addr("/ip4/10.0.0.2/tcp/1")];
    let r = dial_clear_done_for_peer(&mut trace, 0, &peer(6), &addrs);
    assert_eq!(number(&r[0], 0), 2);
    assert!(matches!(&r[0].args[1].value, Value::Numbers(n) if n == &vec![10, 20]));
}
