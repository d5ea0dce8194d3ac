use malachitebft::bytes::ShortBytes;
use malachitebft::engine::consensus::{should_end_waiting_for_sync, Phase};
use malachitebft::engine::event::{PeerId, RequestId};
use malachitebft::engine::failure::{
    append_result, flush_result, hang_on_safety_failure, stop_on_failure, Outcome,
};
use malachitebft::engine::node::{NodeAction, NodeMsg, NodeState, SupervisionEvent};
use malachitebft::engine::sync::{
    drain_inbound_requests_for_peer, local_transient_retry_delay, sync_queue_capacity,
    truncate_values_to_size_limit, SyncConfig,
};
use malachitebft::ident::OrdMap;

fn id(text: &str) -> ShortBytes {
    ShortBytes::from_slice(text.as_bytes()).unwrap()
}

#[test]
fn stale_decision_committed_after_height_advance_does_not_end_waiting_for_sync() {
    let current_height = 2;
    let committed_height = 1;

    // Even when in WaitingForSync, a stale committed height must not trigger the transition.
    assert!(!should_end_waiting_for_sync(
        Phase::WaitingForSync,
        current_height,
        committed_height
    ));
}

#[test]
fn current_height_decision_committed_ends_waiting_for_sync() {
    let current_height = 1;

    assert!(should_end_waiting_for_sync(
        Phase::WaitingForSync,
        current_height,
        current_height
    ));
}

#[test]
fn sync_queue_capacity_covers_read_ahead_ranges() {
    for parallel_requests in 0..=8 {
        for batch_size in 0..=8 {
            let config = SyncConfig { parallel_requests, batch_size, max_response_size: 1 };
            let max_requested_heights = config
                .read_ahead_window()
                .saturating_add(config.effective_batch_size().saturating_sub(1));
            let queue_capacity = sync_queue_capacity(&config);

            assert!(
                queue_capacity >= max_requested_heights,
                "queue capacity {queue_capacity} is smaller than the read-ahead range \
                 {max_requested_heights} for parallel_requests={parallel_requests}, \
                 batch_size={batch_size}"
            );
        }
    }
}

#[test]
fn drain_inbound_requests_for_peer_evicts_only_that_peers_requests() {
    let peer_a: PeerId = id("peer a");
    let peer_b: PeerId = id("peer b");

    let mut inbound: OrdMap<RequestId, PeerId> = OrdMap::new();
    inbound.insert(id("a1"), peer_a);
    inbound.insert(id("a2"), peer_a);
    inbound.insert(id("b1"), peer_b);

    let evicted = drain_inbound_requests_for_peer(&mut inbound, peer_a);

    assert_eq!(evicted, vec![id("a1"), id("a2")]);
    // Only the disconnected peer's requests are removed.
    assert_eq!(inbound.len(), 1);
    assert_eq!(inbound.get(&id("b1")), Some(&peer_b));
}

#[test]
fn drain_inbound_requests_for_peer_is_noop_for_unknown_peer() {
    let peer_a: PeerId = id("peer a");
    let unknown: PeerId = id("unknown");

    let mut inbound: OrdMap<RequestId, PeerId> = OrdMap::new();
    inbound.insert(id("a1"), peer_a);

    let evicted = drain_inbound_requests_for_peer(&mut inbound, unknown);

    assert!(evicted.is_empty());
    assert_eq!(inbound.len(), 1);
}

#[test]
fn child_failure_stops_node_and_leaves_metric_zero() {
    let mut node = NodeState::new();
    let action = node.handle_supervisor_evt(SupervisionEvent::ActorFailed(
        "child".to_string(),
        "liveness test".to_string(),
    ));
    assert!(matches!(action, NodeAction::Stop(m) if m == "child actor failed: child (liveness test)"));
    assert!(!node.safety_hang, "a liveness failure is no safety failure");
}

#[test]
fn child_termination_stops_node() {
    let mut node = NodeState::new();
    let action = node.handle_supervisor_evt(SupervisionEvent::ActorTerminated(
        "child".to_string(),
        Some("clean shutdown of child".to_string()),
    ));
    assert!(matches!(
        action,
        NodeAction::Stop(m) if m == "child actor terminated: child (clean shutdown of child)"
    ));
}

#[test]
fn child_failure_during_node_shutdown_does_not_stop_node_again() {
    let mut node = NodeState { safety_hang: false, shutting_down: true };
    let action = node.handle_supervisor_evt(SupervisionEvent::ActorFailed(
        "child".to_string(),
        "late shutdown failure".to_string(),
    ));
    assert!(matches!(action, NodeAction::Stay));
    assert!(!node.safety_hang);
}

#[test]
fn safety_failure_hangs_node_stops_children_and_sets_metric() {
    let mut node = NodeState::new();
    let action = node.handle(NodeMsg::SafetyFailure("test WAL failure".to_string()));
    assert!(matches!(action, NodeAction::HangAndStopChildren(m) if m == "test WAL failure"));
    assert!(node.safety_hang);
}

#[test]
fn safety_failure_is_idempotent() {
    let mut node = NodeState::new();
    let _ = node.handle(NodeMsg::SafetyFailure("first".to_string()));
    let action = node.handle(NodeMsg::SafetyFailure("second".to_string()));
    assert!(matches!(action, NodeAction::Stay));
    assert_eq!(node, NodeState { safety_hang: true, shutting_down: false });
}

#[test]
fn child_terminating_during_safety_hang_does_not_stop_node() {
    let mut node = NodeState::new();
    let _ = node.handle(NodeMsg::SafetyFailure("entering hang".to_string()));
    let action = node.handle_supervisor_evt(SupervisionEvent::ActorTerminated(
        "child".to_string(),
        None,
    ));
    assert!(matches!(action, NodeAction::Stay));
}

#[test]
fn hang_on_safety_failure_casts_safety_failure_and_hangs() {
    let outcome = hang_on_safety_failure::<()>(Err("wal_append: disk full".to_string()));
    match outcome {
        Outcome::HangWith(reason) => {
            assert!(reason.contains("wal_append"), "reason was: {reason}");
            assert!(reason.contains("disk full"), "reason was: {reason}");
        }
        _ => panic!("must hang"),
    }
}

#[test]
fn hang_on_safety_failure_returns_success_value_unchanged() {
    let outcome = hang_on_safety_failure::<u32>(Ok(42));
    assert!(matches!(outcome, Outcome::Continue(42)));
}

#[test]
fn stop_on_failure_returns_err_on_failure() {
    let outcome = stop_on_failure::<()>(Err("wal_fetch: transient io".to_string()));
    match outcome {
        Outcome::Fail(err_msg) => {
            assert!(err_msg.contains("wal_fetch"), "error was: {err_msg}");
            assert!(err_msg.contains("transient io"), "error was: {err_msg}");
            assert_eq!(err_msg, "liveness failure: wal_fetch: transient io");
        }
        _ => panic!("must fail"),
    }
}

#[test]
fn stop_on_failure_returns_success_value_unchanged() {
    let outcome = stop_on_failure::<u32>(Ok(7));
    assert!(matches!(outcome, Outcome::Continue(7)));
}

#[test]
fn log_failures_say_what_failed() {
    let message = |r: Result<(), malachitebft::engine::failure::WalFailure>| r.unwrap_err().message();
    assert_eq!(message(append_result(Ok(Err("full".to_string())))), "WAL write error: full");
    assert_eq!(message(flush_result(Ok(Err("full".to_string())))), "WAL flush error: full");
    assert_eq!(
        message(append_result(Err("gone".to_string()))),
        "WAL actor transport error: gone"
    );
    assert!(append_result(Ok(Ok(()))).is_ok());
    assert!(flush_result(Ok(Ok(()))).is_ok());
}

#[test]
fn retry_delay_doubles_up_to_a_cap() {
    let first = local_transient_retry_delay(1);
    assert_eq!(local_transient_retry_delay(0), first);
    assert_eq!(local_transient_retry_delay(2), 2 * first);
    assert_eq!(local_transient_retry_delay(3), 4 * first);
    let cap = local_transient_retry_delay(100);
    assert_eq!(local_transient_retry_delay(u32::MAX), cap);
    assert!(cap >= first);
}

#[test]
fn responses_are_cut_at_the_size_limit() {
    let sizes = vec![Some(40), Some(40), Some(40)];
    let mut values = vec!["a", "b", "c"];
    truncate_values_to_size_limit(&mut values, &sizes, 100);
    assert_eq!(values, vec!["a", "b"]);
}
