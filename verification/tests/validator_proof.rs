use malachitebft::bytes::ShortBytes;
use malachitebft::engine::event::PeerId;
use malachitebft::network::service::{after_emit, Effect, Event as NetworkEvent, Flow};
use malachitebft::network::swarm::handle_validator_proof_event;
use malachitebft::network::validator_proof::behaviour::{
    Behaviour, ConnectionEvent, Error, Event, InnerEvent, Output, ProofVerificationResult,
    RequestOutcome,
};
use malachitebft::network::validator_proof::codec::{
    Codec, ProofRequest, ReadStep, StreamState, MAX_MESSAGE_SIZE,
};

fn peer(n: u8) -> PeerId {
    ShortBytes::from_slice(&[n; 34]).unwrap()
}

fn sent(bytes: &[u8]) -> ProofRequest {
    ProofRequest::Proof(bytes.to_vec())
}

#[test]
fn first_proof_delivers_then_duplicate_rejected() {
    let mut b = Behaviour::default();
    let peer = peer(1);

    assert!(matches!(
        b.classify_request(peer, sent(b"proof")),
        RequestOutcome::Deliver(_)
    ));
    assert!(b.proofs_received.contains_key(&peer));
    assert!(matches!(
        b.classify_request(peer, sent(b"proof")),
        RequestOutcome::Reject("duplicate validator proof")
    ));
}

#[test]
fn malformed_request_is_rejected() {
    let mut b = Behaviour::default();
    let peer = peer(1);

    assert!(matches!(
        b.classify_request(peer, ProofRequest::Malformed),
        RequestOutcome::Reject("malformed validator proof")
    ));
    // A rejected malformed request does not record the peer.
    assert!(!b.proofs_received.contains_key(&peer));
}

#[test]
fn different_peers_are_delivered_independently() {
    let mut b = Behaviour::default();

    assert!(matches!(
        b.classify_request(peer(1), sent(b"a")),
        RequestOutcome::Deliver(_)
    ));
    assert!(matches!(
        b.classify_request(peer(2), sent(b"b")),
        RequestOutcome::Deliver(_)
    ));
}

#[test]
fn last_connection_close_clears_proof_state() {
    let mut b = Behaviour::default();
    let peer = peer(1);

    let _ = b.classify_request(peer, sent(b"proof"));
    assert!(b.proofs_received.contains_key(&peer));

    b.on_last_connection_closed(peer);
    assert!(!b.proofs_received.contains_key(&peer));
}

#[test]
fn admission_resets_after_close() {
    let mut b = Behaviour::default();
    let peer = peer(1);

    assert!(matches!(
        b.classify_request(peer, sent(b"proof")),
        RequestOutcome::Deliver(_)
    ));
    assert!(matches!(
        b.classify_request(peer, sent(b"proof")),
        RequestOutcome::Reject(_)
    ));

    b.on_last_connection_closed(peer);

    // A fresh session accepts the proof again.
    assert!(matches!(
        b.classify_request(peer, sent(b"proof")),
        RequestOutcome::Deliver(_)
    ));
}

#[test]
fn set_proof_toggles_has_proof() {
    let mut b = Behaviour::default();
    assert!(!b.has_proof());
    b.set_proof(b"proof".to_vec());
    assert!(b.has_proof());
}

#[test]
fn request_round_trips_through_uvi_framing() {
    let proof_bytes = b"validator-proof-bytes".to_vec();

    let buf = Codec.write_request(&ProofRequest::Proof(proof_bytes.clone())).unwrap();

    // Wire is a varint length prefix followed by the raw proof bytes.
    assert_eq!(buf[0] as usize, proof_bytes.len());
    assert_eq!(&buf[1..], &proof_bytes[..]);

    let decoded = Codec.read_request(&buf, StreamState::Open);
    assert!(matches!(decoded, ReadStep::Done(ProofRequest::Proof(b)) if b == proof_bytes));
}

#[test]
fn oversized_request_is_malformed() {
    let oversized_proof = ProofRequest::Proof(vec![0u8; MAX_MESSAGE_SIZE + 1]);
    assert!(Codec.write_request(&oversized_proof).is_none());

    // The length is 1025 as a varint.
    let mut oversized = vec![0x81, 0x08];
    oversized.extend_from_slice(&vec![0u8; MAX_MESSAGE_SIZE + 1]);
    let decoded = Codec.read_request(&oversized, StreamState::Open);
    assert!(matches!(decoded, ReadStep::Done(ProofRequest::Malformed)));
}

#[test]
fn longest_request_is_read() {
    let longest = vec![5u8; MAX_MESSAGE_SIZE];
    let buf = Codec.write_request(&ProofRequest::Proof(longest.clone())).unwrap();
    assert_eq!(&buf[..2], &[0x80, 0x08]);
    let decoded = Codec.read_request(&buf, StreamState::Over);
    assert!(matches!(decoded, ReadStep::Done(ProofRequest::Proof(b)) if b == longest));
}

#[test]
fn empty_stream_is_malformed() {
    let decoded = Codec.read_request(&[], StreamState::Over);
    assert!(matches!(decoded, ReadStep::Done(ProofRequest::Malformed)));
}

#[test]
fn stalled_read_times_out_as_malformed() {
    // While more may come, there is nothing yet; once time is up, the request is malformed.
    assert!(matches!(Codec.read_request(&[], StreamState::Open), ReadStep::More));
    let decoded = Codec.read_request(&[], StreamState::Over);
    assert!(matches!(decoded, ReadStep::Done(ProofRequest::Malformed)));
}

#[test]
fn truncated_request_is_malformed_at_the_end() {
    let buf = Codec.write_request(&sent(b"proof")).unwrap();
    let part = &buf[..buf.len() - 1];
    assert!(matches!(Codec.read_request(part, StreamState::Open), ReadStep::More));
    assert!(matches!(
        Codec.read_request(part, StreamState::Over),
        ReadStep::Done(ProofRequest::Malformed)
    ));
}

#[test]
fn response_writes_no_bytes() {
    assert!(Codec.write_response().is_empty());
}

#[test]
fn response_read_returns_without_consuming() {
    assert_eq!(Codec.read_response(&[]), 0);
    assert_eq!(Codec.read_response(&[1, 2, 3]), 0);
}

#[test]
fn proof_is_sent_on_the_first_connection_only() {
    let mut b = Behaviour::default();
    assert!(b.on_swarm_event(peer(1), ConnectionEvent::Established { others: 0 }).is_none());
    b.set_proof(b"mine".to_vec());
    let first = b.on_swarm_event(peer(1), ConnectionEvent::Established { others: 0 });
    assert!(matches!(first, Some(ProofRequest::Proof(p)) if p == b"mine"));
    assert!(b.on_swarm_event(peer(1), ConnectionEvent::Established { others: 1 }).is_none());
}

#[test]
fn session_ends_with_the_last_connection() {
    let mut b = Behaviour::default();
    let _ = b.classify_request(peer(1), sent(b"p"));
    let _ = b.on_swarm_event(peer(1), ConnectionEvent::Closed { remaining: 1 });
    assert!(b.proofs_received.contains_key(&peer(1)));
    let _ = b.on_swarm_event(peer(1), ConnectionEvent::Closed { remaining: 0 });
    assert!(!b.proofs_received.contains_key(&peer(1)));
}

#[test]
fn inner_events_are_reported() {
    let mut b = Behaviour::default();
    assert!(matches!(
        b.on_inner_event(InnerEvent::Request(peer(1), sent(b"p"))),
        Some(Output::Emit(Event::ProofReceived { peer: p, proof_bytes })) if p == peer(1) && proof_bytes == b"p"
    ));
    assert!(matches!(
        b.on_inner_event(InnerEvent::Request(peer(1), sent(b"p"))),
        Some(Output::CloseConnections(p)) if p == peer(1)
    ));
    assert!(matches!(
        b.on_inner_event(InnerEvent::Response(peer(2))),
        Some(Output::Emit(Event::ProofSent { peer: p })) if p == peer(2)
    ));
    match b.on_inner_event(InnerEvent::OutboundFailure(peer(2), "timeout".to_string())) {
        Some(Output::Emit(Event::ProofSendFailed { peer: p, error })) => {
            assert_eq!(p, peer(2));
            assert_eq!(error.message(), "IO error: timeout");
            assert!(matches!(error, Error::Io(_)));
        }
        _ => panic!("must report the failure"),
    }
    assert!(b.on_inner_event(InnerEvent::Other).is_none());
    assert!(ProofVerificationResult::Valid.is_valid());
    assert!(!ProofVerificationResult::Invalid.is_valid());
    assert_eq!(Behaviour::default_protocol(), "/malachitebft-validator-proof/v1");
}

#[test]
fn handle_validator_proof_event_breaks_when_event_receiver_dropped() {
    let event = Event::ProofReceived { peer: peer(1), proof_bytes: vec![] };
    let effects: Vec<Effect<()>> = handle_validator_proof_event(event);
    assert!(matches!(&effects[..], [Effect::Emit(_)]));
    assert_eq!(after_emit(false), Flow::Break);
}

#[test]
fn handle_validator_proof_event_forwards_proof_and_continues() {
    let event = Event::ProofReceived { peer: peer(1), proof_bytes: b"proof".to_vec() };
    let mut effects: Vec<Effect<()>> = handle_validator_proof_event(event);
    assert_eq!(after_emit(true), Flow::Continue);
    assert_eq!(effects.len(), 1);
    match effects.remove(0) {
        Effect::Emit(NetworkEvent::ValidatorProofReceived { peer_id, proof_bytes }) => {
            assert_eq!(peer_id, peer(1));
            assert_eq!(proof_bytes, b"proof");
        }
        _ => panic!("unexpected effect"),
    }
    let none: Vec<Effect<()>> = handle_validator_proof_event(Event::ProofSent { peer: peer(1) });
    assert!(none.is_empty());
}
