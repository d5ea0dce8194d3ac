use malachitebft::bytes::{Bytes, ShortBytes};
use malachitebft::context::Address;
use malachitebft::engine::consensus::{
    after_failure, is_sync_application_msg, should_buffer, span_height, span_round,
    tells_subscribers, Action, Config, Core,
    CoreInput, HandleError, Handled, HeightParams, Msg, OnFailure, Phase, Stage, State, Step,
    WalEntry, MAX_BUFFER_SIZE,
};
use malachitebft::engine::effect::{
    extend_vote, handle_effect, synced_value, validator_proof_verdict, verify_vote_extension,
    wal_append, wal_flush, Effect, ExtensionCheck, SyncedValueOutcome,
};
use malachitebft::engine::event::{NetworkEvent, OutboundFailureReason, PeerId, Status};
use malachitebft::engine::failure::Outcome;
use malachitebft::engine::network::{
    decoder_for, decodes_liveness, persistent_peers_reply, ConsensusPayload, Decoder,
    Event as P2pEvent, Msg as NetworkMsg, NetworkAction, PersistentPeersOp, Running,
    State as NetworkState,
};
use malachitebft::engine::sync::{
    status_update_mode, Msg as SyncMsg, Params, State as SyncState, StatusUpdateMode, SyncAction,
    SyncConfig, SyncEffect, SyncInput, SyncTimeout,
};
use malachitebft::network::channel::Channel;
use malachitebft::network::peers::PersistentPeerError;
use malachitebft::types::{Round, Timeout, TimeoutKind, ValueOrigin};

fn me() -> Address {
    Bytes([1; 20])
}

fn peer(n: u8) -> PeerId {
    ShortBytes::from_slice(&[n; 34]).unwrap()
}

fn config(delay: u64) -> Config {
    Config { address: me(), enabled: true, wal_replay_delay: delay, proposal_only: false }
}

fn params(validators: Vec<Address>) -> HeightParams<u64> {
    HeightParams { validators, params: 7 }
}

fn steps(handled: Result<Handled<u64>, HandleError>) -> Vec<Step<u64>> {
    match handled {
        Ok(Handled::Steps(s)) => s,
        _ => panic!("expected steps"),
    }
}

#[test]
fn messages_are_kept_until_consensus_runs() {
    assert!(should_buffer(&Msg::ProposeValue(1)));
    assert!(should_buffer(&Msg::<u64>::DumpState));
    assert!(!should_buffer(&Msg::StartHeight(1, params(vec![me()]))));
    assert!(!should_buffer(&Msg::<u64>::DecisionCommitted(1)));
    assert!(!should_buffer(&Msg::<u64>::NetworkEvent(NetworkEvent::PeerConnected(peer(1)))));
    assert!(is_sync_application_msg(&Msg::ProcessSyncResponse(1)));
    assert!(is_sync_application_msg(&Msg::ReceivedProposedValue(1, ValueOrigin::Sync)));
    assert!(!is_sync_application_msg(&Msg::ReceivedProposedValue(1, ValueOrigin::Consensus)));

    let mut state: State<u64> = State::new();
    for i in 0..MAX_BUFFER_SIZE + 3 {
        assert!(matches!(
            state.handle(&config(0), Msg::ProposeValue(i as u64)),
            Ok(Handled::Kept)
        ));
    }
    assert_eq!(state.msg_buffer.len(), MAX_BUFFER_SIZE);
    assert!(matches!(state.next_kept(), Some(Msg::ProposeValue(0))));
    assert!(matches!(state.next_kept(), Some(Msg::ProposeValue(1))));
}

#[test]
fn span_shows_the_height_about_to_start() {
    let start = Msg::StartHeight(5, params(vec![me()]));
    assert_eq!(span_height(3, &start), 5);
    assert_eq!(span_round(Round::new(2), &start), Round::new(0));
    assert_eq!(span_height(3, &Msg::<u64>::DumpState), 3);
    assert_eq!(span_round(Round::new(2), &Msg::<u64>::DumpState), Round::new(2));
}

#[test]
fn height_without_validators_is_refused() {
    let mut state: State<u64> = State::new();
    assert!(matches!(
        state.handle(&config(0), Msg::StartHeight(4, params(vec![]))),
        Err(HandleError::EmptyValidatorSet(4))
    ));
}

/// Start a height and bring the actor to where the log was replayed.
#[test]
fn validator_replays_its_log_and_runs() {
    let mut state: State<u64> = State::new();
    let first = steps(state.handle(&config(0), Msg::StartHeight(1, params(vec![me()]))));
    assert!(first.iter().any(|s| matches!(s.action, Action::WalFetch(1))));
    assert!(matches!(state.stage, Stage::AwaitWal { .. }));
    assert!(state.is_validator);

    let second = state.wal_ready(vec![WalEntry::Input(11), WalEntry::Input(12)]);
    assert!(second
        .iter()
        .any(|s| matches!(s.action, Action::Process(CoreInput::StartHeight(1, 7, false)))));
    state.observe(Core { height: 1, round: Round::new(0), decided: false });
    let third = state.core_started(&config(0));
    assert!(third.iter().any(|s| matches!(s.action, Action::EmitWalReplayBegin(1, 2))));
    let replayed: Vec<u64> = third
        .iter()
        .filter_map(|s| match s.action {
            Action::Process(CoreInput::Replayed(p)) => Some(p),
            _ => None,
        })
        .collect();
    assert_eq!(replayed, vec![11, 12]);
    let last = state.replay_finished();
    assert_eq!(state.phase, Phase::Running);
    assert!(last.iter().any(|s| matches!(s.action, Action::HandleKeptMessages)));
}

#[test]
fn corrupt_entry_hangs_the_actor() {
    let mut state: State<u64> = State::new();
    let _ = state.handle(&config(0), Msg::StartHeight(1, params(vec![me()])));
    let _ = state.wal_ready(vec![WalEntry::Corrupt, WalEntry::Input(12)]);
    state.observe(Core { height: 1, round: Round::new(0), decided: false });
    let replay = state.core_started(&config(0));
    assert!(replay.iter().any(|s| matches!(s.action, Action::HangOnCorruptEntry)));
    assert!(!replay.iter().any(|s| matches!(s.action, Action::Process(CoreInput::Replayed(_)))));
}

#[test]
fn others_have_no_log() {
    let mut state: State<u64> = State::new();
    let first = steps(state.handle(&config(0), Msg::StartHeight(1, params(vec![Bytes([9; 20])]))));
    assert!(!state.is_validator);
    assert!(!first.iter().any(|s| matches!(s.action, Action::WalFetch(_))));
}

#[test]
fn wait_for_sync_ends_with_the_commit_of_its_height() {
    let mut state: State<u64> = State::new();
    let _ = state.handle(&config(100), Msg::StartHeight(1, params(vec![me()])));
    let _ = state.wal_ready(vec![WalEntry::Input(11)]);
    state.observe(Core { height: 1, round: Round::new(0), decided: false });
    let waiting = state.core_started(&config(100));
    assert_eq!(state.phase, Phase::WaitingForSync);
    assert!(waiting.iter().any(|s| matches!(s.action, Action::StartWalReplayTimer(1))));

    let _ = state.handle(&config(100), Msg::DecisionCommitted(9));
    assert_eq!(state.phase, Phase::WaitingForSync);
    let ended = steps(state.handle(&config(100), Msg::DecisionCommitted(1)));
    assert!(ended.iter().any(|s| matches!(s.action, Action::CancelWalReplayTimer)));
    assert_ne!(state.phase, Phase::WaitingForSync);
}

#[test]
fn log_is_replayed_when_sync_takes_too_long() {
    let mut state: State<u64> = State::new();
    let _ = state.handle(&config(100), Msg::StartHeight(1, params(vec![me()])));
    let _ = state.wal_ready(vec![WalEntry::Input(11)]);
    state.observe(Core { height: 1, round: Round::new(0), decided: false });
    let _ = state.core_started(&config(100));

    // A timer of another height, or one after a decision, changes nothing.
    assert!(steps(state.handle(&config(100), Msg::WalReplayDelayElapsed(2))).is_empty());
    state.observe(Core { height: 1, round: Round::new(0), decided: true });
    assert!(steps(state.handle(&config(100), Msg::WalReplayDelayElapsed(1))).is_empty());
    assert_eq!(state.phase, Phase::WaitingForSync);

    state.observe(Core { height: 1, round: Round::new(0), decided: false });
    let reset = steps(state.handle(&config(100), Msg::WalReplayDelayElapsed(1)));
    assert!(reset
        .iter()
        .any(|s| matches!(s.action, Action::Process(CoreInput::ResetHeight(1)))));
    assert_eq!(state.phase, Phase::Recovering);
    let replay = state.core_reset();
    assert!(replay.iter().any(|s| {
        matches!(s.action, Action::Process(CoreInput::Replayed(11)))
            && s.on_failure == OnFailure::TellAndHang
    }));
    let _ = state.replay_finished();
    assert_eq!(state.phase, Phase::Running);
}

#[test]
fn elapsed_timeout_is_processed() {
    let mut state: State<u64> = State::new();
    state.phase = Phase::Running;
    let t = Timeout::new(Round::new(0), TimeoutKind::Propose);
    let s = steps(state.handle(&config(0), Msg::TimeoutElapsed(Some(t))));
    assert!(matches!(s[0].action, Action::CancelTimer(x) if x == t));
    assert!(matches!(s[1].action, Action::Process(CoreInput::TimeoutElapsed(x)) if x == t));
    assert_eq!(s[1].on_failure, OnFailure::Stop);
    assert!(steps(state.handle(&config(0), Msg::TimeoutElapsed(None))).is_empty());
}

#[test]
fn log_is_on_disk_before_a_message_is_published() {
    let s = handle_effect(Phase::Running, true, Effect::PublishConsensusMsg(5u64));
    assert!(matches!(s[0].action, Action::WalFlush));
    assert_eq!(s[0].on_failure, OnFailure::Hang);
    assert!(matches!(s[1].action, Action::EmitPublished(5)));
    assert!(matches!(s[2].action, Action::PublishConsensusMsg(5)));

    let s = handle_effect(Phase::Running, false, Effect::PublishConsensusMsg(5u64));
    assert_eq!(s.len(), 2);
    let s = handle_effect(Phase::Recovering, true, Effect::WalAppend(1, 5u64));
    assert!(s.is_empty());
    let s = handle_effect(Phase::Running, true, Effect::WalAppend(1, 5u64));
    assert!(matches!(s[0].action, Action::WalAppend(1, 5)));
    assert!(wal_append(1, 5u64, Phase::Running, true).is_some());
    assert!(wal_flush::<u64>(Phase::Recovering, true).is_none());
}

#[test]
fn equivocations_are_counted() {
    let s = handle_effect(
        Phase::Running,
        true,
        Effect::Finalize(4, 5u64, vec![1, 2], vec![]),
    );
    assert!(matches!(s[0].action, Action::CountEquivocationProposals(3)));
    assert!(matches!(s[1].action, Action::EmitFinalized(5)));
    assert!(matches!(s[2].action, Action::HostFinalized(5)));
}

#[test]
fn vote_extensions_need_a_valid_signature() {
    assert!(extend_vote::<u64>(None).is_none());
    assert!(matches!(
        extend_vote(Some(3u64)).unwrap().action,
        Action::SignVoteExtension(3)
    ));
    assert!(matches!(verify_vote_extension(false, 3u64), ExtensionCheck::InvalidSignature));
    assert!(matches!(
        verify_vote_extension(true, 3u64),
        ExtensionCheck::Ask(s) if matches!(s.action, Action::HostVerifyVoteExtension(3))
    ));
}

#[test]
fn synced_value_has_to_be_the_certified_one() {
    let same = synced_value(SyncedValueOutcome::Verdict(5u64, 8u64), &8, peer(1), 3);
    assert!(matches!(same.action, Action::CastSyncedValue(5)));
    let other = synced_value(SyncedValueOutcome::Verdict(5u64, 9u64), &8, peer(1), 3);
    assert!(matches!(other.action, Action::NotifySyncPeerFault(p, 3) if p == peer(1)));
    let fault = synced_value(SyncedValueOutcome::<u64, u64>::PeerFault, &8, peer(1), 3);
    assert!(matches!(fault.action, Action::NotifySyncPeerFault(_, 3)));
    let local = synced_value(SyncedValueOutcome::<u64, u64>::LocalTransientError, &8, peer(1), 3);
    assert!(matches!(local.action, Action::NotifySyncLocalTransientError(3)));
}

#[test]
fn proof_verdict_carries_the_key_of_a_valid_proof() {
    assert!(matches!(
        validator_proof_verdict(peer(1), Some(true), 5u64).action,
        Action::SendProofVerdict(_, true, Some(5))
    ));
    assert!(matches!(
        validator_proof_verdict(peer(1), Some(false), 5u64).action,
        Action::SendProofVerdict(_, false, None)
    ));
    assert!(matches!(
        validator_proof_verdict(peer(1), None, 5u64).action,
        Action::SendProofVerdict(_, false, None)
    ));
}

fn running() -> NetworkState<u64> {
    NetworkState::Running(Running::new(peer(1)))
}

#[test]
fn channels_are_decoded_by_their_kind() {
    assert_eq!(decoder_for(Channel::Consensus), Decoder::ConsensusMsg);
    assert_eq!(decoder_for(Channel::ProposalParts), Decoder::ProposalPart);
    assert_eq!(decoder_for(Channel::Sync), Decoder::Status);
    assert_eq!(decoder_for(Channel::Liveness), Decoder::Unexpected);
    assert!(decodes_liveness(Channel::Liveness));
    assert!(!decodes_liveness(Channel::Consensus));
}

#[test]
fn stopped_network_answers_requests() {
    let mut state: NetworkState<u64> = NetworkState::Stopped;
    assert!(matches!(
        state.handle(NetworkMsg::DumpState)[..],
        [NetworkAction::ReplyDump(false)]
    ));
    assert!(matches!(
        state.handle(NetworkMsg::UpdatePersistentPeers(PersistentPeersOp::Add(1)))[..],
        [NetworkAction::ReplyPersistentPeersError(PersistentPeerError::NetworkStopped)]
    ));
    assert!(state.handle(NetworkMsg::PublishConsensusMsg(Some(1))).is_empty());
}

#[test]
fn subscriber_learns_what_is_known() {
    let mut state = running();
    let _ = state.handle(NetworkMsg::NewEvent(P2pEvent::Listening(4)));
    let _ = state.handle(NetworkMsg::NewEvent(P2pEvent::PeerConnected(peer(2))));
    let _ = state.handle(NetworkMsg::NewEvent(P2pEvent::PeerSubscribed(peer(2), Channel::Sync)));
    let welcome = state.handle(NetworkMsg::Subscribe);
    assert!(matches!(
        &welcome[..],
        [
            NetworkAction::SendToSubscriber(NetworkEvent::Listening(4)),
            NetworkAction::SendToSubscriber(NetworkEvent::PeerConnected(_)),
            NetworkAction::SendToSubscriber(NetworkEvent::PeerSubscribed(_, Channel::Sync)),
            NetworkAction::AttachSubscriber,
        ]
    ));
    let _ = state.handle(NetworkMsg::NewEvent(P2pEvent::PeerDisconnected(peer(2))));
    assert_eq!(state.handle(NetworkMsg::Subscribe).len(), 2);
}

#[test]
fn sync_request_is_answered_once() {
    let mut state = running();
    let id = peer(9);
    let _ = state.handle(NetworkMsg::NewEvent(P2pEvent::SyncRequest(id, 77, peer(2), Some(1))));
    assert!(matches!(
        state.handle(NetworkMsg::OutgoingResponse(id, Some(5)))[..],
        [NetworkAction::SyncReply(77, 5)]
    ));
    assert!(state.handle(NetworkMsg::OutgoingResponse(id, Some(5))).is_empty());
}

#[test]
fn status_of_another_peer_is_ignored() {
    let mut state = running();
    let status = Status::new(4, 1);
    let own = P2pEvent::ConsensusMessage(peer(2), ConsensusPayload::Status(peer(2), status));
    assert_eq!(state.handle(NetworkMsg::NewEvent(own)).len(), 1);
    let other = P2pEvent::ConsensusMessage(peer(2), ConsensusPayload::Status(peer(3), status));
    assert!(state.handle(NetworkMsg::NewEvent(other)).is_empty());
}

#[test]
fn proof_that_names_another_peer_is_refused() {
    let mut state = running();
    let named = P2pEvent::ValidatorProofReceived(peer(2), Some((vec![2; 34], 5)));
    assert!(matches!(
        state.handle(NetworkMsg::NewEvent(named))[..],
        [NetworkAction::Output(NetworkEvent::ValidatorProofReceived { proof: 5, .. })]
    ));
    let other = P2pEvent::ValidatorProofReceived(peer(2), Some((vec![3; 34], 5)));
    assert!(matches!(
        state.handle(NetworkMsg::NewEvent(other))[..],
        [NetworkAction::ValidatorProofVerified(_, false, None)]
    ));
}

#[test]
fn persistent_peers_reply_tells_what_failed() {
    assert!(persistent_peers_reply(Ok(Ok(()))).is_ok());
    let e = persistent_peers_reply(Err("closed".to_string())).err().unwrap();
    assert_eq!(e.message(), "Internal error: closed");
    let e = persistent_peers_reply(Ok(Err(PersistentPeerError::NotFound))).err().unwrap();
    assert_eq!(e.message(), "Persistent peer not found");
    assert_eq!(PersistentPeerError::AlreadyExists.message(), "Persistent peer already exists");
    assert_eq!(PersistentPeerError::NetworkStopped.message(), "Network not started");
}

fn sync_state() -> SyncState<u64> {
    SyncState::new(&Params::default())
}

fn sync_config() -> SyncConfig {
    SyncConfig { parallel_requests: 2, batch_size: 3, max_response_size: 100 }
}

#[test]
fn status_updates_are_eager_without_an_interval() {
    assert_eq!(status_update_mode(0), StatusUpdateMode::Eager);
    assert_eq!(status_update_mode(1), StatusUpdateMode::Interval);
    let params = Params { status_update_interval: 0, request_timeout: 1 };
    let mut eager: SyncState<u64> = SyncState::new(&params);
    assert!(eager
        .decided(4)
        .iter()
        .any(|a| matches!(a, SyncAction::Process(SyncInput::SendStatusUpdate))));
    assert!(!sync_state()
        .decided(4)
        .iter()
        .any(|a| matches!(a, SyncAction::Process(SyncInput::SendStatusUpdate))));
}

#[test]
fn request_is_settled_by_its_response() {
    let mut state = sync_state();
    let params = Params::default();
    let id = peer(9);
    let sent = state.request_sent(&params, Some(id), peer(2), 5);
    assert!(matches!(sent[..], [SyncAction::StartTimer(SyncTimeout::Request(x), 10_000)] if x == id));
    assert_eq!(state.inflight.len(), 1);
    let event = NetworkEvent::SyncResponse(id, peer(2), Some(6));
    let actions = state.handle_msg(&params, &sync_config(), SyncMsg::NetworkEvent(event));
    assert!(state.inflight.is_empty());
    assert!(actions.iter().any(|a| matches!(
        a,
        SyncAction::Process(SyncInput::ValueResponse(x, p, Some(6))) if *x == id && *p == peer(2)
    )));
}

#[test]
fn failed_request_is_reported_to_the_core() {
    let mut state = sync_state();
    let params = Params::default();
    let id = peer(9);
    let _ = state.request_sent(&params, Some(id), peer(2), 5);
    let event = NetworkEvent::SyncRequestFailed(id, peer(2), OutboundFailureReason::Timeout);
    let actions = state.handle_msg(&params, &sync_config(), SyncMsg::NetworkEvent(event));
    assert!(state.inflight.is_empty());
    assert!(actions.iter().any(|a| matches!(
        a,
        SyncAction::Process(SyncInput::SyncRequestFailed(x, _, 5, OutboundFailureReason::Timeout)) if *x == id
    )));
}

#[test]
fn disconnected_peer_leaves_no_requests() {
    let mut state = sync_state();
    let params = Params::default();
    let _ = state.request_sent(&params, Some(peer(8)), peer(2), 5);
    let _ = state.request_sent(&params, Some(peer(9)), peer(3), 5);
    let event = NetworkEvent::PeerDisconnected(peer(2));
    let actions = state.handle_msg(&params, &sync_config(), SyncMsg::NetworkEvent(event));
    assert_eq!(state.inflight.len(), 1);
    assert!(actions.iter().any(|a| matches!(
        a,
        SyncAction::CancelTimer(SyncTimeout::Request(x)) if *x == peer(8)
    )));
}

#[test]
fn values_of_a_response_go_where_they_belong() {
    let mut state = sync_state();
    let id = peer(9);
    let effect = SyncEffect::ProcessValueResponse(peer(2), id, vec![(3, 30), (4, 40), (5, 50)]);
    let actions = state.handle_effect(4, effect);
    assert!(matches!(
        actions[..],
        [
            SyncAction::ForwardToConsensus(40),
            SyncAction::QueuePush(5, _, 50),
            SyncAction::UpdateQueueMetrics,
        ]
    ));
}

/// Peers are in byte order: one that holds its key comes before one that holds a
/// hash, though it is longer.
#[test]
fn subscriber_learns_of_peers_in_byte_order() {
    let mut holds_key = vec![0x00, 0x24];
    holds_key.extend_from_slice(&[9; 36]);
    let mut holds_hash = vec![0x12, 0x20];
    holds_hash.extend_from_slice(&[1; 32]);
    let long = ShortBytes::from_slice(&holds_key).unwrap();
    let short = ShortBytes::from_slice(&holds_hash).unwrap();
    let mut state = running();
    for p in [short, long] {
        let _ = state.handle(NetworkMsg::NewEvent(P2pEvent::PeerConnected(p)));
    }
    let told: Vec<PeerId> = state
        .handle(NetworkMsg::Subscribe)
        .iter()
        .filter_map(|a| match a {
            NetworkAction::SendToSubscriber(NetworkEvent::PeerConnected(p)) => Some(*p),
            _ => None,
        })
        .collect();
    assert_eq!(told, vec![long, short]);
}

#[test]
fn failed_step_has_its_outcome() {
    let after = |on_failure| after_failure(on_failure, "disk full".to_string());
    assert!(after(OnFailure::Ignore).is_none());
    assert!(matches!(after(OnFailure::Fail), Some(Outcome::Fail(m)) if m == "disk full"));
    for on_failure in [OnFailure::Stop, OnFailure::TellAndStop] {
        assert!(matches!(
            after(on_failure),
            Some(Outcome::Fail(m)) if m == "liveness failure: disk full"
        ));
    }
    for on_failure in [OnFailure::Hang, OnFailure::TellAndHang] {
        assert!(matches!(after(on_failure), Some(Outcome::HangWith(m)) if m == "disk full"));
    }
    assert!(tells_subscribers(OnFailure::TellAndStop, true));
    assert!(!tells_subscribers(OnFailure::TellAndStop, false));
    assert!(tells_subscribers(OnFailure::TellAndHang, false));
    assert!(!tells_subscribers(OnFailure::Hang, true));
}
