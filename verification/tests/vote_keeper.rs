use malachitebft::bytes::{Bytes, ShortBytes};
use malachitebft::context::{Address, BasicContext, ValueId};
use malachitebft::ident::Ident;
use malachitebft::types::{NilOrVal, Round, SignedVote, ThresholdParams, Validator, ValidatorSet, VoteType};
use malachitebft::votekeeper::evidence::MAX_EVIDENCE_PER_VALIDATOR;
use malachitebft::votekeeper::keeper::{Output, VoteKeeper};
use malachitebft::votekeeper::tally::Threshold;

fn setup<const N: usize>(vp: [u64; N]) -> ([Address; N], VoteKeeper<BasicContext>) {
    let mut addrs = [Bytes([0; 20]); N];
    let mut vals = Vec::with_capacity(N);
    for i in 0..N {
        addrs[i] = Bytes([i as u8 + 1; 20]);
        vals.push(Validator { address: addrs[i], voting_power: vp[i] });
    }
    let set = ValidatorSet::new(vals).expect("distinct validators");
    (addrs, VoteKeeper::new(set, ThresholdParams::default()))
}

fn new_signed_vote(
    vote_type: VoteType,
    height: u64,
    round: Round,
    value: NilOrVal<ValueId>,
    addr: Address,
    extension: Option<ShortBytes>,
) -> SignedVote<BasicContext> {
    SignedVote {
        vote_type,
        height,
        round,
        value,
        validator_address: addr,
        extension,
        signature: Bytes([0; 64]),
    }
}

fn new_signed_prevote(
    height: u64,
    round: Round,
    value: NilOrVal<ValueId>,
    addr: Address,
) -> SignedVote<BasicContext> {
    new_signed_vote(VoteType::Prevote, height, round, value, addr, None)
}

fn new_signed_precommit(
    height: u64,
    round: Round,
    value: NilOrVal<ValueId>,
    addr: Address,
) -> SignedVote<BasicContext> {
    new_signed_vote(VoteType::Precommit, height, round, value, addr, None)
}

fn new_signed_precommit_with_extension(
    height: u64,
    round: Round,
    value: NilOrVal<ValueId>,
    addr: Address,
    extension: ShortBytes,
) -> SignedVote<BasicContext> {
    new_signed_vote(VoteType::Precommit, height, round, value, addr, Some(extension))
}

fn test_extension(data: &'static [u8]) -> ShortBytes {
    ShortBytes::from_slice(data).unwrap()
}

fn assert_one_pair(
    keeper: &VoteKeeper<BasicContext>,
    addr: &Address,
    first: &SignedVote<BasicContext>,
    second: &SignedVote<BasicContext>,
) {
    let pairs = keeper.evidence().get(addr).expect("evidence");
    assert_eq!(pairs.len(), 1);
    assert!(pairs[0].0.same(first));
    assert!(pairs[0].1.same(second));
}

#[test]
fn prevote_apply_nil() {
    let ([addr1, addr2, addr3], mut keeper) = setup([1, 1, 1]);

    let height = 1u64;
    let round = Round::new(0);

    let vote = new_signed_prevote(height, round, NilOrVal::Nil, addr1);
    let msg = keeper.apply_vote(vote.dup(), round);
    assert_eq!(msg, None);

    let vote = new_signed_prevote(height, round, NilOrVal::Nil, addr2);
    let msg = keeper.apply_vote(vote.dup(), round);
    assert_eq!(msg, None);

    let vote = new_signed_prevote(height, round, NilOrVal::Nil, addr3);
    let msg = keeper.apply_vote(vote, round);
    assert_eq!(msg, Some(Output::PolkaNil));
}

#[test]
fn precommit_apply_nil() {
    let ([addr1, addr2, addr3], mut keeper) = setup([1, 1, 1]);

    let height = 1u64;
    let round = Round::new(0);

    let vote = new_signed_precommit(height, round, NilOrVal::Nil, addr1);
    let msg = keeper.apply_vote(vote.dup(), round);
    assert_eq!(msg, None);

    let vote = new_signed_precommit(height, Round::new(0), NilOrVal::Nil, addr2);
    let msg = keeper.apply_vote(vote.dup(), round);
    assert_eq!(msg, None);

    let vote = new_signed_precommit(height, Round::new(0), NilOrVal::Nil, addr3);
    let msg = keeper.apply_vote(vote, round);
    assert_eq!(msg, Some(Output::PrecommitAny));
}

#[test]
fn prevote_apply_single_value() {
    let ([addr1, addr2, addr3, addr4], mut keeper) = setup([1, 1, 1, 1]);

    let id: u64 = 1;
    let val = NilOrVal::Val(id);
    let height = 1u64;
    let round = Round::new(0);

    let vote = new_signed_prevote(height, Round::new(0), val.dup(), addr1);
    let msg = keeper.apply_vote(vote.dup(), round);
    assert_eq!(msg, None);

    let vote = new_signed_prevote(height, Round::new(0), val.dup(), addr2);
    let msg = keeper.apply_vote(vote.dup(), round);
    assert_eq!(msg, None);

    let vote_nil = new_signed_prevote(height, Round::new(0), NilOrVal::Nil, addr3);
    let msg = keeper.apply_vote(vote_nil, round);
    assert_eq!(msg, Some(Output::PolkaAny));

    let vote = new_signed_prevote(height, Round::new(0), val.dup(), addr4);
    let msg = keeper.apply_vote(vote, round);
    assert_eq!(msg, Some(Output::PolkaValue(id)));
}

#[test]
fn precommit_apply_single_value() {
    let ([addr1, addr2, addr3, addr4], mut keeper) = setup([1, 1, 1, 1]);

    let id: u64 = 1;
    let val = NilOrVal::Val(id);
    let height = 1u64;
    let round = Round::new(0);

    let vote = new_signed_precommit(height, Round::new(0), val.dup(), addr1);
    let msg = keeper.apply_vote(vote.dup(), round);
    assert_eq!(msg, None);

    // Duplicated
    let vote = new_signed_precommit(height, Round::new(0), val.dup(), addr1);
    let msg = keeper.apply_vote(vote.dup(), round);
    assert_eq!(msg, None);

    let vote = new_signed_precommit(height, Round::new(0), val.dup(), addr2);
    let msg = keeper.apply_vote(vote.dup(), round);
    assert_eq!(msg, None);

    // Duplicated
    let vote = new_signed_precommit(height, Round::new(0), val.dup(), addr2);
    let msg = keeper.apply_vote(vote.dup(), round);
    assert_eq!(msg, None);

    let vote_nil = new_signed_precommit(height, Round::new(0), NilOrVal::Nil, addr3);
    let msg = keeper.apply_vote(vote_nil, round);
    assert_eq!(msg, Some(Output::PrecommitAny));

    let vote = new_signed_precommit(height, Round::new(0), val.dup(), addr4);
    let msg = keeper.apply_vote(vote, round);
    assert_eq!(msg, Some(Output::PrecommitValue(id)));

    let per_round = keeper.per_round(round);

    match per_round {
        Some(per_round) => {
            // Build a commit certificate for (round, val)
            let cert = per_round.precommits_for_value(&id);
            assert_eq!(cert.len(), 3);
        }
        None => panic!("Per round not found"),
    }
}

#[test]
fn skip_round_small_quorum_prevotes_two_vals() {
    let ([addr1, addr2, addr3, _], mut keeper) = setup([1, 1, 1, 1]);

    let id: u64 = 1;
    let val = NilOrVal::Val(id);
    let height = 1u64;
    let cur_round = Round::new(0);
    let fut_round = Round::new(1);

    let vote = new_signed_prevote(height, cur_round, val.dup(), addr1);
    let msg = keeper.apply_vote(vote.dup(), cur_round);
    assert_eq!(msg, None);

    let vote = new_signed_prevote(height, fut_round, val.dup(), addr2);
    let msg = keeper.apply_vote(vote.dup(), cur_round);
    assert_eq!(msg, None);

    let vote = new_signed_prevote(height, fut_round, val.dup(), addr3);
    let msg = keeper.apply_vote(vote, cur_round);
    assert_eq!(msg, Some(Output::SkipRound(Round::new(1))));
}

#[test]
fn skip_round_small_quorum_with_prevote_precommit_two_vals() {
    let ([addr1, addr2, addr3, _], mut keeper) = setup([1, 1, 1, 1]);

    let id: u64 = 1;
    let val = NilOrVal::Val(id);
    let height = 1u64;
    let cur_round = Round::new(0);
    let fut_round = Round::new(1);

    let vote = new_signed_prevote(height, cur_round, val.dup(), addr1);
    let msg = keeper.apply_vote(vote.dup(), cur_round);
    assert_eq!(msg, None);

    let vote = new_signed_prevote(height, fut_round, val.dup(), addr2);
    let msg = keeper.apply_vote(vote.dup(), cur_round);
    assert_eq!(msg, None);

    let vote = new_signed_precommit(height, fut_round, val.dup(), addr3);
    let msg = keeper.apply_vote(vote, cur_round);
    assert_eq!(msg, Some(Output::SkipRound(Round::new(1))));
}

#[test]
fn skip_round_full_quorum_with_prevote_precommit_two_vals() {
    let ([addr1, addr2, addr3], mut keeper) = setup::<3>([1, 1, 2]);

    let id: u64 = 1;
    let val = NilOrVal::Val(id);
    let height = 1u64;
    let cur_round = Round::new(0);
    let fut_round = Round::new(1);

    let vote = new_signed_prevote(height, cur_round, val.dup(), addr1);
    let msg = keeper.apply_vote(vote.dup(), cur_round);
    assert_eq!(msg, None);

    let vote = new_signed_prevote(height, fut_round, val.dup(), addr2);
    let msg = keeper.apply_vote(vote.dup(), cur_round);
    assert_eq!(msg, None);

    let vote = new_signed_precommit(height, fut_round, val.dup(), addr3);
    let msg = keeper.apply_vote(vote, cur_round);
    assert_eq!(msg, Some(Output::SkipRound(Round::new(1))));
}

#[test]
fn no_skip_round_small_quorum_with_same_val() {
    let ([addr1, addr2, ..], mut keeper) = setup([1, 1, 1, 1]);

    let id: u64 = 1;
    let val = NilOrVal::Val(id);
    let height = 1u64;
    let cur_round = Round::new(0);
    let fut_round = Round::new(1);

    let vote = new_signed_prevote(height, cur_round, val.dup(), addr1);
    let msg = keeper.apply_vote(vote.dup(), cur_round);
    assert_eq!(msg, None);

    let vote = new_signed_prevote(height, fut_round, val.dup(), addr2);
    let msg = keeper.apply_vote(vote.dup(), cur_round);
    assert_eq!(msg, None);

    let vote = new_signed_precommit(height, fut_round, val.dup(), addr2);
    let msg = keeper.apply_vote(vote, cur_round);
    assert_eq!(msg, None);
}

#[test]
fn no_skip_round_full_quorum_with_same_val() {
    let ([addr1, addr2, ..], mut keeper) = setup([1, 1, 1, 1]);

    let id: u64 = 1;
    let val = NilOrVal::Val(id);
    let height = 1u64;
    let cur_round = Round::new(0);
    let fut_round = Round::new(1);

    let vote = new_signed_prevote(height, cur_round, val.dup(), addr1);
    let msg = keeper.apply_vote(vote.dup(), cur_round);
    assert_eq!(msg, None);

    let vote = new_signed_prevote(height, fut_round, val.dup(), addr2);
    let msg = keeper.apply_vote(vote.dup(), cur_round);
    assert_eq!(msg, None);

    let vote = new_signed_precommit(height, fut_round, val.dup(), addr2);
    let msg = keeper.apply_vote(vote, cur_round);
    assert_eq!(msg, None);
}

#[test]
fn skip_round_and_precommit_value_future_round() {
    let ([addr1, addr2, ..], mut keeper) = setup([2, 3, 2]);

    let id: u64 = 1;
    let val = NilOrVal::Val(id);
    let height = 1u64;
    let cur_round = Round::new(0);
    let fut_round = Round::new(1);

    let vote = new_signed_precommit(height, fut_round, val.dup(), addr1);
    let msg = keeper.apply_vote(vote, cur_round);
    assert_eq!(msg, None);

    let vote = new_signed_precommit(height, fut_round, val.dup(), addr2);
    let msg = keeper.apply_vote(vote, cur_round);
    assert_eq!(msg, Some(Output::PrecommitValue(id)));
}

#[test]
fn same_votes() {
    let ([addr1, ..], mut keeper) = setup([1, 1]);

    let height = 1u64;
    let round = Round::new(0);

    let id: u64 = 1;
    let val = NilOrVal::Val(id);

    let vote1 = new_signed_prevote(height, round, val.dup(), addr1);
    let msg = keeper.apply_vote(vote1.dup(), round);
    assert_eq!(msg, None);

    let vote2 = new_signed_prevote(height, round, val.dup(), addr1);
    let msg = keeper.apply_vote(vote2.dup(), round);
    assert_eq!(msg, None);

    assert!(keeper.evidence().is_empty());
    assert!(keeper.evidence().get(&addr1).is_none());
}

#[test]
fn equivocation() {
    let ([addr1, addr2, ..], mut keeper) = setup([1, 1, 1]);

    let height = 1u64;
    let round = Round::new(0);

    let id1: u64 = 1;
    let val1 = NilOrVal::Val(id1);

    let vote11 = new_signed_prevote(height, round, val1.dup(), addr1);
    let msg = keeper.apply_vote(vote11.dup(), round);
    assert_eq!(msg, None);

    let vote12 = new_signed_prevote(height, round, NilOrVal::Nil, addr1);
    let msg = keeper.apply_vote(vote12.dup(), round);
    assert_eq!(msg, None);

    assert!(!keeper.evidence().is_empty());
    assert_one_pair(&keeper, &addr1, &vote11, &vote12);

    let vote21 = new_signed_prevote(height, round, val1.dup(), addr2);
    let msg = keeper.apply_vote(vote21.dup(), round);
    assert_eq!(msg, None);

    let id2: u64 = 2;
    let val2 = NilOrVal::Val(id2);

    let vote22 = new_signed_prevote(height, round, val2.dup(), addr2);
    let msg = keeper.apply_vote(vote22.dup(), round);
    assert_eq!(msg, None);

    assert_one_pair(&keeper, &addr2, &vote21, &vote22);
}

#[test]
fn precommit_with_extension_replaces_stored_precommit_without_extension() {
    let ([addr1, _], mut keeper) = setup([1, 1]);

    let height = 1u64;
    let round = Round::new(0);
    let id: u64 = 1;
    let val = NilOrVal::Val(id);

    let bare = new_signed_precommit(height, round, val.dup(), addr1);
    assert_eq!(keeper.apply_vote(bare, round), None);

    let extension = test_extension(b"app-data");
    let extended =
        new_signed_precommit_with_extension(height, round, val.dup(), addr1, extension.dup());
    assert_eq!(keeper.apply_vote(extended, round), None);

    let per_round = keeper.per_round(round).expect("per-round entry exists");
    let stored = per_round
        .get_vote(VoteType::Precommit, &addr1)
        .expect("precommit stored for validator");
    assert_eq!(stored.extension, Some(extension));
}

#[test]
fn has_vote_true_for_same_value_bare_duplicate() {
    let ([addr1, _], mut keeper) = setup([1, 1]);

    let height = 1u64;
    let round = Round::new(0);
    let id: u64 = 1;
    let val = NilOrVal::Val(id);

    let vote = new_signed_precommit(height, round, val.dup(), addr1);
    keeper.apply_vote(vote.dup(), round);

    assert!(keeper.has_vote(&vote));
}

#[test]
fn has_vote_false_for_extension_upgrade() {
    let ([addr1, _], mut keeper) = setup([1, 1]);

    let height = 1u64;
    let round = Round::new(0);
    let id: u64 = 1;
    let val = NilOrVal::Val(id);

    let bare = new_signed_precommit(height, round, val.dup(), addr1);
    keeper.apply_vote(bare, round);

    let extended =
        new_signed_precommit_with_extension(height, round, val.dup(), addr1, test_extension(b"app-data"));
    assert!(!keeper.has_vote(&extended));
}

#[test]
fn has_vote_true_for_bare_duplicate_after_extension_upgrade() {
    let ([addr1, _], mut keeper) = setup([1, 1]);

    let height = 1u64;
    let round = Round::new(0);
    let id: u64 = 1;
    let val = NilOrVal::Val(id);

    let bare = new_signed_precommit(height, round, val.dup(), addr1);
    keeper.apply_vote(bare.dup(), round);

    let extended =
        new_signed_precommit_with_extension(height, round, val.dup(), addr1, test_extension(b"app-data"));
    keeper.apply_vote(extended, round);

    assert!(keeper.has_vote(&bare));
}

#[test]
fn has_vote_false_for_equivocating_value() {
    let ([addr1, _], mut keeper) = setup([1, 1]);

    let height = 1u64;
    let round = Round::new(0);

    let first = new_signed_precommit(height, round, NilOrVal::Val(1), addr1);
    keeper.apply_vote(first, round);

    let conflicting = new_signed_precommit(height, round, NilOrVal::Val(2), addr1);
    assert!(!keeper.has_vote(&conflicting));
}

#[test]
fn has_vote_true_for_signature_variant_duplicate() {
    let ([addr1, _], mut keeper) = setup([1, 1]);

    let height = 1u64;
    let round = Round::new(0);
    let val = NilOrVal::Val(1);

    let vote = new_signed_prevote(height, round, val.dup(), addr1);

    let mut stored = vote.dup();
    stored.signature = Bytes([1; 64]);
    keeper.apply_vote(stored, round);

    let mut variant = vote;
    variant.signature = Bytes([2; 64]);
    assert!(keeper.has_vote(&variant));
}

#[test]
fn precommit_without_extension_does_not_clear_stored_extension() {
    let ([addr1, _], mut keeper) = setup([1, 1]);

    let height = 1u64;
    let round = Round::new(0);
    let id: u64 = 1;
    let val = NilOrVal::Val(id);

    let extension = test_extension(b"app-data");
    let extended =
        new_signed_precommit_with_extension(height, round, val.dup(), addr1, extension.dup());
    assert_eq!(keeper.apply_vote(extended, round), None);

    let bare = new_signed_precommit(height, round, val.dup(), addr1);
    assert_eq!(keeper.apply_vote(bare, round), None);

    let per_round = keeper.per_round(round).expect("per-round entry exists");
    let stored = per_round
        .get_vote(VoteType::Precommit, &addr1)
        .expect("precommit stored for validator");
    assert_eq!(stored.extension, Some(extension));
}

/// A future-round `SkipRound` is emitted first, and the later `2f+1`
/// `PrecommitValue` for that same future round is still reported: the
/// `emitted_outputs` dedup only suppresses the repeated `SkipRound`, not the
/// stronger `PrecommitValue`, which `threshold_to_output` special-cases inside
/// the future-round branch.
#[test]
fn precommit_value_after_skip_round_in_future_round() {
    let ([addr1, addr2, addr3, _addr4], mut keeper) = setup([1, 1, 1, 1]);

    let height = 1u64;
    let cur_round = Round::new(0);
    let fut_round = Round::new(1);

    let id: u64 = 1;
    let val = NilOrVal::Val(id);

    // First precommit for the future round: below both thresholds.
    let msg = keeper.apply_vote(new_signed_precommit(height, fut_round, val.dup(), addr1), cur_round);
    assert_eq!(msg, None);

    // Second one crosses f+1 but not 2f+1: only the skip is reported.
    let msg = keeper.apply_vote(new_signed_precommit(height, fut_round, val.dup(), addr2), cur_round);
    assert_eq!(msg, Some(Output::SkipRound(fut_round)));

    // Third one reaches the 2f+1 quorum on the value. The skip threshold is
    // still met, but `PrecommitValue` outranks it and `SkipRound` is not
    // re-emitted.
    let msg = keeper.apply_vote(new_signed_precommit(height, fut_round, val.dup(), addr3), cur_round);
    assert_eq!(msg, Some(Output::PrecommitValue(id)));

    let emitted = keeper.per_round(fut_round).unwrap().emitted_outputs();
    assert!(emitted.contains(&Output::SkipRound(fut_round)));
    assert!(emitted.contains(&Output::PrecommitValue(id)));
    assert_eq!(emitted.len(), 2);
}

/// In a unanimous round the keeper reaches a prevote quorum but never emits
/// `PolkaAny`: the quorum is on the value, which is the stronger report.
#[test]
fn prevote_unanimous_value_quorum_never_emits_polka_any() {
    let ([addr1, addr2, addr3, addr4], mut keeper) = setup([1, 1, 1, 1]);

    let height = 1u64;
    let round = Round::new(0);

    let id: u64 = 1;
    let value = NilOrVal::Val(id);

    let msg = keeper.apply_vote(new_signed_prevote(height, round, value.dup(), addr1), round);
    assert_eq!(msg, None);

    let msg = keeper.apply_vote(new_signed_prevote(height, round, value.dup(), addr2), round);
    assert_eq!(msg, None);

    // The quorum is crossed on the value: only the stronger `PolkaValue` is reported.
    let msg = keeper.apply_vote(new_signed_prevote(height, round, value.dup(), addr3), round);
    assert_eq!(msg, Some(Output::PolkaValue(id)));

    // A further prevote for the same value emits nothing at all.
    let msg = keeper.apply_vote(new_signed_prevote(height, round, value.dup(), addr4), round);
    assert_eq!(msg, None);

    // The `Any` threshold is met ...
    assert!(keeper.is_threshold_met(&round, VoteType::Prevote, Threshold::Any));

    // ... yet `PolkaAny` was never emitted for this round.
    let emitted = keeper.per_round(round).unwrap().emitted_outputs();
    assert!(
        !emitted.contains(&Output::PolkaAny),
        "expected no PolkaAny in a unanimous round, got {emitted:?}"
    );
    assert!(emitted.contains(&Output::PolkaValue(id)));
}

/// The evidence against a flooding equivocator stops growing at
/// `MAX_EVIDENCE_PER_VALIDATOR`, exact repeats of a pair are recorded once, and
/// `prune_votes` never touches the evidence.
#[test]
fn repeated_equivocation_is_capped_and_survives_prune() {
    let ([addr1, ..], mut keeper) = setup([1, 1, 1, 1]);

    let height = 1u64;
    let round = Round::new(0);

    // First vote, then a stream of conflicting ones from the same validator.
    let first = new_signed_prevote(height, round, NilOrVal::Val(0), addr1);
    assert_eq!(keeper.apply_vote(first, round), None);

    const CONFLICTS: u64 = 50;
    for i in 1..=CONFLICTS {
        let vote = new_signed_prevote(height, round, NilOrVal::Val(i), addr1);
        assert_eq!(keeper.apply_vote(vote, round), None);
    }

    // Growth stops at the cap, however many fresh conflicting values arrive.
    assert!(CONFLICTS as usize > MAX_EVIDENCE_PER_VALIDATOR);
    assert_eq!(
        keeper.evidence().get(&addr1).map(|e| e.len()),
        Some(MAX_EVIDENCE_PER_VALIDATOR)
    );

    // An exact repeat of an already recorded pair is deduped as well.
    let repeat = new_signed_prevote(height, round, NilOrVal::Val(1), addr1);
    assert_eq!(keeper.apply_vote(repeat, round), None);
    assert_eq!(
        keeper.evidence().get(&addr1).map(|e| e.len()),
        Some(MAX_EVIDENCE_PER_VALIDATOR)
    );

    // Pruning the round drops the per-round votes but leaves the evidence.
    keeper.prune_votes(Round::new(1));
    assert_eq!(keeper.rounds(), 0);
    assert_eq!(
        keeper.evidence().get(&addr1).map(|e| e.len()),
        Some(MAX_EVIDENCE_PER_VALIDATOR)
    );

    // Only the caller taking the evidence releases it.
    let taken = keeper.take_evidence();
    assert_eq!(
        taken.get(&addr1).map(|e| e.len()),
        Some(MAX_EVIDENCE_PER_VALIDATOR)
    );
    assert!(keeper.evidence().is_empty());
}

/// Tallying never overflows, however large the weight of one validator.
#[test]
fn tally_never_overflows_on_accumulated_weight() {
    // total * 2 fits in a u64; weight * 3 for the first validator does not.
    let big = 6_500_000_000_000_000_000;
    let small = 2_500_000_000_000_000_000;
    let ([addr1, _addr2], mut keeper) = setup([big, small]);
    assert_eq!(keeper.total_weight(), big + small);

    let vote = new_signed_prevote(
        1u64,
        Round::new(0),
        NilOrVal::Val(1),
        addr1,
    );

    // Tallying this vote must not abort the node.
    keeper.apply_vote(vote, Round::new(0));
}

/// Real network noise around the keeper's main job: a vote from a validator
/// outside the set is discarded, a future-round vote reports SkipRound, a second
/// future-round vote from the same round is suppressed as a duplicate output,
/// and a genuine prevote quorum in that round still reports PolkaAny.
#[test]
fn unknown_vote_discarded_then_skip_round_suppressed_then_polka_any() {
    let ([addr1, addr2, addr3], mut keeper) = setup([1, 1, 2]);

    // An address that is not part of the validator set.
    let outsider = Bytes([99; 20]);

    let height = 1u64;
    let round0 = Round::new(0);
    let round1 = Round::new(1);

    // Nothing to prune and no evidence yet.
    keeper.prune_votes(round0);
    assert!(keeper.take_evidence().is_empty());
    assert!(keeper.take_evidence().is_empty());

    // A vote from outside the validator set is discarded.
    let vote = new_signed_prevote(height, round0, NilOrVal::Val(1), outsider);
    assert_eq!(keeper.apply_vote(vote, round0), None);

    // The heaviest validator prevotes in the next round: f+1 honest weight for a
    // future round, so the keeper tells the driver to skip to it.
    let vote = new_signed_prevote(height, round1, NilOrVal::Val(1), addr3);
    assert_eq!(keeper.apply_vote(vote, round0), Some(Output::SkipRound(round1)));

    // A second future-round vote would report SkipRound(1) again; it is suppressed.
    let vote = new_signed_precommit(height, round1, NilOrVal::Nil, addr1);
    assert_eq!(keeper.apply_vote(vote, round0), None);

    // Now driving round 1, a prevote quorum spread over two values is PolkaAny.
    let vote = new_signed_prevote(height, round1, NilOrVal::Val(2), addr2);
    assert_eq!(keeper.apply_vote(vote, round1), Some(Output::PolkaAny));
}

#[test]
fn rounds_are_listed_and_pruned() {
    let ([addr1, addr2, ..], mut keeper) = setup([1, 1, 1, 1]);
    assert_eq!(keeper.max_round(), Round::Nil);
    keeper.apply_vote(new_signed_prevote(1, Round::new(2), NilOrVal::Nil, addr1), Round::new(0));
    keeper.apply_vote(new_signed_prevote(1, Round::new(1), NilOrVal::Nil, addr2), Round::new(0));
    assert_eq!(keeper.max_round(), Round::new(2));
    assert_eq!(keeper.rounds(), 2);
    assert_eq!(keeper.all_rounds().len(), 2);
    keeper.prune_votes(Round::new(2));
    assert_eq!(keeper.rounds(), 1);
    assert!(keeper.per_round(Round::new(1)).is_none());
    assert_eq!(keeper.validator_set().count(), 4);
}

#[test]
fn evidence_is_recorded_once_in_either_order() {
    let ([addr1, ..], mut keeper) = setup([1, 1, 1, 1]);
    let a = new_signed_prevote(1, Round::new(0), NilOrVal::Val(1), addr1);
    let b = new_signed_prevote(1, Round::new(0), NilOrVal::Val(2), addr1);
    keeper.apply_vote(a.dup(), Round::new(0));
    keeper.apply_vote(b.dup(), Round::new(0));
    keeper.apply_vote(b.dup(), Round::new(0));
    assert_one_pair(&keeper, &addr1, &a, &b);
    let mut evidence = keeper.take_evidence();
    evidence.add(b, a);
    assert_eq!(evidence.get(&addr1).unwrap().len(), 1);
    assert_eq!(evidence.len(), 1);
    assert_eq!(evidence.iter().len(), 1);
    assert_eq!(evidence.into_iter().len(), 1);
}

/// A round holding a quorum of prevotes reports it, even where the advice to skip
/// to the round came first.
#[test]
fn polka_any_reported_once_prevote_quorum_reached() {
    let ([addr1, addr2, addr3], mut keeper) = setup([1, 1, 2]);

    let height = 1;
    let current = Round::new(0);
    let future = Round::new(1);

    // The whole validator set has moved on to round 1 while we still drive
    // round 0, so every round-1 prevote arrives as a future-round vote.
    let mut outputs = Vec::new();
    for (addr, value) in [
        (addr2, NilOrVal::Val(1)),
        (addr3, NilOrVal::Val(2)),
        (addr1, NilOrVal::Val(1)),
    ] {
        let vote = new_signed_prevote(height, future, value, addr);
        if let Some(output) = keeper.apply_vote(vote, current) {
            outputs.push(output);
        }
    }

    // Round 1 now holds a prevote quorum and no prevote is left to arrive.
    assert!(keeper.is_threshold_met(&future, VoteType::Prevote, Threshold::Any));
    assert!(
        outputs.contains(&Output::PolkaAny),
        "round holding a prevote quorum never reported PolkaAny, got {outputs:?}"
    );
}

/// Only the vote that gives the advice to skip reports nothing else; the advice
/// itself comes once, and the polka once after it.
#[test]
fn polka_follows_the_advice_to_skip() {
    let ([addr1, addr2, addr3], mut keeper) = setup([1, 1, 2]);
    let (current, future) = (Round::new(0), Round::new(1));
    let value = || NilOrVal::Val(1);
    let skip = Some(Output::SkipRound(future));
    assert_eq!(keeper.apply_vote(new_signed_prevote(1, future, value(), addr3), current), skip);
    let polka = keeper.apply_vote(new_signed_prevote(1, future, value(), addr2), current);
    assert_eq!(polka, Some(Output::PolkaValue(1)));
    let again = keeper.apply_vote(new_signed_prevote(1, future, value(), addr1), current);
    assert_eq!(again, None);
}

#[test]
fn quorums_are_the_same_in_every_order() {
    let round = Round::new(0);
    let orders = [[0, 1, 2, 3], [3, 2, 1, 0], [1, 3, 0, 2], [2, 0, 3, 1]];
    for order in orders {
        let (addrs, mut keeper) = setup([1, 1, 1, 1]);
        for i in order {
            let value = if i == 0 { NilOrVal::Val(2) } else { NilOrVal::Val(1) };
            keeper.apply_vote(new_signed_prevote(1, round, value, addrs[i]), Round::new(i as u32));
        }
        assert!(keeper.is_threshold_met(&round, VoteType::Prevote, Threshold::Value(1)));
        assert!(!keeper.is_threshold_met(&round, VoteType::Prevote, Threshold::Value(2)));
        assert!(keeper.is_threshold_met(&round, VoteType::Prevote, Threshold::Any));
        assert!(!keeper.is_threshold_met(&round, VoteType::Precommit, Threshold::Any));
        let held = keeper.per_round(round).unwrap();
        assert_eq!(held.votes().get_weight(VoteType::Prevote, &NilOrVal::Val(1)), 3);
        assert_eq!(held.votes().get_weight(VoteType::Prevote, &NilOrVal::Val(2)), 1);
        assert_eq!(held.addresses_weights().sum(), 4);
    }
}
