//! What holds of the consensus actor across messages and effects.

use vstd::prelude::*;

use crate::engine::consensus::{
    active_validator, applies_sync, buffers, hanging, ignoring, fetching, kept_for_later,
    replay_from, replay_steps, replaying, stopping, Action, Config, HeightParams, Msg, Phase,
    StateView, Step, WalEntry,
};
use crate::engine::effect::{effect_steps, writes_wal, Effect};

verus! {

/// Whether `action` lets a signed message, a decision or a new round out of
/// the actor.
pub open spec fn escapes<P>(action: Action<P>) -> bool {
    match action {
        Action::PublishConsensusMsg(_) => true,
        Action::HostDecided(_, _) => true,
        Action::HostStartedRound(_, _, _) => true,
        _ => false,
    }
}

/// Nothing that was signed leaves the node, and no decision or new round is
/// acted on, before the log is on disk: where the log is written, a flush
/// whose failure hangs the actor comes first.
pub proof fn law_log_is_durable_before_anything_escapes<P>(
    phase: Phase,
    is_validator: bool,
    effect: Effect<P>,
    i: int,
)
    requires
        writes_wal(phase, is_validator),
        0 <= i < effect_steps(phase, is_validator, effect).len(),
        escapes(effect_steps(phase, is_validator, effect)[i].action),
    ensures
        i > 0,
        effect_steps(phase, is_validator, effect)[0] == hanging(Action::<P>::WalFlush),
{
}

/// The log is not touched while it is replayed, nor by a node that is no
/// validator.
pub proof fn law_log_untouched_unless_written<P>(
    phase: Phase,
    is_validator: bool,
    effect: Effect<P>,
    i: int,
)
    requires
        !writes_wal(phase, is_validator),
        0 <= i < effect_steps(phase, is_validator, effect).len(),
    ensures
        !(effect_steps(phase, is_validator, effect)[i].action is WalFlush),
        !(effect_steps(phase, is_validator, effect)[i].action is WalAppend),
{
}

/// Every write to the log hangs the actor if it fails.
pub proof fn law_log_failures_hang<P>(phase: Phase, is_validator: bool, effect: Effect<P>, i: int)
    requires
        0 <= i < effect_steps(phase, is_validator, effect).len(),
        effect_steps(phase, is_validator, effect)[i].action is WalFlush || effect_steps(
            phase,
            is_validator,
            effect,
        )[i].action is WalAppend,
    ensures
        effect_steps(phase, is_validator, effect)[i] == hanging(
            effect_steps(phase, is_validator, effect)[i].action,
        ),
{
}

/// The commit of another height's decision does not end the wait for sync.
pub proof fn law_stale_commit_keeps_waiting<P>(s: StateView<P>, config: Config, height: u64)
    requires
        s.phase == Phase::WaitingForSync,
        height != s.height(),
    ensures
        s.handled(config, Msg::DecisionCommitted(height))->Ok_0.0 == s,
{
}

/// The commit of the current height's decision ends the wait for sync: the
/// log is not replayed and the timer is cancelled.
pub proof fn law_commit_ends_waiting<P>(s: StateView<P>, config: Config)
    requires
        s.phase == Phase::WaitingForSync,
    ensures
        ({
            let next = s.handled(config, Msg::DecisionCommitted(s.height()))->Ok_0.0;
            next.phase == Phase::Running && next.pending.len() == 0 && next.timer is None
        }),
{
}

/// The log of a decided height is not replayed.
pub proof fn law_decided_height_not_replayed<P>(s: StateView<P>, config: Config, height: u64)
    requires
        s.core matches Some(c) && c.decided,
    ensures
        s.handled(config, Msg::WalReplayDelayElapsed(height)) == Ok::<
            (StateView<P>, Seq<Step<P>>),
            crate::engine::consensus::HandleError,
        >((s, Seq::empty())),
{
}

/// The log is fetched exactly for a validator that starts a height anew;
/// otherwise it is emptied.
pub proof fn law_log_fetched_by_validators_only<P>(
    s: StateView<P>,
    config: Config,
    height: u64,
    params: HeightParams<P>,
    is_restart: bool,
)
    ensures
        s.begin_height(config, height, params, is_restart).1.last() == if active_validator(
            config,
            params.validators@,
        ) && !is_restart {
            fetching::<P>(height)
        } else {
            stopping(Action::<P>::WalReset(height))
        },
{
}

/// Between messages: entries are pending and the timer runs exactly while the
/// actor waits for sync. In the middle of something: neither.
pub open spec fn waiting_consistent<P>(s: StateView<P>) -> bool {
    if s.stage is Idle {
        (s.phase == Phase::WaitingForSync <==> s.pending.len() > 0) && (s.phase
            == Phase::WaitingForSync <==> s.timer is Some)
    } else {
        s.pending.len() == 0 && s.timer is None
    }
}

/// Handling a message keeps the wait for sync consistent.
pub proof fn law_handling_keeps_waiting_consistent<P>(s: StateView<P>, config: Config, msg: Msg<P>)
    requires
        s.stage is Idle,
        waiting_consistent(s),
        s.handled(config, msg) is Ok,
    ensures
        waiting_consistent(s.handled(config, msg)->Ok_0.0),
{
}

/// Going on with a height that is being started keeps the wait for sync
/// consistent.
pub proof fn law_starting_keeps_waiting_consistent<P>(
    s: StateView<P>,
    entries: Seq<WalEntry<P>>,
    delay: u64,
)
    requires
        waiting_consistent(s),
    ensures
        s.stage is AwaitWal ==> waiting_consistent(s.wal_ready(entries).0),
        s.stage is AwaitStart ==> waiting_consistent(s.core_started(delay).0),
        s.stage is AwaitReplay ==> waiting_consistent(
            s.running(s.stage->AwaitReplay_announce).0,
        ),
{
}

/// While waiting for sync, what applies its certificate is handled, and the
/// rest of what is kept while not running is kept.
pub proof fn law_sync_flows_while_waiting<P>(msg: Msg<P>)
    ensures
        kept_for_later(Phase::WaitingForSync, msg) == (buffers(msg) && !applies_sync(msg)),
        !kept_for_later(Phase::Running, msg),
{
}

/// Whether some entry from `i` on is corrupt.
pub open spec fn corrupt_from<P>(entries: Seq<WalEntry<P>>, i: int) -> bool {
    exists|k: int| i <= k < entries.len() && (#[trigger] entries[k]) is Corrupt
}

proof fn lemma_replay_end<P>(entries: Seq<WalEntry<P>>, i: int)
    requires
        0 <= i <= entries.len(),
    ensures
        replay_from(entries, i).len() > 0,
        corrupt_from(entries, i) ==> replay_from(entries, i).last() == ignoring(
            Action::<P>::HangOnCorruptEntry,
        ),
        !corrupt_from(entries, i) ==> replay_from(entries, i).last() == ignoring(
            Action::<P>::EmitWalReplayDone,
        ),
    decreases entries.len() - i,
{
    if i < entries.len() {
        match entries[i] {
            WalEntry::Corrupt => {
                assert(corrupt_from(entries, i));
            },
            WalEntry::Input(p) => {
                lemma_replay_end(entries, i + 1);
                let tail = replay_from(entries, i + 1);
                let all = replay_from(entries, i);
                assert(all.last() == tail.last());
                if corrupt_from(entries, i) {
                    let k = choose|k: int|
                        i <= k < entries.len() && (#[trigger] entries[k]) is Corrupt;
                    assert(k != i);
                    assert(corrupt_from(entries, i + 1));
                }
            },
        }
    }
}

/// A replay that meets a corrupt entry ends by hanging the actor; only one
/// without is done.
pub proof fn law_replay_hangs_on_corrupt_entry<P>(height: u64, entries: Seq<WalEntry<P>>)
    ensures
        corrupt_from(entries, 0) ==> replay_steps(height, entries).last() == ignoring(
            Action::<P>::HangOnCorruptEntry,
        ),
        !corrupt_from(entries, 0) ==> replay_steps(height, entries).last() == ignoring(
            Action::<P>::EmitWalReplayDone,
        ),
{
    lemma_replay_end(entries, 0);
    let tail = replay_from(entries, 0);
    assert(replay_steps(height, entries).last() == tail.last());
}

/// Without a corrupt entry, the replay processes every entry, in order, and a
/// failure of any is told and hangs the actor.
pub proof fn law_replay_processes_all<P>(height: u64, entries: Seq<WalEntry<P>>, k: int)
    requires
        !corrupt_from(entries, 0),
        0 <= k < entries.len(),
    ensures
        entries[k] is Input,
        2 * k + 2 < replay_steps(height, entries).len(),
        replay_steps(height, entries)[2 * k + 2] == replaying(entries[k]->Input_0),
{
    lemma_replay_at(entries, 0, k);
    assert(entries[k] is Input) by {
        if entries[k] is Corrupt {
            assert(corrupt_from(entries, 0));
        }
    }
    let tail = replay_from(entries, 0);
    assert(replay_steps(height, entries)[2 * k + 2] == tail[2 * k + 1]);
}

proof fn lemma_replay_at<P>(entries: Seq<WalEntry<P>>, i: int, k: int)
    requires
        !corrupt_from(entries, i),
        0 <= i <= k < entries.len(),
    ensures
        entries[k] is Input,
        2 * (k - i) + 1 < replay_from(entries, i).len(),
        replay_from(entries, i)[2 * (k - i) + 1] == replaying(entries[k]->Input_0),
    decreases k - i,
{
    assert(entries[i] is Input) by {
        if entries[i] is Corrupt {
            assert(corrupt_from(entries, i));
        }
    }
    if i < k {
        assert(!corrupt_from(entries, i + 1)) by {
            if corrupt_from(entries, i + 1) {
                let j = choose|j: int|
                    i + 1 <= j < entries.len() && (#[trigger] entries[j]) is Corrupt;
                assert(entries[j] is Corrupt);
            }
        }
        lemma_replay_at(entries, i + 1, k);
        let tail = replay_from(entries, i + 1);
        assert(replay_from(entries, i)[2 * (k - i) + 1] == tail[2 * (k - i - 1) + 1]);
    }
}

} // verus!
