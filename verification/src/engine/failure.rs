//! What a failed step of an actor leads to.
//!
//! Failures that are safe to restart from fail the actor, and the node then
//! stops so that the process can be restarted. Failures after which a restart
//! is itself dangerous, because it could sign a conflicting message, are
//! reported to the node and hang the actor.

use vstd::prelude::*;
use vstd::string::*;

verus! {

/// What the actor does next.
pub enum Outcome<A> {
    /// Go on with this value.
    Continue(A),
    /// Return this error, which fails the actor.
    Fail(String),
    /// Report a safety failure with this reason to the node, then make no
    /// further progress.
    HangWith(String),
}

/// The outcome of a step that is safe to restart from: on failure, for the
/// given reason, the actor fails.
pub fn stop_on_failure<A>(result: Result<A, String>) -> (r: Outcome<A>)
    ensures
        match result {
            Ok(v) => r == Outcome::Continue(v),
            Err(reason) => r matches Outcome::Fail(m) && m@ == "liveness failure: "@ + reason@,
        },
{
    match result {
        Ok(v) => Outcome::Continue(v),
        Err(reason) => Outcome::Fail("liveness failure: ".to_owned().concat(reason.as_str())),
    }
}

/// The outcome of a step after whose failure a restart is dangerous: on
/// failure, for the given reason, the actor hangs.
pub fn hang_on_safety_failure<A>(result: Result<A, String>) -> (r: Outcome<A>)
    ensures
        match result {
            Ok(v) => r == Outcome::Continue(v),
            Err(reason) => r == Outcome::<A>::HangWith(reason),
        },
{
    match result {
        Ok(v) => Outcome::Continue(v),
        Err(reason) => Outcome::HangWith(reason),
    }
}

/// How a request to the log actor failed.
pub enum WalFailure {
    /// The log replied with an error while writing the entry.
    Write(String),
    /// The log replied with an error while syncing to disk.
    Flush(String),
    /// The request did not reach the log, or its reply did not come back.
    Transport(String),
}

impl WalFailure {
    /// The text of the failure.
    pub open spec fn text(self) -> Seq<char> {
        match self {
            WalFailure::Write(e) => "WAL write error: "@ + e@,
            WalFailure::Flush(e) => "WAL flush error: "@ + e@,
            WalFailure::Transport(e) => "WAL actor transport error: "@ + e@,
        }
    }

    /// The text of the failure.
    pub fn message(&self) -> (r: String)
        ensures
            r@ == self.text(),
    {
        match self {
            WalFailure::Write(e) => "WAL write error: ".to_owned().concat(e.as_str()),
            WalFailure::Flush(e) => "WAL flush error: ".to_owned().concat(e.as_str()),
            WalFailure::Transport(e) => "WAL actor transport error: ".to_owned().concat(e.as_str()),
        }
    }
}

/// What the log actor's reply to an append means. The outer error is a
/// request that was not delivered or not answered.
pub fn append_result(reply: Result<Result<(), String>, String>) -> (r: Result<(), WalFailure>)
    ensures
        r == (match reply {
            Ok(Ok(())) => Ok::<(), WalFailure>(()),
            Ok(Err(e)) => Err::<(), WalFailure>(WalFailure::Write(e)),
            Err(e) => Err::<(), WalFailure>(WalFailure::Transport(e)),
        }),
{
    match reply {
        Ok(Ok(())) => Ok(()),
        Ok(Err(e)) => Err(WalFailure::Write(e)),
        Err(e) => Err(WalFailure::Transport(e)),
    }
}

/// What the log actor's reply to a flush means. The outer error is a request
/// that was not delivered or not answered.
pub fn flush_result(reply: Result<Result<(), String>, String>) -> (r: Result<(), WalFailure>)
    ensures
        r == (match reply {
            Ok(Ok(())) => Ok::<(), WalFailure>(()),
            Ok(Err(e)) => Err::<(), WalFailure>(WalFailure::Flush(e)),
            Err(e) => Err::<(), WalFailure>(WalFailure::Transport(e)),
        }),
{
    match reply {
        Ok(Ok(())) => Ok(()),
        Ok(Err(e)) => Err(WalFailure::Flush(e)),
        Err(e) => Err(WalFailure::Transport(e)),
    }
}

} // verus!
