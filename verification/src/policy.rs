//! The launch orchestrator's decisions: route a launch attempt to "forward
//! to a running leader" or "become the leader", and the bounded retry policy
//! for a losing candidate whose leader is not yet listening.
//!
//! The outside work of a forwarding attempt (the TCP exchange, spawning the
//! relay) cannot be done here; the caller performs one attempt at a time and
//! feeds each outcome to [`retry_step`], which decides whether to try again.
//! [`spec_forward_outcome`] is the model of that loop, and the proof
//! functions below pin the attempt budget: a connection-class failure is
//! retried at most three extra times (four attempts in all), every other
//! failure and every success is terminal.

use vstd::prelude::*;
use crate::errors::CoreError;
use crate::lockfile::{acquire_or_discover, LockOutcome, MAX_UNTRUSTED_PORT};
use crate::numeric::{parse_u32_bytes, spec_parse_u32};
use vstd::utf8::encode_utf8;

verus! {

/// Extra attempts granted after the first connection-class failure.
pub const EXTRA_ATTEMPTS: u32 = 3;

/// The two terminal shapes of a launch attempt: the request was forwarded to
/// a running leader (successfully or not — either way the caller must not
/// become a server), or this process won leadership and owns the still-held
/// lock together with the command it was asked to run locally.
#[derive(Debug)]
pub enum LaunchResult {
    LaunchRequested,
    LockAcquired {
        lock_file: rustix::fd::OwnedFd,
        command: String,
        command_args: Vec<String>,
        env: Vec<(String, Option<String>)>,
    },
}

/// What the orchestrator decided: either forward the request to the leader
/// listening on `port` (with retries allowed only on the losing-candidate
/// path), or leadership was just acquired.
#[derive(Debug)]
pub enum LaunchStep {
    Forward { port: u32, retry_allowed: bool },
    Became(LaunchResult),
}

/// Routes one launch invocation, as the orchestrator's state machine says.
/// A known server port (from the environment) makes this process a follower:
/// the port text must parse, and failures while forwarding will be fatal.
/// Otherwise leader election runs: winning it returns the still-held lock
/// with the original command; losing it to a leader with a usable published
/// port (always above 1024) forwards with the bounded retry budget; losing
/// it with no usable port published is fatal and never retried.
pub fn launch_or_lock(
    runtime_dir: &str,
    known_port_var: Option<&String>,
    candidate_port: u32,
    command: String,
    command_args: Vec<String>,
    env: Vec<(String, Option<String>)>,
) -> (r: Result<LaunchStep, CoreError>)
    ensures
        known_port_var matches Some(s) ==> (match spec_parse_u32(encode_utf8(s@)) {
            Some(p) => r matches Ok(st) && st == (LaunchStep::Forward {
                port: p,
                retry_allowed: false,
            }),
            None => r matches Err(e) && e is Configuration,
        }),
        r matches Ok(LaunchStep::Forward { port, retry_allowed: true }) ==> port
            > MAX_UNTRUSTED_PORT,
        r matches Ok(LaunchStep::Became(lr)) ==> lr is LockAcquired,
        r matches Ok(
            LaunchStep::Became(
                LaunchResult::LockAcquired { command: c, command_args: a, env: v, .. },
            ),
        ) ==> (c@ == command@ && a == command_args && v == env),
        known_port_var is None ==> (r matches Err(e) ==> e is Configuration
            || e is LeadershipAmbiguous),
{
    match known_port_var {
        Some(s) => {
            let bytes = s.as_str().as_bytes_vec();
            match parse_u32_bytes(&bytes) {
                Some(port) => Ok(LaunchStep::Forward { port, retry_allowed: false }),
                None => Err(
                    CoreError::Configuration(
                        String::from_str("KRUN_SERVER_PORT does not hold a valid port number"),
                    ),
                ),
            }
        },
        None => {
            let outcome = acquire_or_discover(runtime_dir, candidate_port);
            route_election(outcome, command, command_args, env)
        },
    }
}

/// Routes an election outcome, pinning each shape: winning the lock makes
/// this process the leader, carrying the still-held lock and the caller's
/// command unchanged; losing to a leader with a usable published port
/// forwards with the retry budget; losing with no usable port is the
/// ambiguous-leadership error; an election error passes through as it is.
pub fn route_election(
    outcome: Result<LockOutcome, CoreError>,
    command: String,
    command_args: Vec<String>,
    env: Vec<(String, Option<String>)>,
) -> (r: Result<LaunchStep, CoreError>)
    ensures
        outcome matches Ok(LockOutcome::Acquired(fd)) ==> (r matches Ok(
            LaunchStep::Became(
                LaunchResult::LockAcquired { lock_file: l, command: c, command_args: a, env: v },
            ),
        ) && l == fd && c == command && a == command_args && v == env),
        outcome matches Ok(LockOutcome::Busy(Some(p))) ==> r == Ok::<LaunchStep, CoreError>(
            LaunchStep::Forward { port: p, retry_allowed: true },
        ),
        outcome matches Ok(LockOutcome::Busy(None)) ==> r == Err::<LaunchStep, CoreError>(
            CoreError::LeadershipAmbiguous,
        ),
        outcome matches Err(e) ==> r == Err::<LaunchStep, CoreError>(e),
{
    match outcome {
        Ok(LockOutcome::Acquired(lock_file)) => Ok(
            LaunchStep::Became(
                LaunchResult::LockAcquired { lock_file, command, command_args, env },
            ),
        ),
        Ok(LockOutcome::Busy(Some(port))) => Ok(LaunchStep::Forward { port, retry_allowed: true }),
        Ok(LockOutcome::Busy(None)) => Err(CoreError::LeadershipAmbiguous),
        Err(e) => Err(e),
    }
}

/// What [`retry_step`] tells the caller to do next.
pub enum RetryStep {
    /// Terminal: hand this result to the user.
    Done(Result<(), CoreError>),
    /// Attempt the forward again, with this new count of extra attempts
    /// already used.
    Retry(u32),
}

/// One decision of the losing candidate's bounded retry loop. `tries` counts
/// the extra attempts already used. Only a connection-class failure is ever
/// retried — the leader exists but its listener may not be bound yet — and
/// only while the budget of three extra attempts is not exhausted; success,
/// any other failure, and the fourth connection failure are terminal.
pub fn retry_step(tries: u32, outcome: Result<(), CoreError>) -> (r: RetryStep)
    requires
        tries <= EXTRA_ATTEMPTS,
    ensures
        outcome is Ok ==> r == RetryStep::Done(Result::<(), CoreError>::Ok(())),
        (outcome matches Err(e) && !(e is Connection)) ==> r == RetryStep::Done(outcome),
        (outcome matches Err(e) && e is Connection && tries < EXTRA_ATTEMPTS) ==> r
            == RetryStep::Retry((tries + 1) as u32),
        (outcome matches Err(e) && e is Connection && tries == EXTRA_ATTEMPTS) ==> r
            == RetryStep::Done(outcome),
{
    match outcome {
        Ok(()) => RetryStep::Done(Ok(())),
        Err(e) => {
            if e.is_connection() && tries < EXTRA_ATTEMPTS {
                RetryStep::Retry(tries + 1)
            } else {
                RetryStep::Done(Err(e))
            }
        },
    }
}

/// The model of the caller's retry loop over a sequence of attempt
/// outcomes: starting at attempt `i` with `tries` extra attempts used, the
/// pair of the terminal result and the index just past the last attempt
/// made. Runs of fewer than five attempts from `(0, 0)` stay within any
/// sequence of at least four outcomes.
pub open spec fn spec_forward_outcome(
    outcomes: Seq<Result<(), CoreError>>,
    i: int,
    tries: int,
) -> (Result<(), CoreError>, int)
    decreases outcomes.len() - i,
{
    if i < 0 || i >= outcomes.len() {
        (Err(CoreError::LeadershipAmbiguous), i)
    } else {
        match outcomes[i] {
            Ok(u) => (Ok(u), i + 1),
            Err(e) => if e is Connection && tries < EXTRA_ATTEMPTS {
                spec_forward_outcome(outcomes, i + 1, tries + 1)
            } else {
                (Err(e), i + 1)
            },
        }
    }
}

/// Exhaustion law: a losing candidate that sees a connection-class failure
/// on every one of its four attempts fails fatally on the fourth, with that
/// fourth error, having made exactly four attempts — the initial one plus
/// the budget of three extra.
pub proof fn lemma_retry_budget_exhausted(outcomes: Seq<Result<(), CoreError>>)
    requires
        outcomes.len() >= 4,
        forall|i: int|
            0 <= i < 4 ==> (#[trigger] outcomes[i] matches Err(e) && e is Connection),
    ensures
        spec_forward_outcome(outcomes, 0, 0) == (outcomes[3], 4int),
        outcomes[3] is Err,
{
    assert(outcomes[0] matches Err(e) && e is Connection);
    assert(outcomes[1] matches Err(e) && e is Connection);
    assert(outcomes[2] matches Err(e) && e is Connection);
    assert(outcomes[3] matches Err(e) && e is Connection);
    assert(spec_forward_outcome(outcomes, 0, 0) == spec_forward_outcome(outcomes, 1, 1));
    assert(spec_forward_outcome(outcomes, 1, 1) == spec_forward_outcome(outcomes, 2, 2));
    assert(spec_forward_outcome(outcomes, 2, 2) == spec_forward_outcome(outcomes, 3, 3));
    assert(spec_forward_outcome(outcomes, 3, 3) == (outcomes[3], 4int));
}

/// Recovery law: three connection-class failures followed by a success
/// succeed without exhausting the budget, after exactly four attempts.
pub proof fn lemma_retry_budget_recovers(outcomes: Seq<Result<(), CoreError>>)
    requires
        outcomes.len() >= 4,
        forall|i: int|
            0 <= i < 3 ==> (#[trigger] outcomes[i] matches Err(e) && e is Connection),
        outcomes[3] is Ok,
    ensures
        spec_forward_outcome(outcomes, 0, 0) == (Result::<(), CoreError>::Ok(()), 4int),
{
    assert(outcomes[0] matches Err(e) && e is Connection);
    assert(outcomes[1] matches Err(e) && e is Connection);
    assert(outcomes[2] matches Err(e) && e is Connection);
    assert(spec_forward_outcome(outcomes, 0, 0) == spec_forward_outcome(outcomes, 1, 1));
    assert(spec_forward_outcome(outcomes, 1, 1) == spec_forward_outcome(outcomes, 2, 2));
    assert(spec_forward_outcome(outcomes, 2, 2) == spec_forward_outcome(outcomes, 3, 3));
    assert(spec_forward_outcome(outcomes, 3, 3) == (Result::<(), CoreError>::Ok(()), 4int));
}

/// Immediate-abort law: a failure that is not connection-class is terminal
/// on the very first attempt, whatever follows it.
pub proof fn lemma_non_connection_aborts(outcomes: Seq<Result<(), CoreError>>)
    requires
        outcomes.len() >= 1,
        outcomes[0] matches Err(e) && !(e is Connection),
    ensures
        spec_forward_outcome(outcomes, 0, 0) == (outcomes[0], 1int),
{
}

} // verus!
