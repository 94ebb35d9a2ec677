//! The bounded-retry decisions shared by every user-facing operation.
//!
//! The shell measures wall-clock time and sleeps; these functions decide.
//! Before each attempt, elapsed time is held against the budget; after
//! each attempt the flow classifies the outcome: success ends the loop,
//! the single transient error class sleeps and retries, anything else
//! propagates immediately.

use vstd::prelude::*;
use vstd::string::StringExecFns;
use crate::errors::DaemonError;

verus! {

/// Wall-clock budget for locating and acting on a selector, in ms.
pub const SELECTOR_BUDGET_MS: u64 = 10000;

/// Wall-clock budget for waiting until a text is visible, in ms.
pub const VISIBILITY_BUDGET_MS: u64 = 5000;

/// Sleep between retries, in ms.
pub const RETRY_SLEEP_MS: u64 = 10;

/// Wall-clock budget for the readiness poll after start, in ms.
pub const HEALTH_BUDGET_MS: u64 = 10000;

/// Sleep between readiness polls, in ms.
pub const HEALTH_POLL_INTERVAL_MS: u64 = 100;

#[derive(Debug, Clone, Copy, PartialEq, Eq, Structural)]
pub enum PollGate {
    /// Budget remains: make an attempt.
    Attempt,
    /// Budget exhausted: report the timeout.
    Expired,
}

/// An attempt is allowed exactly while the elapsed time is under budget.
pub fn poll_gate(elapsed_ms: u64, budget_ms: u64) -> (r: PollGate)
    ensures
        (r is Attempt) == (elapsed_ms < budget_ms),
{
    if elapsed_ms < budget_ms {
        PollGate::Attempt
    } else {
        PollGate::Expired
    }
}

pub enum ClickFlow {
    /// The attempt succeeded; the operation is done.
    Succeeded,
    /// The transient parse failure: sleep and try again.
    RetryAfterSleep,
    /// Any other failure: propagate it unchanged, with no retry.
    Propagate(DaemonError),
}

/// Classify one locate-and-click attempt. Only `FailedToParseCoordinates`
/// is retried; every other error propagates immediately.
pub fn click_attempt_flow(outcome: Result<(), DaemonError>) -> (r: ClickFlow)
    ensures
        outcome is Ok ==> r is Succeeded,
        outcome matches Err(e) ==> (if e.is_coordinate_transient() {
            r is RetryAfterSleep
        } else {
            r matches ClickFlow::Propagate(p) && p == e
        }),
{
    match outcome {
        Ok(_) => ClickFlow::Succeeded,
        Err(e) => match e {
            DaemonError::FailedToParseCoordinates(_) => ClickFlow::RetryAfterSleep,
            _ => ClickFlow::Propagate(e),
        },
    }
}

pub enum VisibilityFlow {
    /// The text is visible; the wait is over.
    Visible,
    /// Not visible yet, or the transient resolution failure: keep polling.
    KeepPolling,
    /// Any other failure: propagate it unchanged, with no retry.
    Propagate(DaemonError),
}

/// Classify one visibility poll. An explicit "not visible" and the
/// transient `FailedToParseExistence` both keep polling; every other error
/// propagates immediately.
pub fn visibility_poll_flow(outcome: Result<bool, DaemonError>) -> (r: VisibilityFlow)
    ensures
        outcome matches Ok(v) ==> (if v {
            r is Visible
        } else {
            r is KeepPolling
        }),
        outcome matches Err(e) ==> (if e.is_visibility_transient() {
            r is KeepPolling
        } else {
            r matches VisibilityFlow::Propagate(p) && p == e
        }),
{
    match outcome {
        Ok(true) => VisibilityFlow::Visible,
        Ok(false) => VisibilityFlow::KeepPolling,
        Err(e) => match e {
            DaemonError::FailedToParseExistence(_) => VisibilityFlow::KeepPolling,
            _ => VisibilityFlow::Propagate(e),
        },
    }
}

/// The error a retry loop reports when its budget runs out, naming the
/// selector or text it was working on.
pub fn budget_exhausted(name: &str) -> (e: DaemonError)
    ensures
        e matches DaemonError::SelectorTimeout(s) && s@ == name@,
{
    DaemonError::SelectorTimeout(String::from_str(name))
}

} // verus!
