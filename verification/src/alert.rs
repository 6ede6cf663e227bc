//! When a probe result counts as an alert.
//!
//! Both the status and the latency count, and the latency threshold is the
//! caller's to set. A probe without a status, one whose request failed
//! below HTTP, is an alert by this rule; the monitor loop also ends the run
//! on it.

use crate::elapsed::Elapsed;
use crate::status::HttpStatus;
use vstd::prelude::*;

verus! {

/// A result is an alert where no status came back, where the status is not
/// a success, or where the probe took `threshold` whole seconds or more.
pub open spec fn alerting(
    status_code: Option<HttpStatus>,
    elapsed_secs: nat,
    threshold: nat,
) -> bool {
    match status_code {
        Some(status) => !status.spec_is_success() || elapsed_secs >= threshold,
        None => true,
    }
}

/// Whether a probe result is an alert: the status is missing or outside 200
/// to 299, or the whole seconds of `elapsed` reach `threshold_seconds`.
pub fn is_alerting(
    status_code: Option<HttpStatus>,
    elapsed: Elapsed,
    threshold_seconds: u64,
) -> (r: bool)
    ensures
        r == alerting(status_code, elapsed.secs(), threshold_seconds as nat),
{
    match status_code {
        Some(status) => !status.is_success() || elapsed.as_secs() >= threshold_seconds,
        None => true,
    }
}

} // verus!
