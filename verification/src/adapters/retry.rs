//! Retry policy for calls to a provider, and the decision taken after each
//! failed attempt.

use vstd::prelude::*;
use std::time::Duration;
use crate::text::{concat, decimal, decimal_text};

verus! {

/// The duration that `Duration::from_millis(ms)` makes.
pub uninterp spec fn duration_from_millis(ms: u64) -> Duration;

/// The duration that `Duration::from_secs(s)` makes.
pub uninterp spec fn duration_from_secs(s: u64) -> Duration;

/// A duration of `ms` milliseconds: calls `Duration::from_millis` of std.
#[verifier::external_body]
fn millis(ms: u64) -> (d: Duration)
    ensures
        d == duration_from_millis(ms),
{
    Duration::from_millis(ms)
}

/// A duration of `s` seconds: calls `Duration::from_secs` of std.
#[verifier::external_body]
fn secs(s: u64) -> (d: Duration)
    ensures
        d == duration_from_secs(s),
{
    Duration::from_secs(s)
}

/// An exponential backoff of the backoff crate, with the system clock.
#[verifier::external_type_specification]
#[verifier::external_body]
#[verifier::reject_recursive_types(C)]
pub struct ExExponentialBackoff<C>(backoff::exponential::ExponentialBackoff<C>);

/// The system clock of the backoff crate.
#[verifier::external_type_specification]
#[verifier::external_body]
pub struct ExSystemClock(backoff::SystemClock);

/// The settings an exponential backoff was built with: its initial
/// interval, its maximum interval and its maximum elapsed time.
pub uninterp spec fn backoff_settings(
    b: backoff::exponential::ExponentialBackoff<backoff::SystemClock>,
) -> (Duration, Duration, Option<Duration>);

/// An exponential backoff with jitter from `initial` up to `max` between
/// attempts, that gives up `max_elapsed` after it starts.
///
/// Calls `ExponentialBackoffBuilder::new`, its `with_initial_interval`,
/// `with_max_interval` and `with_max_elapsed_time`, then `build`, which
/// copies these three settings into the backoff. The contract says no more:
/// the value also holds the time it was built, and draws random delays.
#[verifier::external_body]
fn exponential_backoff(
    initial: Duration,
    max: Duration,
    max_elapsed: Duration,
) -> (res: backoff::exponential::ExponentialBackoff<backoff::SystemClock>)
    ensures
        backoff_settings(res) == (initial, max, Some(max_elapsed)),
{
    backoff::ExponentialBackoffBuilder::new()
        .with_initial_interval(initial)
        .with_max_interval(max)
        .with_max_elapsed_time(Some(max_elapsed))
        .build()
}

/// How often and how patiently a provider call is retried.
#[derive(Debug)]
pub struct RetryPolicy {
    pub max_retries: u32,
    pub base_delay: Duration,
    pub max_delay: Duration,
}

impl Clone for RetryPolicy {
    fn clone(&self) -> (res: Self)
        ensures
            res == *self,
    {
        RetryPolicy {
            max_retries: self.max_retries,
            base_delay: self.base_delay,
            max_delay: self.max_delay,
        }
    }
}

impl Default for RetryPolicy {
    /// Three retries, from half a second up to thirty seconds apart.
    fn default() -> (res: Self)
        ensures
            res.max_retries == 3,
            res.base_delay == duration_from_millis(500),
            res.max_delay == duration_from_secs(30),
    {
        RetryPolicy { max_retries: 3, base_delay: millis(500), max_delay: secs(30) }
    }
}

impl RetryPolicy {
    /// The backoff between attempts: exponential with jitter, from the base
    /// delay up to the maximum delay, giving up after two minutes.
    pub fn to_backoff(&self) -> (res: backoff::exponential::ExponentialBackoff<backoff::SystemClock>)
        ensures
            backoff_settings(res) == (self.base_delay, self.max_delay, Some(
                duration_from_secs(120),
            )),
    {
        exponential_backoff(self.base_delay, self.max_delay, secs(120))
    }
}

/// The error of an operation that kept failing.
#[derive(Debug)]
pub struct RetryError {
    pub max_retries: u32,
    pub last_error: String,
}

impl RetryError {
    /// The human-readable description of the error.
    pub fn message(&self) -> (res: String)
        ensures
            res@ == "operation failed after "@ + decimal_text(self.max_retries as nat)
                + " retries: "@ + self.last_error@,
    {
        let n = decimal(self.max_retries as u64);
        let mut out = concat("operation failed after ", n.as_str());
        out.append(" retries: ");
        out.append(self.last_error.as_str());
        out
    }
}

/// The failures seen so far by one retried operation.
#[derive(Debug, Clone, Copy, PartialEq, Eq, Structural)]
pub struct RetryState {
    pub failures: u32,
}

impl RetryState {
    /// No failure yet.
    pub fn new() -> (res: RetryState)
        ensures
            res.failures == 0,
    {
        RetryState { failures: 0 }
    }

    /// Records a failed attempt and says whether another attempt is within
    /// the policy: it is while the failures do not exceed `max_retries`.
    /// (The backoff may still end the retries when it has no delay left.)
    pub fn record_failure(&mut self, max_retries: u32) -> (may_retry: bool)
        ensures
            final(self).failures == (if old(self).failures == u32::MAX {
                u32::MAX as int
            } else {
                old(self).failures + 1
            }),
            may_retry == (final(self).failures <= max_retries),
    {
        self.failures = self.failures.saturating_add(1);
        self.failures <= max_retries
    }
}

} // verus!
