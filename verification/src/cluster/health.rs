//! Health of endpoints.

use crate::config::types::HealthCheckConfig;
use crate::time::Duration;
use vstd::prelude::*;

verus! {

/// Outcome of a health check.
#[derive(Debug)]
pub enum HealthState {
    /// The endpoint answered.
    Healthy,
    /// It did not, for some reason.
    Unhealthy(String),
}

/// How a trial connection went.
#[derive(Debug)]
pub enum CheckOutcome {
    /// It was made, bound and closed.
    Passed,
    /// It failed, with a message.
    Failed(String),
    /// It took longer than the timeout.
    TimedOut,
}

/// What a trial connection says of the endpoint.
pub open spec fn judged(outcome: CheckOutcome) -> Option<Seq<char>> {
    match outcome {
        CheckOutcome::Passed => None,
        CheckOutcome::Failed(message) => Some(message@),
        CheckOutcome::TimedOut => Some("timeout"@),
    }
}

/// Why an endpoint is unhealthy.
pub open spec fn reason_of(state: HealthState) -> Option<Seq<char>> {
    match state {
        HealthState::Healthy => None,
        HealthState::Unhealthy(reason) => Some(reason@),
    }
}

/// Counts health checks in a row.
#[derive(Debug)]
pub struct HealthChecker {
    interval: Duration,
    timeout: Duration,
    unhealthy_threshold: u32,
    healthy_threshold: u32,
    consecutive_failures: u32,
    consecutive_successes: u32,
}

/// A counter after one more; the greatest number stays.
pub open spec fn count_up(n: u32) -> u32 {
    if n == u32::MAX {
        n
    } else {
        (n + 1) as u32
    }
}

impl HealthChecker {
    /// Failures in a row.
    pub closed spec fn failures(&self) -> u32 {
        self.consecutive_failures
    }

    /// Successes in a row.
    pub closed spec fn successes(&self) -> u32 {
        self.consecutive_successes
    }

    /// The configuration.
    pub closed spec fn config(&self) -> HealthCheckConfig {
        HealthCheckConfig {
            interval: self.interval,
            timeout: self.timeout,
            unhealthy_threshold: self.unhealthy_threshold,
            healthy_threshold: self.healthy_threshold,
        }
    }

    /// A checker that has seen nothing.
    pub fn new(config: &HealthCheckConfig) -> (c: Self)
        ensures
            c.config() == *config,
            c.failures() == 0,
            c.successes() == 0,
    {
        HealthChecker {
            interval: config.interval,
            timeout: config.timeout,
            unhealthy_threshold: config.unhealthy_threshold,
            healthy_threshold: config.healthy_threshold,
            consecutive_failures: 0,
            consecutive_successes: 0,
        }
    }

    /// Time between checks.
    pub fn interval(&self) -> (d: Duration)
        ensures
            d == self.config().interval,
    {
        self.interval
    }

    /// Time after which a check has failed.
    pub fn timeout(&self) -> (d: Duration)
        ensures
            d == self.config().timeout,
    {
        self.timeout
    }

    /// What a trial connection says of the endpoint: healthy if it was made,
    /// unhealthy with a reason if not.
    pub fn check(&self, outcome: CheckOutcome) -> (state: HealthState)
        ensures
            reason_of(state) == judged(outcome),
    {
        match outcome {
            CheckOutcome::Passed => HealthState::Healthy,
            CheckOutcome::Failed(message) => HealthState::Unhealthy(message),
            CheckOutcome::TimedOut => HealthState::Unhealthy("timeout".to_string()),
        }
    }

    /// Notes a check that succeeded; the answer says whether the endpoint is
    /// to be marked healthy.
    pub fn record_success(&mut self) -> (healthy: bool)
        ensures
            (final(self).failures(), final(self).successes()) == after_check(
                (old(self).failures(), old(self).successes()),
                true,
            ),
            final(self).failures() == 0,
            final(self).successes() == count_up(old(self).successes()),
            final(self).config() == old(self).config(),
            healthy == (final(self).successes() >= old(self).config().healthy_threshold),
    {
        self.consecutive_failures = 0;
        self.consecutive_successes = self.consecutive_successes.saturating_add(1);
        self.consecutive_successes >= self.healthy_threshold
    }

    /// Notes a check that failed; the answer says whether the endpoint is to
    /// be marked unhealthy.
    pub fn record_failure(&mut self) -> (unhealthy: bool)
        ensures
            (final(self).failures(), final(self).successes()) == after_check(
                (old(self).failures(), old(self).successes()),
                false,
            ),
            final(self).successes() == 0,
            final(self).failures() == count_up(old(self).failures()),
            final(self).config() == old(self).config(),
            unhealthy == (final(self).failures() >= old(self).config().unhealthy_threshold),
    {
        self.consecutive_successes = 0;
        self.consecutive_failures = self.consecutive_failures.saturating_add(1);
        self.consecutive_failures >= self.unhealthy_threshold
    }

    /// Failures in a row.
    pub fn failure_count(&self) -> (n: u32)
        ensures
            n == self.failures(),
    {
        self.consecutive_failures
    }

    /// Successes in a row.
    pub fn success_count(&self) -> (n: u32)
        ensures
            n == self.successes(),
    {
        self.consecutive_successes
    }
}

/// Failures and successes in a row after a check.
pub open spec fn after_check(counts: (u32, u32), ok: bool) -> (u32, u32) {
    if ok {
        (0, count_up(counts.1))
    } else {
        (count_up(counts.0), 0)
    }
}

/// A check that passes counts as a success and clears the failures, and one
/// that fails the other way round.
pub proof fn checks_are_counted(counts: (u32, u32))
    requires
        counts.0 < u32::MAX,
        counts.1 < u32::MAX,
    ensures
        after_check(counts, true).0 == 0,
        after_check(counts, true).1 == counts.1 + 1,
        after_check(counts, false).0 == counts.0 + 1,
        after_check(counts, false).1 == 0,
{
}

/// Failures and successes are never both in a row.
pub proof fn one_run_at_a_time(counts: (u32, u32), ok: bool)
    ensures
        after_check(counts, ok).0 == 0 || after_check(counts, ok).1 == 0,
{
}

} // verus!
