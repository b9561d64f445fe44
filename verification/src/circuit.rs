//! Circuit breaker guarding a provider endpoint: consecutive failures open it,
//! a quiet period lets one probe through, a success closes it again.

use vstd::prelude::*;

verus! {

/// A point in time from the monotonic clock.
#[verifier::external_type_specification]
#[verifier::external_body]
pub struct ExInstant(std::time::Instant);

/// `Instant::now`: the current reading of the monotonic clock.
#[verifier::external_body]
pub(crate) fn instant_now() -> std::time::Instant {
    std::time::Instant::now()
}

/// `Instant::elapsed`: the time passed since `t`. Depends on the clock, so
/// nothing is promised about it.
#[verifier::external_body]
pub(crate) fn elapsed_since(t: &std::time::Instant) -> std::time::Duration {
    t.elapsed()
}

/// `Duration::as_nanos`: the span in whole nanoseconds. A span read from
/// the clock is whatever the clock gave, so nothing is promised about it.
#[verifier::external_body]
pub(crate) fn duration_nanos(d: &std::time::Duration) -> u128 {
    d.as_nanos()
}

/// `secs` seconds in nanoseconds.
pub open spec fn nanos_in(secs: int) -> int {
    secs * 1_000_000_000
}

pub(crate) fn secs_as_nanos(secs: u64) -> (n: u128)
    ensures
        n == nanos_in(secs as int),
{
    assert(secs as int * 1_000_000_000 <= 0xffff_ffff_ffff_ffff * 1_000_000_000) by (nonlinear_arith)
        requires
            secs <= 0xffff_ffff_ffff_ffff,
    ;
    (secs as u128) * 1_000_000_000u128
}

#[derive(Debug, Clone, Copy, PartialEq, Eq, Structural)]
pub enum CircuitState {
    Closed,
    Open,
    HalfOpen,
}

/// What the breaker's decisions depend on: everything but the clock reading
/// of the last failure, of which only its presence counts.
pub struct BreakerView {
    pub state: CircuitState,
    pub consecutive_failures: nat,
    pub threshold: nat,
    pub has_failed: bool,
    pub timeout_secs: nat,
}

pub struct CircuitBreaker {
    state: CircuitState,
    consecutive_failures: usize,
    threshold: usize,
    last_failure: Option<std::time::Instant>,
    timeout_secs: u64,
}

impl View for CircuitBreaker {
    type V = BreakerView;

    closed spec fn view(&self) -> BreakerView {
        BreakerView {
            state: self.state,
            consecutive_failures: self.consecutive_failures as nat,
            threshold: self.threshold as nat,
            has_failed: self.last_failure is Some,
            timeout_secs: self.timeout_secs as nat,
        }
    }
}

/// The breaker after one more failure: the count goes up, and the breaker
/// opens once the count reaches the threshold.
pub open spec fn failure_step(b: BreakerView) -> BreakerView {
    BreakerView {
        state: if b.consecutive_failures + 1 >= b.threshold {
            CircuitState::Open
        } else {
            b.state
        },
        consecutive_failures: b.consecutive_failures + 1,
        has_failed: true,
        ..b
    }
}

/// The breaker after a success: closed, with no failures counted.
pub open spec fn success_step(b: BreakerView) -> BreakerView {
    BreakerView { state: CircuitState::Closed, consecutive_failures: 0, ..b }
}

/// The breaker after `k` failures in a row.
pub open spec fn failures(b: BreakerView, k: nat) -> BreakerView
    decreases k,
{
    if k == 0 {
        b
    } else {
        failure_step(failures(b, (k - 1) as nat))
    }
}

impl CircuitBreaker {
    pub fn new(threshold: usize, timeout_secs: u64) -> (b: Self)
        ensures
            b@ == (BreakerView {
                state: CircuitState::Closed,
                consecutive_failures: 0,
                threshold: threshold as nat,
                has_failed: false,
                timeout_secs: timeout_secs as nat,
            }),
    {
        CircuitBreaker {
            state: CircuitState::Closed,
            consecutive_failures: 0,
            threshold,
            last_failure: None,
            timeout_secs,
        }
    }

    pub fn state(&self) -> (s: CircuitState)
        ensures
            s == self@.state,
    {
        self.state
    }

    pub fn consecutive_failures(&self) -> (n: usize)
        ensures
            n == self@.consecutive_failures,
    {
        self.consecutive_failures
    }

    /// Whether a call may go out now. A closed or half-open breaker lets it
    /// through. An open one does so only once more than `timeout_secs` have
    /// passed since the last failure, and then turns half-open; before that,
    /// or with no failure on record, it refuses and stays as it is.
    pub fn can_execute(&mut self) -> (ok: bool)
        ensures
            old(self)@.state != CircuitState::Open ==> ok && final(self)@ == old(self)@,
            old(self)@.state == CircuitState::Open ==> {
                &&& ok ==> old(self)@.has_failed && final(self)@ == (BreakerView {
                    state: CircuitState::HalfOpen,
                    ..old(self)@
                })
                &&& !ok ==> final(self)@ == old(self)@
            },
    {
        match self.state {
            CircuitState::Closed => true,
            CircuitState::HalfOpen => true,
            CircuitState::Open => {
                let since_failure = match &self.last_failure {
                    Some(t) => duration_nanos(&elapsed_since(t)),
                    None => 0,
                };
                self.after_quiet_period(since_failure)
            },
        }
    }

    /// The decision of an open breaker once the clock has been read:
    /// `since_failure` is the time, in nanoseconds, that has passed since the
    /// last failure. The quiet period is over when that is more than
    /// `timeout_secs` seconds; a breaker with no failure on record refuses.
    pub fn after_quiet_period(&mut self, since_failure: u128) -> (ok: bool)
        requires
            old(self)@.state == CircuitState::Open,
        ensures
            ok == (old(self)@.has_failed && since_failure > nanos_in(old(self)@.timeout_secs as int)),
            ok ==> final(self)@ == (BreakerView { state: CircuitState::HalfOpen, ..old(self)@ }),
            !ok ==> final(self)@ == old(self)@,
    {
        if self.last_failure.is_some() && since_failure > secs_as_nanos(self.timeout_secs) {
            self.state = CircuitState::HalfOpen;
            true
        } else {
            false
        }
    }

    pub fn record_success(&mut self)
        ensures
            final(self)@ == success_step(old(self)@),
    {
        self.consecutive_failures = 0;
        self.state = CircuitState::Closed;
    }

    /// Counts a failure, stamped with the current time.
    pub fn record_failure(&mut self)
        requires
            old(self)@.consecutive_failures < usize::MAX,
        ensures
            final(self)@ == failure_step(old(self)@),
    {
        self.consecutive_failures = self.consecutive_failures + 1;
        self.last_failure = Some(instant_now());
        if self.consecutive_failures >= self.threshold {
            self.state = CircuitState::Open;
        }
    }
}

/// A closed breaker with no failures counted opens after `threshold` failures
/// in a row, and stays open through any further ones.
pub proof fn lemma_threshold_failures_open(b: BreakerView, k: nat)
    requires
        b.state == CircuitState::Closed,
        b.consecutive_failures == 0,
        k >= b.threshold,
        k >= 1,
    ensures
        failures(b, k).state == CircuitState::Open,
        failures(b, k).consecutive_failures == k,
    decreases k,
{
    lemma_failure_count(b, k);
    lemma_failure_count(b, (k - 1) as nat);
}

/// `k` failures add `k` to the count, and the breaker stays closed while the
/// count is below the threshold.
pub proof fn lemma_failure_count(b: BreakerView, k: nat)
    requires
        b.state == CircuitState::Closed,
    ensures
        failures(b, k).consecutive_failures == b.consecutive_failures + k,
        failures(b, k).threshold == b.threshold,
        b.consecutive_failures + k < b.threshold ==> failures(b, k).state == CircuitState::Closed,
        k >= 1 && b.consecutive_failures + k >= b.threshold ==> failures(b, k).state
            == CircuitState::Open,
    decreases k,
{
    if k > 0 {
        lemma_failure_count(b, (k - 1) as nat);
    }
}

/// Fewer failures in a row than the threshold leave a closed breaker closed.
pub proof fn lemma_below_threshold_stays_closed(b: BreakerView, k: nat)
    requires
        b.state == CircuitState::Closed,
        b.consecutive_failures + k < b.threshold,
    ensures
        failures(b, k).state == CircuitState::Closed,
{
    lemma_failure_count(b, k);
}

/// A success after any run of failures closes the breaker and clears the count.
pub proof fn lemma_success_resets(b: BreakerView, k: nat)
    ensures
        success_step(failures(b, k)).state == CircuitState::Closed,
        success_step(failures(b, k)).consecutive_failures == 0,
{
}

} // verus!
