//! The older retrying wrapper around a single provider: its settings and the
//! decision it takes after each attempt.

use crate::config::ProviderConfig;
use crate::error::{AgentError, ModelError};
use crate::registry::ProviderKind;
use crate::text::to_chars;
use vstd::prelude::*;

verus! {

/// A provider with retries (exponential backoff) and a circuit breaker.
#[derive(Debug, Clone, Copy)]
pub struct ProviderWrapper {
    pub provider: ProviderKind,
    pub max_retries: usize,
    pub retry_delay_ms: u64,
    pub breaker_threshold: usize,
    pub breaker_timeout_secs: u64,
}

/// Whether `s` holds `p` as a contiguous piece.
pub open spec fn contains_text(s: Seq<char>, p: Seq<char>) -> bool {
    exists|i: int| 0 <= i && i + p.len() <= s.len() && #[trigger] s.subrange(i, i + p.len()) == p
}

/// What one attempt came to, as the loop sees it.
pub enum WrapperStep {
    /// Return the successful response.
    Done,
    /// Sleep this long, then try again.
    Retry { delay_ms: u64 },
    /// Give up with this error.
    Fail { error: ModelError },
}

/// An API error whose message mentions status 429 is reported as rate
/// limiting; any other error is left as it is.
pub open spec fn spec_converted(e: ModelError) -> ModelError {
    match e {
        ModelError::ApiError(m) => if contains_text(m@, seq!['4', '2', '9']) {
            ModelError::RateLimited(m)
        } else {
            e
        },
        _ => e,
    }
}

fn mentions_429(s: &String) -> (b: bool)
    ensures
        b == contains_text(s@, seq!['4', '2', '9']),
{
    let v = to_chars(s.as_str());
    let ghost p = seq!['4', '2', '9'];
    if v.len() < 3 {
        assert forall|i: int| 0 <= i && i + 3 <= v@.len() implies #[trigger] v@.subrange(i, i + 3) != p by {}
        return false;
    }
    let mut i: usize = 0;
    while i < v.len() - 2
        invariant
            v@ == s@,
            p == seq!['4', '2', '9'],
            v@.len() >= 3,
            i <= v@.len() - 2,
            forall|k: int| 0 <= k < i ==> #[trigger] v@.subrange(k, k + 3) != p,
        decreases v.len() - i,
    {
        if v[i] == '4' && v[i + 1] == '2' && v[i + 2] == '9' {
            assert(v@.subrange(i as int, i + 3) =~= p);
            return true;
        }
        assert(v@.subrange(i as int, i + 3)[0] == v@[i as int]);
        assert(v@.subrange(i as int, i + 3)[1] == v@[i + 1]);
        assert(v@.subrange(i as int, i + 3)[2] == v@[i + 2]);
        i += 1;
    }
    false
}

/// Three retries from 500 ms; a breaker of five failures and thirty seconds.
pub open spec fn default_wrapper(provider: ProviderKind) -> ProviderWrapper {
    ProviderWrapper { provider, max_retries: 3, retry_delay_ms: 500, breaker_threshold: 5, breaker_timeout_secs: 30 }
}

impl ProviderWrapper {
    /// Three retries from 500 ms, and a breaker that opens after five
    /// consecutive failures for thirty seconds.
    pub fn new(provider: ProviderKind) -> (w: Self)
        ensures
            w == default_wrapper(provider),
    {
        ProviderWrapper {
            provider,
            max_retries: 3,
            retry_delay_ms: 500,
            breaker_threshold: 5,
            breaker_timeout_secs: 30,
        }
    }

    pub fn openai() -> (w: Self)
        ensures
            w == default_wrapper(ProviderKind::OpenAI),
    {
        ProviderWrapper::new(ProviderKind::OpenAI)
    }

    pub fn anthropic() -> (w: Self)
        ensures
            w == default_wrapper(ProviderKind::Anthropic),
    {
        ProviderWrapper::new(ProviderKind::Anthropic)
    }

    pub fn gemini() -> (w: Self)
        ensures
            w == default_wrapper(ProviderKind::Gemini),
    {
        ProviderWrapper::new(ProviderKind::Gemini)
    }

    /// The wrapper for a configured provider; a provider name that is none
    /// of the built-in ones is refused.
    pub fn from_config(config: &ProviderConfig) -> (r: Result<Self, AgentError>)
        ensures
            config.name@ == "openai"@ ==> r == Ok::<Self, AgentError>(default_wrapper(ProviderKind::OpenAI)),
            config.name@ == "anthropic"@ ==> r == Ok::<Self, AgentError>(default_wrapper(ProviderKind::Anthropic)),
            config.name@ == "gemini"@ ==> r == Ok::<Self, AgentError>(default_wrapper(ProviderKind::Gemini)),
            !(config.name@ == "openai"@ || config.name@ == "anthropic"@ || config.name@ == "gemini"@) ==> (r matches Err(
                AgentError::Model(ModelError::UnknownProvider(n)),
            ) && n@ == config.name@),
    {
        proof {
            reveal_strlit("openai");
            reveal_strlit("anthropic");
            reveal_strlit("gemini");
            assert("openai"@.len() == 6 && "anthropic"@.len() == 9 && "gemini"@.len() == 6);
            assert("gemini"@[0] != "openai"@[0]);
        }
        let openai = String::from_str("openai");
        let anthropic = String::from_str("anthropic");
        let gemini = String::from_str("gemini");
        if config.name == openai {
            Ok(ProviderWrapper::new(ProviderKind::OpenAI))
        } else if config.name == anthropic {
            Ok(ProviderWrapper::new(ProviderKind::Anthropic))
        } else if config.name == gemini {
            Ok(ProviderWrapper::new(ProviderKind::Gemini))
        } else {
            Err(AgentError::Model(ModelError::UnknownProvider(config.name.clone())))
        }
    }

    pub fn with_retries(self, max_retries: usize, retry_delay_ms: u64) -> (w: Self)
        ensures
            w == (ProviderWrapper { max_retries, retry_delay_ms, ..self }),
    {
        ProviderWrapper { max_retries, retry_delay_ms, ..self }
    }

    pub fn with_circuit_breaker(self, threshold: usize, timeout_secs: u64) -> (w: Self)
        ensures
            w == (ProviderWrapper { breaker_threshold: threshold, breaker_timeout_secs: timeout_secs, ..self }),
    {
        ProviderWrapper { breaker_threshold: threshold, breaker_timeout_secs: timeout_secs, ..self }
    }

    /// A fresh breaker with this wrapper's settings.
    pub fn new_circuit_breaker(&self) -> (b: crate::circuit::CircuitBreaker)
        ensures
            b@.threshold == self.breaker_threshold,
            b@.timeout_secs == self.breaker_timeout_secs,
            b@.state == crate::circuit::CircuitState::Closed,
            b@.consecutive_failures == 0,
    {
        crate::circuit::CircuitBreaker::new(self.breaker_threshold, self.breaker_timeout_secs)
    }
}

/// Rate limiting and API errors are worth another try.
pub fn should_retry(error: &ModelError) -> (b: bool)
    ensures
        b == (error is RateLimited || error is ApiError),
{
    match error {
        ModelError::RateLimited(_) => true,
        ModelError::ApiError(_) => true,
        _ => false,
    }
}

pub fn convert_to_rate_limited(error: ModelError) -> (e: ModelError)
    ensures
        e == spec_converted(error),
{
    match error {
        ModelError::ApiError(m) => {
            if mentions_429(&m) {
                ModelError::RateLimited(m)
            } else {
                ModelError::ApiError(m)
            }
        },
        other => other,
    }
}

/// Whether attempt `attempt` ending with `outcome` is followed by another:
/// it failed with an error worth a retry, and attempts remain.
pub open spec fn retries_after(w: ProviderWrapper, attempt: usize, outcome: Result<(), ModelError>) -> bool {
    outcome matches Err(e) && (e is RateLimited || e is ApiError) && attempt < w.max_retries
}

/// `retry_delay_ms` doubled `attempt` times.
pub open spec fn wrapper_delay(retry_delay_ms: int, attempt: nat) -> int {
    retry_delay_ms * crate::connection::pow2(attempt) as int
}

impl ProviderWrapper {
    /// The step after attempt `attempt` (from 0) ended with `outcome`: a
    /// success is returned; an error that is not worth a retry, or one on
    /// the last attempt, fails (an API error naming 429 as rate limiting);
    /// otherwise the call is repeated after the doubled delay.
    pub fn step(&self, attempt: usize, outcome: Result<(), ModelError>) -> (s: WrapperStep)
        requires
            attempt <= self.max_retries,
            retries_after(*self, attempt, outcome) ==> crate::connection::pow2(attempt as nat) <= u64::MAX
                && wrapper_delay(self.retry_delay_ms as int, attempt as nat) <= u64::MAX,
        ensures
            match outcome {
                Ok(()) => s is Done,
                Err(e) => if !(e is RateLimited || e is ApiError) || attempt == self.max_retries {
                    s matches WrapperStep::Fail { error } && error == spec_converted(e)
                } else {
                    s matches WrapperStep::Retry { delay_ms } && delay_ms == wrapper_delay(
                        self.retry_delay_ms as int,
                        attempt as nat,
                    )
                },
            },
    {
        match outcome {
            Ok(()) => WrapperStep::Done,
            Err(e) => {
                if !should_retry(&e) || attempt == self.max_retries {
                    WrapperStep::Fail { error: convert_to_rate_limited(e) }
                } else {
                    let mut p: u64 = 1;
                    let mut i: usize = 0;
                    while i < attempt
                        invariant
                            i <= attempt,
                            p == crate::connection::pow2(i as nat),
                            crate::connection::pow2(attempt as nat) <= u64::MAX,
                        decreases attempt - i,
                    {
                        proof {
                            crate::connection::lemma_pow2_mono((i + 1) as nat, attempt as nat);
                        }
                        p = p * 2;
                        i += 1;
                    }
                    WrapperStep::Retry { delay_ms: self.retry_delay_ms * p }
                }
            },
        }
    }

    /// Whether a call may start: an open breaker whose quiet period is not
    /// over refuses it with "Circuit breaker is open, retry later".
    pub fn check_breaker(&self, breaker: &mut crate::circuit::CircuitBreaker) -> (r: Result<(), ModelError>)
        ensures
            old(breaker)@.state != crate::circuit::CircuitState::Open ==> r is Ok && final(breaker)@ == old(breaker)@,
            r is Ok && old(breaker)@.state == crate::circuit::CircuitState::Open ==> old(breaker)@.has_failed
                && final(breaker)@ == (crate::circuit::BreakerView {
                state: crate::circuit::CircuitState::HalfOpen,
                ..old(breaker)@
            }),
            r is Err ==> (r matches Err(ModelError::CircuitOpen(m)) && m@ == "Circuit breaker is open, retry later"@)
                && final(breaker)@ == old(breaker)@,
    {
        if breaker.can_execute() {
            Ok(())
        } else {
            Err(ModelError::CircuitOpen(String::from_str("Circuit breaker is open, retry later")))
        }
    }

    /// The step after attempt `attempt`, with the breaker told of it: a
    /// success is counted as one, a final failure as a failure, and an attempt
    /// that is retried leaves the breaker as it is.
    pub fn settle(
        &self,
        breaker: &mut crate::circuit::CircuitBreaker,
        attempt: usize,
        outcome: Result<(), ModelError>,
    ) -> (s: WrapperStep)
        requires
            attempt <= self.max_retries,
            retries_after(*self, attempt, outcome) ==> crate::connection::pow2(attempt as nat) <= u64::MAX
                && wrapper_delay(self.retry_delay_ms as int, attempt as nat) <= u64::MAX,
            outcome is Err ==> old(breaker)@.consecutive_failures < usize::MAX,
        ensures
            match outcome {
                Ok(()) => s is Done,
                Err(e) => if !retries_after(*self, attempt, outcome) {
                    s matches WrapperStep::Fail { error } && error == spec_converted(e)
                } else {
                    s matches WrapperStep::Retry { delay_ms } && delay_ms == wrapper_delay(
                        self.retry_delay_ms as int,
                        attempt as nat,
                    )
                },
            },
            s is Done ==> final(breaker)@ == crate::circuit::success_step(old(breaker)@),
            s is Fail ==> final(breaker)@ == crate::circuit::failure_step(old(breaker)@),
            s is Retry ==> final(breaker)@ == old(breaker)@,
    {
        let s = self.step(attempt, outcome);
        match s {
            WrapperStep::Done => breaker.record_success(),
            WrapperStep::Fail { .. } => breaker.record_failure(),
            WrapperStep::Retry { .. } => {},
        }
        s
    }

    /// The old entry point, which no longer sends anything.
    pub fn generate(&self) -> (r: Result<crate::model::GenerateResponse, ModelError>)
        ensures
            r matches Err(ModelError::ApiError(m)) && m@
                == "ProviderWrapper.generate() is not implemented; use ConnectionManager"@,
    {
        Err(
            ModelError::ApiError(
                String::from_str("ProviderWrapper.generate() is not implemented; use ConnectionManager"),
            ),
        )
    }
}

} // verus!
