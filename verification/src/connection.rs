//! A provider connection's settings and the decisions of its request loop:
//! how long to wait before a retry, when to fall back, when to give up.

use crate::config::{Config, ProviderConfig, Settings};
use crate::error::{AgentError, ModelError};
use crate::memory::{conversation, is_system, spec_content_as_text, Message, MessageRole};
use crate::model::{GenerateRequest, ToolDefinition};
use crate::registry::{
    kind_resolution, outcome_is, registered, ProviderKind, ProviderRegistry, Resolution,
};
use crate::text::{append_str, join_with, to_chars, trim_range};
use vstd::prelude::*;

verus! {

pub open spec fn pow2(e: nat) -> nat
    decreases e,
{
    if e == 0 {
        1
    } else {
        2 * pow2((e - 1) as nat)
    }
}

/// `x * y`, or `u64::MAX` when the product does not fit.
pub open spec fn sat_mul(x: int, y: int) -> int {
    if x * y > u64::MAX {
        u64::MAX as int
    } else {
        x * y
    }
}

fn saturating_mul_u64(x: u64, y: u64) -> (r: u64)
    ensures
        r == sat_mul(x as int, y as int),
{
    match x.checked_mul(y) {
        Some(p) => p,
        None => u64::MAX,
    }
}

pub proof fn lemma_pow2_mono(i: nat, j: nat)
    requires
        i <= j,
    ensures
        pow2(i) <= pow2(j),
    decreases j,
{
    if i < j {
        lemma_pow2_mono(i, (j - 1) as nat);
    }
}

/// How many times a failed call is repeated, and the base delay between tries.
#[derive(Debug, Clone, Copy)]
pub struct RetryPolicy {
    pub max_retries: usize,
    pub retry_delay_ms: u64,
}

/// The longest pause a server's `Retry-After` may impose, in milliseconds.
pub open spec fn retry_after_cap() -> int {
    60_000
}

impl RetryPolicy {
    /// Exponential backoff: the base delay doubled once per attempt, the
    /// doubling stopping at the tenth, and the product saturating.
    pub open spec fn spec_backoff(self, attempt: nat) -> int {
        sat_mul(self.retry_delay_ms as int, pow2(if attempt < 10 { attempt } else { 10 }) as int)
    }

    pub fn backoff_ms(&self, attempt: usize) -> (d: u64)
        ensures
            d == self.spec_backoff(attempt as nat),
    {
        let e: usize = if attempt < 10 {
            attempt
        } else {
            10
        };
        let mut p: u64 = 1;
        let mut i: usize = 0;
        while i < e
            invariant
                i <= e <= 10,
                p == pow2(i as nat),
            decreases e - i,
        {
            proof {
                lemma_pow2_mono(i as nat, 9);
                assert(pow2(9) == 512) by {
                    reveal_with_fuel(pow2, 10);
                }
            }
            p = p * 2;
            i += 1;
        }
        saturating_mul_u64(self.retry_delay_ms, p)
    }

    /// A rate-limited call waits four times the usual backoff when the
    /// server does not say how long.
    pub fn rate_limit_backoff_ms(&self, attempt: usize) -> (d: u64)
        ensures
            d == sat_mul(self.spec_backoff(attempt as nat), 4),
    {
        saturating_mul_u64(self.backoff_ms(attempt), 4)
    }
}

/// A server-provided `Retry-After` delay, capped so a hostile or
/// misconfigured server cannot stall the retry loop.
pub fn clamp_retry_after_ms(ms: u64) -> (r: u64)
    ensures
        r == if ms < retry_after_cap() {
            ms as int
        } else {
            retry_after_cap()
        },
{
    if ms < 60_000 {
        ms
    } else {
        60_000
    }
}

/// Value of a decimal numeral, with an optional leading `+`, as `u64::from_str` reads it.
pub open spec fn numeral_value(s: Seq<char>) -> Option<int> {
    let digits = unsigned_part(s);
    if digits.len() > 0 && all_digits(digits) && crate::bind::dec_value(digits) <= u64::MAX {
        Some(crate::bind::dec_value(digits))
    } else {
        None
    }
}

/// A numeral without its optional leading `+`.
pub open spec fn unsigned_part(s: Seq<char>) -> Seq<char> {
    if s.len() > 0 && s[0] == '+' {
        s.drop_first()
    } else {
        s
    }
}

pub open spec fn all_digits(f: Seq<char>) -> bool {
    forall|i: int| 0 <= i < f.len() ==> crate::bind::is_digit(#[trigger] f[i])
}

/// The pause a `Retry-After` header asks for: whole seconds, read after
/// trimming whitespace, turned into milliseconds (saturating) and capped.
/// A header that is not a number asks for nothing.
pub open spec fn spec_retry_after(header: Seq<char>) -> Option<int> {
    match numeral_value(crate::text::trim(header)) {
        Some(secs) => {
            let ms = sat_mul(secs, 1000);
            Some(if ms < retry_after_cap() { ms } else { retry_after_cap() })
        },
        None => None,
    }
}

pub fn retry_after_ms(header: &str) -> (r: Option<u64>)
    ensures
        match r {
            Some(x) => spec_retry_after(header@) == Some(x as int),
            None => spec_retry_after(header@) is None,
        },
{
    let v = to_chars(header);
    assert(v@.subrange(0, v@.len() as int) =~= v@);
    let (a, b) = trim_range(&v, 0, v.len());
    let ghost t = v@.subrange(a as int, b as int);
    let mut i = a;
    if i < b && v[i] == '+' {
        i += 1;
    }
    let ghost digits = v@.subrange(i as int, b as int);
    assert(digits =~= unsigned_part(t));
    if i == b {
        return None;
    }
    let start = i;
    let mut val: u64 = 0;
    while i < b
        invariant
            start <= i <= b <= v.len(),
            digits == v@.subrange(start as int, b as int),
            t == crate::text::trim(header@),
            digits == unsigned_part(t),
            forall|k: int| 0 <= k < i - start ==> crate::bind::is_digit(#[trigger] digits[k]),
            val as int == crate::bind::dec_value(digits.take(i - start)),
        decreases b - i,
    {
        let c = v[i];
        assert(c == digits[i - start]);
        if !('0' <= c && c <= '9') {
            assert(!crate::bind::is_digit(digits[i - start]));
            return None;
        }
        assert(digits.take(i - start + 1).drop_last() =~= digits.take(i - start));
        let d = (c as u32 - '0' as u32) as u64;
        match val.checked_mul(10) {
            Some(m) => match m.checked_add(d) {
                Some(x) => {
                    val = x;
                },
                None => {
                    proof {
                        if all_digits(digits) {
                            lemma_dec_prefix_bound(digits, i - start + 1);
                        }
                    }
                    return None;
                },
            },
            None => {
                proof {
                    if all_digits(digits) {
                        lemma_dec_prefix_bound(digits, i - start + 1);
                    }
                }
                return None;
            },
        }
        i += 1;
    }
    assert(digits.take(digits.len() as int) =~= digits);
    let ms = saturating_mul_u64(val, 1000);
    Some(clamp_retry_after_ms(ms))
}

/// The value of a digit string is at least that of any of its prefixes.
proof fn lemma_dec_prefix_bound(f: Seq<char>, k: int)
    requires
        0 <= k <= f.len(),
        forall|i: int| 0 <= i < f.len() ==> crate::bind::is_digit(#[trigger] f[i]),
    ensures
        crate::bind::dec_value(f) >= crate::bind::dec_value(f.take(k)),
    decreases f.len() - k,
{
    if k < f.len() {
        lemma_dec_prefix_bound(f, k + 1);
        assert(f.take(k + 1).drop_last() =~= f.take(k));
        assert(crate::bind::is_digit(f[k]));
        lemma_dec_nonneg(f.take(k));
    } else {
        assert(f.take(k) =~= f);
    }
}

proof fn lemma_dec_nonneg(f: Seq<char>)
    requires
        forall|i: int| 0 <= i < f.len() ==> crate::bind::is_digit(#[trigger] f[i]),
    ensures
        crate::bind::dec_value(f) >= 0,
    decreases f.len(),
{
    if f.len() > 0 {
        assert(crate::bind::is_digit(f.last()));
        lemma_dec_nonneg(f.drop_last());
    }
}

/// What one HTTP attempt came to.
pub enum AttemptOutcome {
    /// The request could not be sent.
    SendFailed { message: String },
    /// A reply arrived but its body could not be read.
    BodyUnreadable { message: String },
    /// The server answered 429; `retry_after` is the `Retry-After` header's text.
    RateLimited { body: String, retry_after: Option<String> },
    /// Any other status outside 2xx; `status` as the status line shows it.
    HttpError { status: String, body: String },
    /// A 2xx reply whose body the provider parsed.
    Parsed,
    /// A 2xx reply whose body the provider could not parse.
    Unparsable { error: ModelError },
}

/// How the circuit breaker takes an attempt.
#[derive(Debug, Clone, Copy, PartialEq, Eq, Structural)]
pub enum BreakerUpdate {
    Unchanged,
    Success,
    Failure,
}

/// What the request loop does next.
pub enum Step {
    /// Wait this long, then try again.
    Retry { delay_ms: u64 },
    /// Hand the request to the fallback connection.
    Fallback,
    /// Return the parsed response.
    Finish,
    /// Return this error.
    Fail { error: ModelError },
    /// No retry is left; this error is the last one seen.
    Exhausted { error: ModelError },
}

pub struct Decision {
    pub breaker: BreakerUpdate,
    pub step: Step,
}

/// Whether `e` is `ApiError` with the given message.
pub open spec fn api_error_is(e: ModelError, msg: Seq<char>) -> bool {
    e matches ModelError::ApiError(m) && m@ == msg
}

/// The decision after attempt number `attempt` (counting from 0) of a loop
/// that may retry `max_retries` times.
///
/// Transport failures and 429s count against the breaker and are retried
/// while attempts remain (a 429 waits for `Retry-After` when the server sent
/// a number, else four times the backoff). Another error status counts
/// against the breaker and goes to the fallback when there is one, else
/// fails. An unreadable body fails without touching the breaker. A parsed
/// reply closes the breaker and finishes; an unparsable one counts against
/// it and fails.
pub open spec fn decision_ok(policy: RetryPolicy, attempt: nat, outcome: AttemptOutcome, has_fallback: bool, d: Decision) -> bool {
    let more = attempt < policy.max_retries;
    match outcome {
        AttemptOutcome::SendFailed { message } => {
            &&& d.breaker == BreakerUpdate::Failure
            &&& if more {
                d.step matches Step::Retry { delay_ms } && delay_ms == policy.spec_backoff(attempt)
            } else {
                d.step matches Step::Exhausted { error: e } && api_error_is(e, message@)
            }
        },
        AttemptOutcome::BodyUnreadable { message } => {
            &&& d.breaker == BreakerUpdate::Unchanged
            &&& d.step matches Step::Fail { error: e } && api_error_is(e, message@)
        },
        AttemptOutcome::RateLimited { body, retry_after } => {
            &&& d.breaker == BreakerUpdate::Failure
            &&& if more {
                d.step matches Step::Retry { delay_ms } && delay_ms == match retry_after {
                    Some(h) => match spec_retry_after(h@) {
                        Some(ms) => ms,
                        None => sat_mul(policy.spec_backoff(attempt), 4),
                    },
                    None => sat_mul(policy.spec_backoff(attempt), 4),
                }
            } else {
                d.step matches Step::Exhausted { error: e } && e matches ModelError::RateLimited(m)
                    && m@ == body@
            }
        },
        AttemptOutcome::HttpError { status, body } => {
            &&& d.breaker == BreakerUpdate::Failure
            &&& if has_fallback {
                d.step is Fallback
            } else {
                d.step matches Step::Fail { error: e } && api_error_is(e, "HTTP "@ + status@ + ": "@ + body@)
            }
        },
        AttemptOutcome::Parsed => d.breaker == BreakerUpdate::Success && d.step is Finish,
        AttemptOutcome::Unparsable { error } => {
            &&& d.breaker == BreakerUpdate::Failure
            &&& d.step matches Step::Fail { error: e } && e == error
        },
    }
}

/// The step once every attempt has been used: the fallback when there is one,
/// else the last error seen (or "No response" if there was none).
pub open spec fn exhausted_ok(last_error: Option<ModelError>, has_fallback: bool, s: Step) -> bool {
    if has_fallback {
        s is Fallback
    } else {
        match last_error {
            Some(e) => s matches Step::Fail { error: f } && f == e,
            None => s matches Step::Fail { error: f } && api_error_is(f, "No response"@),
        }
    }
}

/// The step when the breaker refuses the call: the fallback when there is
/// one, else a `CircuitOpen` error.
pub open spec fn circuit_open_ok(has_fallback: bool, s: Step) -> bool {
    if has_fallback {
        s is Fallback
    } else {
        s matches Step::Fail { error: ModelError::CircuitOpen(m) } && m@ == "Circuit breaker is open"@
    }
}

impl RetryPolicy {
    pub fn decide(&self, attempt: usize, outcome: AttemptOutcome, has_fallback: bool) -> (d: Decision)
        ensures
            decision_ok(*self, attempt as nat, outcome, has_fallback, d),
    {
        let more = attempt < self.max_retries;
        match outcome {
            AttemptOutcome::SendFailed { message } => {
                let step = if more {
                    Step::Retry { delay_ms: self.backoff_ms(attempt) }
                } else {
                    Step::Exhausted { error: ModelError::ApiError(message) }
                };
                Decision { breaker: BreakerUpdate::Failure, step }
            },
            AttemptOutcome::BodyUnreadable { message } => Decision {
                breaker: BreakerUpdate::Unchanged,
                step: Step::Fail { error: ModelError::ApiError(message) },
            },
            AttemptOutcome::RateLimited { body, retry_after } => {
                let step = if more {
                    let server = match &retry_after {
                        Some(h) => retry_after_ms(h.as_str()),
                        None => None,
                    };
                    let delay_ms = match server {
                        Some(ms) => ms,
                        None => self.rate_limit_backoff_ms(attempt),
                    };
                    Step::Retry { delay_ms }
                } else {
                    Step::Exhausted { error: ModelError::RateLimited(body) }
                };
                Decision { breaker: BreakerUpdate::Failure, step }
            },
            AttemptOutcome::HttpError { status, body } => {
                let step = if has_fallback {
                    Step::Fallback
                } else {
                    let mut msg = String::from_str("HTTP ");
                    append_str(&mut msg, status.as_str());
                    append_str(&mut msg, ": ");
                    append_str(&mut msg, body.as_str());
                    assert(msg@ =~= "HTTP "@ + status@ + ": "@ + body@);
                    Step::Fail { error: ModelError::ApiError(msg) }
                };
                Decision { breaker: BreakerUpdate::Failure, step }
            },
            AttemptOutcome::Parsed => Decision { breaker: BreakerUpdate::Success, step: Step::Finish },
            AttemptOutcome::Unparsable { error } => Decision {
                breaker: BreakerUpdate::Failure,
                step: Step::Fail { error },
            },
        }
    }
}

pub fn after_retries(last_error: Option<ModelError>, has_fallback: bool) -> (s: Step)
    ensures
        exhausted_ok(last_error, has_fallback, s),
{
    if has_fallback {
        return Step::Fallback;
    }
    match last_error {
        Some(e) => Step::Fail { error: e },
        None => Step::Fail { error: ModelError::ApiError(String::from_str("No response")) },
    }
}

/// A 429 answer counts against the breaker and is never reported as a
/// generic API error: while attempts remain it is retried, and once none is
/// left the loop gives up with `RateLimited` carrying the response body.
pub proof fn lemma_rate_limited_decision(
    policy: RetryPolicy,
    attempt: nat,
    body: String,
    retry_after: Option<String>,
    has_fallback: bool,
    d: Decision,
)
    requires
        decision_ok(policy, attempt, AttemptOutcome::RateLimited { body, retry_after }, has_fallback, d),
    ensures
        d.breaker == BreakerUpdate::Failure,
        attempt < policy.max_retries ==> d.step is Retry,
        attempt >= policy.max_retries ==> (d.step matches Step::Exhausted { error: ModelError::RateLimited(m) }
            && m@ == body@),
        !(d.step matches Step::Exhausted { error: ModelError::ApiError(_) }),
        !(d.step is Fail),
        !(d.step is Fallback),
{
}

/// Without a fallback, a run of 429 answers ends with the caller seeing
/// `RateLimited` with the last response body: the error the loop gave up
/// with is the one returned.
pub proof fn lemma_rate_limited_surfaces(
    policy: RetryPolicy,
    attempt: nat,
    body: String,
    retry_after: Option<String>,
    d: Decision,
    s: Step,
)
    requires
        attempt >= policy.max_retries,
        decision_ok(policy, attempt, AttemptOutcome::RateLimited { body, retry_after }, false, d),
        d.step matches Step::Exhausted { error: e } && exhausted_ok(Some(e), false, s),
    ensures
        s matches Step::Fail { error: ModelError::RateLimited(m) } && m@ == body@,
{
}

pub fn when_circuit_open(has_fallback: bool) -> (s: Step)
    ensures
        circuit_open_ok(has_fallback, s),
{
    if has_fallback {
        Step::Fallback
    } else {
        Step::Fail { error: ModelError::CircuitOpen(String::from_str("Circuit breaker is open")) }
    }
}

/// Name of the wire protocol a provider kind speaks.
pub open spec fn kind_name(k: ProviderKind) -> Seq<char> {
    match k {
        ProviderKind::Anthropic => "anthropic"@,
        ProviderKind::OpenAI => "openai"@,
        ProviderKind::Gemini => "gemini"@,
    }
}

pub fn provider_kind_name(k: ProviderKind) -> (s: String)
    ensures
        s@ == kind_name(k),
{
    match k {
        ProviderKind::Anthropic => String::from_str("anthropic"),
        ProviderKind::OpenAI => String::from_str("openai"),
        ProviderKind::Gemini => String::from_str("gemini"),
    }
}

/// A connection to one provider endpoint: where to send, with which key and
/// model, how to retry and when to open the breaker, and what to fall back to.
#[derive(Debug)]
pub struct ConnectionManager {
    provider_name: String,
    api_base: String,
    api_key: String,
    model_name: String,
    settings: Settings,
    retry: RetryPolicy,
    breaker_threshold: usize,
    breaker_timeout_secs: u64,
    fallback: Option<Box<ConnectionManager>>,
}

pub struct ConnectionView {
    pub provider_name: Seq<char>,
    pub api_base: Seq<char>,
    pub api_key: Seq<char>,
    pub model_name: Seq<char>,
    pub settings: Seq<(Seq<char>, Seq<char>)>,
    pub retry: RetryPolicy,
    pub breaker_threshold: nat,
    pub breaker_timeout_secs: nat,
    pub has_fallback: bool,
}

impl View for ConnectionManager {
    type V = ConnectionView;

    closed spec fn view(&self) -> ConnectionView {
        ConnectionView {
            provider_name: self.provider_name@,
            api_base: self.api_base@,
            api_key: self.api_key@,
            model_name: self.model_name@,
            settings: self.settings@,
            retry: self.retry,
            breaker_threshold: self.breaker_threshold as nat,
            breaker_timeout_secs: self.breaker_timeout_secs as nat,
            has_fallback: self.fallback is Some,
        }
    }
}

impl ConnectionManager {
    /// A connection with the default policy: 3 retries from a 500 ms base
    /// delay, a breaker that opens after 5 failures for 30 s, no fallback.
    pub fn new(provider_name: &str, api_base: &str, api_key: &str, model_name: &str) -> (c: Self)
        ensures
            c@ == (ConnectionView {
                provider_name: provider_name@,
                api_base: api_base@,
                api_key: api_key@,
                model_name: model_name@,
                settings: Seq::empty(),
                retry: RetryPolicy { max_retries: 3, retry_delay_ms: 500 },
                breaker_threshold: 5,
                breaker_timeout_secs: 30,
                has_fallback: false,
            }),
    {
        ConnectionManager {
            provider_name: String::from_str(provider_name),
            api_base: String::from_str(api_base),
            api_key: String::from_str(api_key),
            model_name: String::from_str(model_name),
            settings: Settings::new(),
            retry: RetryPolicy { max_retries: 3, retry_delay_ms: 500 },
            breaker_threshold: 5,
            breaker_timeout_secs: 30,
            fallback: None,
        }
    }

    /// Settings mirror what the "anthropic" provider expects, so a later
    /// `with_model` resolves through the registry.
    pub fn anthropic(api_base: &str, model_name: &str, api_key: &str) -> (c: Self)
        ensures
            c@.provider_name == "anthropic"@ && c@.api_base == api_base@ && c@.api_key == api_key@
                && c@.model_name == model_name@,
            c@.settings == seq![("model_name"@, model_name@), ("api_key"@, api_key@)],
            c@.retry == (RetryPolicy { max_retries: 3, retry_delay_ms: 500 }),
            c@.breaker_threshold == 5 && c@.breaker_timeout_secs == 30 && !c@.has_fallback,
    {
        let mut c = Self::new("anthropic", api_base, api_key, model_name);
        let mut s = Settings::new();
        s.insert(String::from_str("model_name"), String::from_str(model_name));
        s.insert(String::from_str("api_key"), String::from_str(api_key));
        c.settings = s;
        c
    }

    pub fn openai(api_base: &str, model_name: &str, api_key: &str) -> (c: Self)
        ensures
            c@.provider_name == "openai"@ && c@.api_base == api_base@ && c@.api_key == api_key@
                && c@.model_name == model_name@,
            c@.settings == seq![("model_name"@, model_name@), ("api_key"@, api_key@), ("base_url"@, api_base@)],
            c@.retry == (RetryPolicy { max_retries: 3, retry_delay_ms: 500 }),
            c@.breaker_threshold == 5 && c@.breaker_timeout_secs == 30 && !c@.has_fallback,
    {
        let mut c = Self::new("openai", api_base, api_key, model_name);
        let mut s = Settings::new();
        s.insert(String::from_str("model_name"), String::from_str(model_name));
        s.insert(String::from_str("api_key"), String::from_str(api_key));
        s.insert(String::from_str("base_url"), String::from_str(api_base));
        c.settings = s;
        c
    }

    pub fn gemini(api_base: &str, model_name: &str, api_key: &str) -> (c: Self)
        ensures
            c@.provider_name == "gemini"@ && c@.api_base == api_base@ && c@.api_key == api_key@
                && c@.model_name == model_name@,
            c@.settings == seq![("model_name"@, model_name@), ("api_key"@, api_key@)],
            c@.retry == (RetryPolicy { max_retries: 3, retry_delay_ms: 500 }),
            c@.breaker_threshold == 5 && c@.breaker_timeout_secs == 30 && !c@.has_fallback,
    {
        let mut c = Self::new("gemini", api_base, api_key, model_name);
        let mut s = Settings::new();
        s.insert(String::from_str("model_name"), String::from_str(model_name));
        s.insert(String::from_str("api_key"), String::from_str(api_key));
        c.settings = s;
        c
    }

    /// Resolves the configured provider through `registry`.
    pub fn from_config(config: ProviderConfig, registry: &ProviderRegistry) -> (r: Result<Self, ModelError>)
        ensures
            match registered(registry@, config.name@) {
                Some(kind) => match kind_resolution(kind, config.settings@) {
                    Resolution::Resolved { provider, api_base, api_key, model_name } => r matches Ok(c) && c@
                        == (ConnectionView {
                        provider_name: kind_name(provider),
                        api_base,
                        api_key,
                        model_name,
                        settings: config.settings@,
                        retry: RetryPolicy { max_retries: 3, retry_delay_ms: 500 },
                        breaker_threshold: 5,
                        breaker_timeout_secs: 30,
                        has_fallback: false,
                    }),
                    other => r is Err && outcome_is(Err(r->Err_0), other),
                },
                None => r is Err && outcome_is(Err(r->Err_0), Resolution::Unknown { name: config.name@ }),
            },
    {
        let resolved = match registry.build(config.name.as_str(), &config.settings) {
            Ok(p) => p,
            Err(e) => {
                return Err(e);
            },
        };
        Ok(
            ConnectionManager {
                provider_name: provider_kind_name(resolved.provider),
                api_base: resolved.api_base,
                api_key: resolved.api_key,
                model_name: resolved.model_name,
                settings: config.settings,
                retry: RetryPolicy { max_retries: 3, retry_delay_ms: 500 },
                breaker_threshold: 5,
                breaker_timeout_secs: 30,
                fallback: None,
            },
        )
    }

    pub fn with_retries(self, max_retries: usize, retry_delay_ms: u64) -> (c: Self)
        ensures
            c@ == (ConnectionView { retry: RetryPolicy { max_retries, retry_delay_ms }, ..self@ }),
    {
        ConnectionManager { retry: RetryPolicy { max_retries, retry_delay_ms }, ..self }
    }

    pub fn with_circuit_breaker(self, threshold: usize, timeout_secs: u64) -> (c: Self)
        ensures
            c@ == (ConnectionView {
                breaker_threshold: threshold as nat,
                breaker_timeout_secs: timeout_secs as nat,
                ..self@
            }),
    {
        ConnectionManager { breaker_threshold: threshold, breaker_timeout_secs: timeout_secs, ..self }
    }

    /// Sets the connection tried when this one's breaker is open or its
    /// retries are used up.
    pub fn with_fallback(self, fallback: ConnectionManager) -> (c: Self)
        ensures
            c@ == (ConnectionView { has_fallback: true, ..self@ }),
            c.fallback_spec() == Some(fallback@),
    {
        ConnectionManager { fallback: Some(Box::new(fallback)), ..self }
    }

    pub closed spec fn fallback_spec(&self) -> Option<ConnectionView> {
        match self.fallback {
            Some(f) => Some(f@),
            None => None,
        }
    }

    pub fn fallback(&self) -> (f: Option<&ConnectionManager>)
        ensures
            match f {
                Some(c) => self.fallback_spec() == Some(c@),
                None => self.fallback_spec() is None,
            },
            f is Some <==> self@.has_fallback,
    {
        match &self.fallback {
            Some(b) => Some(&**b),
            None => None,
        }
    }

    /// The same endpoint and key with another model. The provider is resolved
    /// again from this connection's settings, so a provider the registry does
    /// not know is refused. Retry and breaker settings carry over; the
    /// fallback does not.
    pub fn with_model(&self, model_name: &str, registry: &ProviderRegistry) -> (r: Result<Self, ModelError>)
        ensures
            match registered(registry@, self@.provider_name) {
                Some(kind) => match kind_resolution(kind, self@.settings) {
                    Resolution::Resolved { provider, .. } => r matches Ok(c) && c@ == (ConnectionView {
                        provider_name: kind_name(provider),
                        model_name: model_name@,
                        has_fallback: false,
                        ..self@
                    }),
                    other => r is Err && outcome_is(Err(r->Err_0), other),
                },
                None => r is Err && outcome_is(Err(r->Err_0), Resolution::Unknown { name: self@.provider_name }),
            },
    {
        let resolved = match registry.build(self.provider_name.as_str(), &self.settings) {
            Ok(p) => p,
            Err(e) => {
                return Err(e);
            },
        };
        Ok(
            ConnectionManager {
                provider_name: provider_kind_name(resolved.provider),
                api_base: self.api_base.clone(),
                api_key: self.api_key.clone(),
                model_name: String::from_str(model_name),
                settings: self.settings.copy(),
                retry: self.retry,
                breaker_threshold: self.breaker_threshold,
                breaker_timeout_secs: self.breaker_timeout_secs,
                fallback: None,
            },
        )
    }

    pub fn provider_name(&self) -> (s: &str)
        ensures
            s@ == self@.provider_name,
    {
        self.provider_name.as_str()
    }

    pub fn api_base(&self) -> (s: &str)
        ensures
            s@ == self@.api_base,
    {
        self.api_base.as_str()
    }

    pub fn api_key(&self) -> (s: &str)
        ensures
            s@ == self@.api_key,
    {
        self.api_key.as_str()
    }

    pub fn model_name(&self) -> (s: &str)
        ensures
            s@ == self@.model_name,
    {
        self.model_name.as_str()
    }

    pub fn retry_policy(&self) -> (p: RetryPolicy)
        ensures
            p == self@.retry,
    {
        self.retry
    }

    /// The breaker this connection starts with: closed, with its threshold
    /// and quiet period.
    pub fn new_circuit_breaker(&self) -> (b: crate::circuit::CircuitBreaker)
        ensures
            b@ == (crate::circuit::BreakerView {
                state: crate::circuit::CircuitState::Closed,
                consecutive_failures: 0,
                threshold: self@.breaker_threshold,
                has_failed: false,
                timeout_secs: self@.breaker_timeout_secs,
            }),
    {
        crate::circuit::CircuitBreaker::new(self.breaker_threshold, self.breaker_timeout_secs)
    }

    pub fn backoff_ms(&self, attempt: usize) -> (d: u64)
        ensures
            d == self@.retry.spec_backoff(attempt as nat),
    {
        self.retry.backoff_ms(attempt)
    }

    pub fn rate_limit_backoff_ms(&self, attempt: usize) -> (d: u64)
        ensures
            d == sat_mul(self@.retry.spec_backoff(attempt as nat), 4),
    {
        self.retry.rate_limit_backoff_ms(attempt)
    }

    /// Where a request for `path` goes. Gemini takes its key as a `key`
    /// query parameter; the others send it in a header.
    pub fn request_url(&self, path: &str) -> (u: String)
        ensures
            u@ == if self@.provider_name == "gemini"@ {
                self@.api_base + path@ + "?key="@ + self@.api_key
            } else {
                self@.api_base + path@
            },
    {
        let mut u = self.api_base.clone();
        append_str(&mut u, path);
        let gemini = String::from_str("gemini");
        if self.provider_name == gemini {
            append_str(&mut u, "?key=");
            append_str(&mut u, self.api_key.as_str());
        }
        u
    }
}

/// The text of each system message, in order.
pub open spec fn system_texts(ms: Seq<Message>) -> Seq<Seq<char>>
    decreases ms.len(),
{
    if ms.len() == 0 {
        seq![]
    } else if is_system(ms.last()) {
        system_texts(ms.drop_last()).push(spec_content_as_text(ms.last().content@))
    } else {
        system_texts(ms.drop_last())
    }
}

/// The system prompt a message list amounts to: its system messages' texts
/// joined by a blank line, or none when it has no system message.
pub open spec fn spec_system_prompt(ms: Seq<Message>) -> Option<Seq<char>> {
    if system_texts(ms).len() == 0 {
        None
    } else {
        Some(join_with(system_texts(ms), seq!['\n', '\n']))
    }
}

/// What building a runner from `config` gives: a configuration with no
/// provider name is refused; otherwise the provider is resolved among the
/// built-in ones with the default retry and breaker settings.
pub open spec fn runner_from_config(config: Config, r: Result<LlmRunner, AgentError>) -> bool {
    &&& (config.provider.name@.len() == 0 ==> r matches Err(AgentError::Config(_)))
    &&& config.provider.name@.len() > 0 ==> match registered(
                builtin_registry(),
                config.provider.name@,
            ) {
                Some(kind) => match kind_resolution(kind, config.provider.settings@) {
                    Resolution::Resolved { provider, api_base, api_key, model_name } => r matches Ok(
                        runner,
                    ) && runner.connection_spec() == (ConnectionView {
                        provider_name: kind_name(provider),
                        api_base,
                        api_key,
                        model_name,
                        settings: config.provider.settings@,
                        retry: RetryPolicy { max_retries: 3, retry_delay_ms: 500 },
                        breaker_threshold: 5,
                        breaker_timeout_secs: 30,
                        has_fallback: false,
                    }),
                    other => r matches Err(AgentError::Model(e)) && outcome_is(Err(e), other),
                },
                None => r matches Err(AgentError::Model(e)) && outcome_is(
                    Err(e),
                    Resolution::Unknown { name: config.provider.name@ },
                ),
            }
}

/// The runner every agent model call goes through.
#[derive(Debug)]
pub struct LlmRunner {
    connection: std::sync::Arc<ConnectionManager>,
}

impl LlmRunner {
    pub fn new(connection: std::sync::Arc<ConnectionManager>) -> (r: Self)
        ensures
            r.connection_spec() == connection@,
    {
        LlmRunner { connection }
    }

    pub closed spec fn connection_spec(&self) -> ConnectionView {
        self.connection@
    }

    pub fn connection(&self) -> (c: &ConnectionManager)
        ensures
            c@ == self.connection_spec(),
    {
        &self.connection
    }

    /// Validates `config` and resolves its provider among the built-in ones.
    pub fn from_config(config: Config) -> (r: Result<Self, AgentError>)
        ensures
            runner_from_config(config, r),
    {
        match config.validate() {
            Ok(()) => {},
            Err(e) => {
                return Err(e);
            },
        }
        let registry = ProviderRegistry::with_builtins();
        proof {
            lemma_builtin_registry(registry@);
        }
        match ConnectionManager::from_config(config.provider, &registry) {
            Ok(cm) => Ok(LlmRunner { connection: std::sync::Arc::new(cm) }),
            Err(e) => Err(AgentError::Model(e)),
        }
    }

    /// The request for a call: system messages are lifted out of the
    /// conversation into the system prompt; the rest keep their order.
    pub fn request(
        &self,
        messages: Vec<Message>,
        tools: Option<Vec<ToolDefinition>>,
        response_format: Option<serde_json::Value>,
    ) -> (r: GenerateRequest)
        ensures
            r.messages@ == conversation(messages@),
            match r.system {
                Some(s) => spec_system_prompt(messages@) == Some(s@),
                None => spec_system_prompt(messages@) is None,
            },
            r.tools == tools,
            r.response_format == response_format,
    {
        let ghost all = messages@;
        let mut conv: Vec<Message> = Vec::new();
        let mut system = String::new();
        let mut any = false;
        for m in it: messages
            invariant
                it.seq() == all,
                conv@ == conversation(all.take(it.index() as int)),
                any == (system_texts(all.take(it.index() as int)).len() > 0),
                any ==> system@ == join_with(system_texts(all.take(it.index() as int)), seq!['\n', '\n']),
        {
            let ghost i = it.index() as int;
            assert(all.take(i + 1).drop_last() =~= all.take(i));
            assert(all.take(i + 1).last() == m);
            if m.role == MessageRole::System {
                let t = m.as_text();
                if any {
                    crate::text::push_char(&mut system, '\n');
                    crate::text::push_char(&mut system, '\n');
                    append_str(&mut system, t.as_str());
                    let ghost prev = system_texts(all.take(i));
                    assert(system_texts(all.take(i + 1)) == prev.push(t@));
                    assert(prev.push(t@).drop_last() =~= prev);
                    assert(system@ =~= join_with(system_texts(all.take(i + 1)), seq!['\n', '\n']));
                } else {
                    system = t;
                    assert(system_texts(all.take(i)) =~= Seq::<Seq<char>>::empty());
                    assert(system@ =~= join_with(system_texts(all.take(i + 1)), seq!['\n', '\n']));
                }
                any = true;
            } else {
                conv.push(m);
            }
        }
        assert(all.take(all.len() as int) =~= all);
        GenerateRequest {
            system: if any {
                Some(system)
            } else {
                None
            },
            messages: conv,
            tools,
            response_format,
        }
    }
}

/// What `ProviderRegistry::with_builtins` holds.
pub open spec fn builtin_registry() -> Seq<(Seq<char>, ProviderKind)> {
    seq![
        ("anthropic"@, ProviderKind::Anthropic),
        ("openai"@, ProviderKind::OpenAI),
        ("gemini"@, ProviderKind::Gemini),
    ]
}

proof fn lemma_builtin_registry(r: Seq<(Seq<char>, ProviderKind)>)
    requires
        registered(r, "anthropic"@) == Some(ProviderKind::Anthropic),
        registered(r, "openai"@) == Some(ProviderKind::OpenAI),
        registered(r, "gemini"@) == Some(ProviderKind::Gemini),
        forall|n: Seq<char>|
            n != "anthropic"@ && n != "openai"@ && n != "gemini"@ ==> registered(r, n) is None,
    ensures
        forall|n: Seq<char>| registered(r, n) == registered(builtin_registry(), n),
{
    let b = builtin_registry();
    reveal_strlit("anthropic");
    reveal_strlit("openai");
    reveal_strlit("gemini");
    assert("openai"@[0] != "gemini"@[0]);
    assert(b.drop_last().drop_last().drop_last() =~= Seq::<(Seq<char>, ProviderKind)>::empty());
    assert("anthropic"@.len() == 9 && "openai"@.len() == 6 && "gemini"@.len() == 6);
    assert forall|n: Seq<char>| registered(r, n) == registered(b, n) by {
        reveal_with_fuel(registered, 4);
        assert(registered(b.drop_last().drop_last().drop_last(), n) is None);
        assert(b.last() == ("gemini"@, ProviderKind::Gemini));
        assert(b.drop_last().last() == ("openai"@, ProviderKind::OpenAI));
        assert(b.drop_last().drop_last().last() == ("anthropic"@, ProviderKind::Anthropic));
        if n == "gemini"@ {
        } else if n == "openai"@ {
        } else if n == "anthropic"@ {
        } else {
        }
    }
}

/// Builds an `LlmRunner` from an optional configuration.
pub struct LlmRunnerBuilder {
    config: Option<Config>,
}

impl LlmRunnerBuilder {
    pub fn new() -> (b: Self)
        ensures
            b.config_spec() is None,
    {
        LlmRunnerBuilder { config: None }
    }

    pub closed spec fn config_spec(&self) -> Option<Config> {
        self.config
    }

    pub fn config(self, config: Config) -> (b: Self)
        ensures
            b.config_spec() == Some(config),
    {
        LlmRunnerBuilder { config: Some(config) }
    }

    /// Builds the runner from the given configuration; without one, from an
    /// OpenAI configuration with no model name, which fails to resolve.
    pub fn build(self) -> (r: Result<LlmRunner, AgentError>)
        ensures
            self.config_spec() is None ==> (r matches Err(AgentError::Model(ModelError::MissingSetting(k, p)))
                && k@ == "model_name"@ && p@ == "openai"@),
            self.config_spec() matches Some(c) ==> runner_from_config(c, r),
    {
        let config = match self.config {
            Some(c) => c,
            None => Config {
                provider: ProviderConfig::openai(String::new(), String::new(), None),
                max_messages: 100,
                tools: Vec::new(),
                prompts_dir: None,
                system_prompt: None,
            },
        };
        let ghost settings = config.provider.settings@;
        proof {
            reveal_strlit("openai");
            reveal_strlit("model_name");
            reveal_strlit("api_key");
            assert("model_name"@.len() == 10 && "api_key"@.len() == 7);
            assert("model_name"@ != "api_key"@);
            assert("openai"@ != "gemini"@) by {
                reveal_strlit("gemini");
                assert("openai"@[0] != "gemini"@[0]);
            }
            reveal_with_fuel(registered, 4);
            reveal_with_fuel(crate::config::lookup, 3);
        }
        LlmRunner::from_config(config)
    }
}


} // verus!
