use agentverse::circuit::{CircuitBreaker, CircuitState};
use agentverse::config::{Config, ProviderConfig, Settings};
use agentverse::connection::{
    after_retries, clamp_retry_after_ms, retry_after_ms, when_circuit_open, AttemptOutcome, BreakerUpdate,
    ConnectionManager, LlmRunner, LlmRunnerBuilder, RetryPolicy, Step,
};
use agentverse::error::ModelError;
use agentverse::memory::{Message, MessageRole};
use agentverse::registry::{ProviderKind, ProviderRegistry};

fn settings(pairs: &[(&str, &str)]) -> Settings {
    let mut s = Settings::new();
    for (k, v) in pairs {
        s.insert(k.to_string(), v.to_string());
    }
    s
}

#[test]
fn backoff_is_exponential_and_capped() {
    let cm = ConnectionManager::openai("http://x", "m", "k").with_retries(3, 500);
    assert_eq!(cm.backoff_ms(0), 500);
    assert_eq!(cm.backoff_ms(1), 1000);
    assert_eq!(cm.backoff_ms(2), 2000);
    assert_eq!(cm.backoff_ms(64), 500 * 1024);
}

#[test]
fn rate_limit_backoff_is_4x() {
    let cm = ConnectionManager::openai("http://x", "m", "k").with_retries(3, 500);
    assert_eq!(cm.rate_limit_backoff_ms(0), 2000);
}

#[test]
fn clamp_retry_after_ms_caps_at_60s() {
    assert_eq!(clamp_retry_after_ms(59_999), 59_999);
    assert_eq!(clamp_retry_after_ms(60_000), 60_000);
    assert_eq!(clamp_retry_after_ms(1_000_000), 60_000);
    assert_eq!(clamp_retry_after_ms(u64::MAX), 60_000);
}

#[test]
fn backoff_saturates_instead_of_overflowing() {
    let p = RetryPolicy { max_retries: 3, retry_delay_ms: u64::MAX / 2 };
    assert_eq!(p.backoff_ms(5), u64::MAX);
}

#[test]
fn retry_after_header_reads_whole_seconds() {
    assert_eq!(retry_after_ms("2"), Some(2000));
    assert_eq!(retry_after_ms(" 3 "), Some(3000));
    assert_eq!(retry_after_ms("120"), Some(60_000));
    assert_eq!(retry_after_ms("soon"), None);
    assert_eq!(retry_after_ms(""), None);
}

#[test]
fn from_config_rejects_key_with_header_invalid_chars() {
    let registry = ProviderRegistry::with_builtins();
    let err = ConnectionManager::from_config(
        ProviderConfig::anthropic("m".to_string(), "bad\nkey".to_string()),
        &registry,
    )
    .unwrap_err();
    assert!(matches!(err, ModelError::InvalidApiKey(_)));
}

#[test]
fn from_config_accepts_empty_key() {
    let registry = ProviderRegistry::with_builtins();
    assert!(ConnectionManager::from_config(
        ProviderConfig::openai("m".to_string(), String::new(), Some("http://localhost:9090/v1".to_string())),
        &registry,
    )
    .is_ok());
}

#[test]
fn with_model_unknown_provider_returns_error() {
    let cm = ConnectionManager::new("fake", "http://x", "k", "m");
    let registry = ProviderRegistry::with_builtins();
    let err = cm.with_model("other-model", &registry).unwrap_err();
    assert!(matches!(err, ModelError::UnknownProvider(name) if name == "fake"));
}

#[test]
fn with_model_keeps_endpoint_and_changes_model() {
    let cm = ConnectionManager::openai("http://x", "m", "k").with_retries(7, 10);
    let registry = ProviderRegistry::with_builtins();
    let other = cm.with_model("m2", &registry).unwrap();
    assert_eq!(other.model_name(), "m2");
    assert_eq!(other.api_base(), "http://x");
    assert_eq!(other.retry_policy().max_retries, 7);
}

#[test]
fn with_builtins_resolves_anthropic() {
    let registry = ProviderRegistry::with_builtins();
    let resolved = registry.build("anthropic", &settings(&[("model_name", "model-x"), ("api_key", "k")])).unwrap();
    assert_eq!(resolved.provider, ProviderKind::Anthropic);
    assert_eq!(resolved.api_base, "https://api.anthropic.com");
    assert_eq!(resolved.api_key, "k");
    assert_eq!(resolved.model_name, "model-x");
}

#[test]
fn with_builtins_resolves_openai_with_base_url_and_no_key() {
    let registry = ProviderRegistry::with_builtins();
    let resolved = registry
        .build("openai", &settings(&[("model_name", "local-model"), ("base_url", "http://localhost:9090/v1")]))
        .unwrap();
    assert_eq!(resolved.provider, ProviderKind::OpenAI);
    assert_eq!(resolved.api_base, "http://localhost:9090/v1");
    assert_eq!(resolved.api_key, "");
}

#[test]
fn with_builtins_openai_defaults_base_url_when_absent() {
    let registry = ProviderRegistry::with_builtins();
    let resolved = registry.build("openai", &settings(&[("model_name", "gpt-4o"), ("api_key", "sk-x")])).unwrap();
    assert_eq!(resolved.api_base, "https://api.openai.com/v1");
}

#[test]
fn with_builtins_openai_missing_key_and_base_url_errors() {
    let registry = ProviderRegistry::with_builtins();
    let err = registry.build("openai", &settings(&[("model_name", "gpt-4o")])).unwrap_err();
    assert!(matches!(err, ModelError::MissingSetting(k, p) if k == "api_key" && p == "openai"));
}

#[test]
fn with_builtins_resolves_gemini() {
    let registry = ProviderRegistry::with_builtins();
    let resolved = registry.build("gemini", &settings(&[("model_name", "gemini-pro"), ("api_key", "k")])).unwrap();
    assert_eq!(resolved.provider, ProviderKind::Gemini);
    assert_eq!(resolved.api_base, "https://generativelanguage.googleapis.com");
}

#[test]
fn unknown_provider_returns_error() {
    let registry = ProviderRegistry::with_builtins();
    let err = registry.build("nonexistent", &settings(&[])).unwrap_err();
    assert!(matches!(err, ModelError::UnknownProvider(name) if name == "nonexistent"));
}

#[test]
fn missing_model_name_returns_missing_setting() {
    let registry = ProviderRegistry::with_builtins();
    let err = registry.build("anthropic", &settings(&[("api_key", "k")])).unwrap_err();
    assert!(matches!(err, ModelError::MissingSetting(k, p) if k == "model_name" && p == "anthropic"));
}

#[test]
fn invalid_api_key_header_char_returns_invalid_api_key() {
    let registry = ProviderRegistry::with_builtins();
    let err = registry.build("anthropic", &settings(&[("model_name", "m"), ("api_key", "bad\nkey")])).unwrap_err();
    assert!(matches!(err, ModelError::InvalidApiKey(_)));
}

#[test]
fn registered_alias_resolves_like_its_kind() {
    let mut registry = ProviderRegistry::new();
    registry.register("local".to_string(), ProviderKind::OpenAI);
    let resolved = registry.build("local", &settings(&[("model_name", "m"), ("base_url", "http://l")])).unwrap();
    assert_eq!(resolved.provider, ProviderKind::OpenAI);
    assert_eq!(resolved.api_base, "http://l");
    assert!(ProviderRegistry::new().build("openai", &settings(&[])).is_err());
}

#[test]
fn send_failure_is_retried_until_retries_run_out() {
    let p = RetryPolicy { max_retries: 2, retry_delay_ms: 100 };
    let d = p.decide(0, AttemptOutcome::SendFailed { message: "down".to_string() }, false);
    assert_eq!(d.breaker, BreakerUpdate::Failure);
    assert!(matches!(d.step, Step::Retry { delay_ms: 100 }));
    let d = p.decide(2, AttemptOutcome::SendFailed { message: "down".to_string() }, false);
    assert!(matches!(d.step, Step::Exhausted { error: ModelError::ApiError(ref m) } if m == "down"));
}

#[test]
fn rate_limit_prefers_the_server_delay() {
    let p = RetryPolicy { max_retries: 2, retry_delay_ms: 100 };
    let d = p.decide(
        1,
        AttemptOutcome::RateLimited { body: "slow down".to_string(), retry_after: Some("3".to_string()) },
        false,
    );
    assert!(matches!(d.step, Step::Retry { delay_ms: 3000 }));
    let d = p.decide(1, AttemptOutcome::RateLimited { body: "slow down".to_string(), retry_after: None }, false);
    assert!(matches!(d.step, Step::Retry { delay_ms: 800 }));
}

#[test]
fn http_error_goes_to_fallback_or_fails() {
    let p = RetryPolicy { max_retries: 2, retry_delay_ms: 100 };
    let d = p.decide(0, AttemptOutcome::HttpError { status: "500".to_string(), body: "boom".to_string() }, true);
    assert!(matches!(d.step, Step::Fallback));
    let d = p.decide(0, AttemptOutcome::HttpError { status: "500".to_string(), body: "boom".to_string() }, false);
    assert!(matches!(d.step, Step::Fail { error: ModelError::ApiError(ref m) } if m == "HTTP 500: boom"));
    let d = p.decide(0, AttemptOutcome::Parsed, false);
    assert_eq!(d.breaker, BreakerUpdate::Success);
    assert!(matches!(d.step, Step::Finish));
}

#[test]
fn exhausted_and_open_circuit_steps() {
    assert!(matches!(after_retries(None, true), Step::Fallback));
    assert!(matches!(after_retries(None, false), Step::Fail { error: ModelError::ApiError(ref m) } if m == "No response"));
    assert!(matches!(when_circuit_open(true), Step::Fallback));
    assert!(matches!(when_circuit_open(false), Step::Fail { error: ModelError::CircuitOpen(_) }));
}

#[test]
fn circuit_opens_after_threshold_failures_and_closes_on_success() {
    let mut b = CircuitBreaker::new(3, 30);
    assert_eq!(b.state(), CircuitState::Closed);
    b.record_failure();
    b.record_failure();
    assert_eq!(b.state(), CircuitState::Closed);
    assert!(b.can_execute());
    b.record_failure();
    assert_eq!(b.state(), CircuitState::Open);
    assert!(!b.can_execute());
    b.record_success();
    assert_eq!(b.state(), CircuitState::Closed);
    assert_eq!(b.consecutive_failures(), 0);
}

#[test]
fn request_lifts_system_messages_out() {
    let runner = LlmRunner::new(std::sync::Arc::new(ConnectionManager::openai("http://x", "m", "k")));
    let req = runner.request(
        vec![
            Message::text(MessageRole::System, "one"),
            Message::text(MessageRole::User, "hi"),
            Message::text(MessageRole::System, "two"),
        ],
        None,
        None,
    );
    assert_eq!(req.system.as_deref(), Some("one\n\ntwo"));
    assert_eq!(req.messages.len(), 1);
    assert_eq!(req.messages[0].as_text(), "hi");
}

#[test]
fn runner_builder_needs_a_provider_name() {
    let config = Config {
        provider: ProviderConfig::custom(String::new(), Settings::new()),
        max_messages: 10,
        tools: vec![],
        prompts_dir: None,
        system_prompt: None,
    };
    assert!(config.validate().is_err());
    assert!(LlmRunnerBuilder::new().config(config).build().is_err());
    let ok = Config {
        provider: ProviderConfig::openai("test".to_string(), "sk-test".to_string(), Some("http://127.0.0.1:1/v1".to_string())),
        max_messages: 10,
        tools: vec![],
        prompts_dir: None,
        system_prompt: None,
    };
    assert!(ok.validate().is_ok());
    let runner = LlmRunner::from_config(ok).unwrap();
    assert_eq!(runner.connection().model_name(), "test");
}

#[test]
fn request_url_joins_base_and_path() {
    let cm = ConnectionManager::openai("http://localhost:9090/v1", "m", "k");
    assert_eq!(cm.request_url("/chat/completions"), "http://localhost:9090/v1/chat/completions");
}

#[test]
fn open_breaker_lets_a_probe_through_only_after_the_timeout() {
    let mut b = CircuitBreaker::new(1, 30);
    b.record_failure();
    assert_eq!(b.state(), CircuitState::Open);
    assert!(!b.after_quiet_period(30_000_000_000));
    assert_eq!(b.state(), CircuitState::Open);
    assert!(b.after_quiet_period(30_000_000_001));
    assert_eq!(b.state(), CircuitState::HalfOpen);
    assert!(b.can_execute());
}
