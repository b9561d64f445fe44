use agentverse::circuit::CircuitState;
use agentverse::config::ProviderConfig;
use agentverse::error::ModelError;
use agentverse::registry::ProviderKind;
use agentverse::wrapper::{convert_to_rate_limited, should_retry, ProviderWrapper, WrapperStep};

#[test]
fn wrapper_defaults_and_settings() {
    let w = ProviderWrapper::anthropic();
    assert_eq!(w.provider, ProviderKind::Anthropic);
    assert_eq!(w.max_retries, 3);
    assert_eq!(w.retry_delay_ms, 500);
    let w = w.with_retries(1, 10).with_circuit_breaker(2, 5);
    assert_eq!((w.max_retries, w.retry_delay_ms, w.breaker_threshold, w.breaker_timeout_secs), (1, 10, 2, 5));
    let w = ProviderWrapper::from_config(&ProviderConfig::gemini("m".to_string(), "k".to_string())).unwrap();
    assert_eq!(w.provider, ProviderKind::Gemini);
}

#[test]
fn a_429_api_error_becomes_rate_limiting() {
    assert!(matches!(convert_to_rate_limited(ModelError::ApiError("HTTP 429: slow".to_string())), ModelError::RateLimited(_)));
    assert!(matches!(convert_to_rate_limited(ModelError::ApiError("HTTP 500".to_string())), ModelError::ApiError(_)));
    assert!(matches!(convert_to_rate_limited(ModelError::Timeout("429".to_string())), ModelError::Timeout(_)));
    assert!(should_retry(&ModelError::ApiError("x".to_string())));
    assert!(!should_retry(&ModelError::Timeout("x".to_string())));
}

#[test]
fn wrapper_steps() {
    let w = ProviderWrapper::openai();
    assert!(matches!(w.step(0, Ok(())), WrapperStep::Done));
    assert!(matches!(w.step(2, Err(ModelError::ApiError("x".to_string()))), WrapperStep::Retry { delay_ms: 2000 }));
    assert!(matches!(w.step(3, Err(ModelError::ApiError("got 429".to_string()))), WrapperStep::Fail { error: ModelError::RateLimited(_) }));
    assert!(matches!(w.step(0, Err(ModelError::Timeout("t".to_string()))), WrapperStep::Fail { error: ModelError::Timeout(_) }));
    assert!(matches!(w.generate(), Err(ModelError::ApiError(_))));
}

#[test]
fn wrapper_steps_tell_the_breaker() {
    let w = agentverse::wrapper::ProviderWrapper::openai().with_retries(1, 100).with_circuit_breaker(1, 3600);
    let mut b = w.new_circuit_breaker();
    assert!(w.check_breaker(&mut b).is_ok());
    let retry = w.settle(&mut b, 0, Err(agentverse::error::ModelError::ApiError("boom".to_string())));
    assert!(matches!(retry, WrapperStep::Retry { delay_ms: 100 }));
    assert_eq!(b.consecutive_failures(), 0);
    let fail = w.settle(&mut b, 1, Err(agentverse::error::ModelError::ApiError("HTTP 429".to_string())));
    assert!(matches!(fail, WrapperStep::Fail { error: agentverse::error::ModelError::RateLimited(_) }));
    assert_eq!(b.state(), CircuitState::Open);
    match w.check_breaker(&mut b) {
        Err(agentverse::error::ModelError::CircuitOpen(m)) => assert_eq!(m, "Circuit breaker is open, retry later"),
        _ => panic!("an open breaker refuses"),
    }
    b.record_success();
    assert!(matches!(w.settle(&mut b, 0, Ok(())), WrapperStep::Done));
    assert_eq!(b.state(), CircuitState::Closed);
    let huge = agentverse::wrapper::ProviderWrapper::openai().with_retries(3, u64::MAX);
    let mut b2 = huge.new_circuit_breaker();
    let last = huge.settle(&mut b2, 1, Err(agentverse::error::ModelError::InvalidResponse("x".to_string())));
    assert!(matches!(last, WrapperStep::Fail { .. }));
}
