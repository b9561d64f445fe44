use agentverse::error::{ConfigError, GuardrailError, ModelError, ToolError};
use agentverse::memory::{Message, MessageRole, ShortTermMemory};
use agentverse::metrics::{
    token_usage_points, ApprovalEvent, CacheResult, HitlTransition, InvokeOutcome, PhaseTransitionOutcome,
    RetryReason, SessionDeleteReason, SkillRoutingOutcome, ToolOutcome,
};
use agentverse::model::UsageStats;
use agentverse::tracing::{NoopTracer, OtelTracer, Tracer};

#[test]
fn error_messages_read_like_their_kinds() {
    assert_eq!(ModelError::ApiError("x".to_string()).message(), "API error: x");
    assert_eq!(ModelError::CircuitOpen("y".to_string()).message(), "Circuit breaker open: y");
    assert_eq!(
        ModelError::MissingSetting("api_key".to_string(), "openai".to_string()).message(),
        "Missing required setting \"api_key\" for provider \"openai\""
    );
    assert_eq!(ToolError::NotFound("t".to_string()).message(), "Not found: t");
    assert_eq!(ConfigError::Missing("f".to_string()).message(), "Missing field: f");
    assert_eq!(GuardrailError::OutputFiltered("o".to_string()).message(), "Output filtered: o");
}

#[test]
fn short_term_memory_keeps_the_most_recent() {
    let mut m = ShortTermMemory::new(2);
    m.append(Message::text(MessageRole::User, "1"));
    m.append(Message::text(MessageRole::Assistant, "2"));
    m.append(Message::text(MessageRole::User, "3"));
    let all = m.last_n(10);
    assert_eq!(all.len(), 2);
    assert_eq!(all[0].as_text(), "2");
    assert_eq!(all[1].as_text(), "3");
    let last = m.last_n(1);
    assert_eq!(last.len(), 1);
    assert_eq!(last[0].as_text(), "3");
    m.clear();
    assert!(m.last_n(5).is_empty());
}

#[test]
fn metric_labels_are_fixed() {
    assert_eq!(RetryReason::RateLimited.label(), "rate_limited");
    assert_eq!(ToolOutcome::HitlIntercepted.label(), "hitl_intercepted");
    assert_eq!(ToolOutcome::Success.label(), "ok");
    assert_eq!(ApprovalEvent::Expired.label(), "expired");
    assert_eq!(InvokeOutcome::Interrupted.label(), "interrupted");
    assert_eq!(CacheResult::Miss.label(), "miss");
    assert_eq!(SkillRoutingOutcome::NoMatch.label(), "no_match");
    assert_eq!(PhaseTransitionOutcome::PendingApproval.label(), "pending_approval");
    assert_eq!(HitlTransition::Resumed.label(), "resumed");
    assert_eq!(SessionDeleteReason::EndedTtl.label(), "ended_ttl");
}

#[test]
fn token_usage_points_cover_each_kind() {
    let u = UsageStats { input_tokens: 1, output_tokens: 2, cache_write_tokens: 3, cache_read_tokens: 4 };
    assert_eq!(token_usage_points(&u), vec![("input", 1), ("output", 2), ("cache_read", 4), ("cache_write", 3)]);
}

#[test]
fn tracers_hand_out_spans() {
    let _ = NoopTracer.span("a").set_attribute("k", "v");
    let _ = OtelTracer::new().span("b");
}
