//! The bounded label sets of the metrics: every attribute value a metric
//! carries comes from one of these enums, never from free text.

use crate::model::UsageStats;
use vstd::prelude::*;

verus! {

pub enum RetryReason {
    RateLimited,
    Transport,
}

pub enum ToolOutcome {
    Success,
    Error,
    HitlIntercepted,
}

pub enum ApprovalEvent {
    Submitted,
    Resolved,
    Expired,
}

pub enum InvokeOutcome {
    Done,
    Interrupted,
    Error,
}

pub enum CacheResult {
    Hit,
    Miss,
}

pub enum SkillRoutingOutcome {
    Matched,
    NoMatch,
}

pub enum PhaseTransitionOutcome {
    Advanced,
    PendingApproval,
}

pub enum HitlTransition {
    Interrupted,
    Resumed,
}

pub enum SessionDeleteReason {
    EndedTtl,
    UserRequest,
}

impl RetryReason {
    /// The `reason` attribute.
    pub fn label(&self) -> (s: &'static str)
        ensures
            s@ == match self {
                RetryReason::RateLimited => "rate_limited"@,
                RetryReason::Transport => "transport"@,
            },
    {
        match self {
            RetryReason::RateLimited => "rate_limited",
            RetryReason::Transport => "transport",
        }
    }
}

impl ToolOutcome {
    /// The `outcome` attribute of a tool call.
    pub fn label(&self) -> (s: &'static str)
        ensures
            s@ == match self {
                ToolOutcome::Success => "ok"@,
                ToolOutcome::Error => "error"@,
                ToolOutcome::HitlIntercepted => "hitl_intercepted"@,
            },
    {
        match self {
            ToolOutcome::Success => "ok",
            ToolOutcome::Error => "error",
            ToolOutcome::HitlIntercepted => "hitl_intercepted",
        }
    }
}

impl ApprovalEvent {
    /// The `event` attribute.
    pub fn label(&self) -> (s: &'static str)
        ensures
            s@ == match self {
                ApprovalEvent::Submitted => "submitted"@,
                ApprovalEvent::Resolved => "resolved"@,
                ApprovalEvent::Expired => "expired"@,
            },
    {
        match self {
            ApprovalEvent::Submitted => "submitted",
            ApprovalEvent::Resolved => "resolved",
            ApprovalEvent::Expired => "expired",
        }
    }
}

impl InvokeOutcome {
    /// The `outcome` attribute of an invocation.
    pub fn label(&self) -> (s: &'static str)
        ensures
            s@ == match self {
                InvokeOutcome::Done => "done"@,
                InvokeOutcome::Interrupted => "interrupted"@,
                InvokeOutcome::Error => "error"@,
            },
    {
        match self {
            InvokeOutcome::Done => "done",
            InvokeOutcome::Interrupted => "interrupted",
            InvokeOutcome::Error => "error",
        }
    }
}

impl CacheResult {
    /// The `result` attribute of a cache access.
    pub fn label(&self) -> (s: &'static str)
        ensures
            s@ == match self {
                CacheResult::Hit => "hit"@,
                CacheResult::Miss => "miss"@,
            },
    {
        match self {
            CacheResult::Hit => "hit",
            CacheResult::Miss => "miss",
        }
    }
}

impl SkillRoutingOutcome {
    /// The `outcome` attribute of skill routing.
    pub fn label(&self) -> (s: &'static str)
        ensures
            s@ == match self {
                SkillRoutingOutcome::Matched => "matched"@,
                SkillRoutingOutcome::NoMatch => "no_match"@,
            },
    {
        match self {
            SkillRoutingOutcome::Matched => "matched",
            SkillRoutingOutcome::NoMatch => "no_match",
        }
    }
}

impl PhaseTransitionOutcome {
    /// The `outcome` attribute of a phase transition.
    pub fn label(&self) -> (s: &'static str)
        ensures
            s@ == match self {
                PhaseTransitionOutcome::Advanced => "advanced"@,
                PhaseTransitionOutcome::PendingApproval => "pending_approval"@,
            },
    {
        match self {
            PhaseTransitionOutcome::Advanced => "advanced",
            PhaseTransitionOutcome::PendingApproval => "pending_approval",
        }
    }
}

impl HitlTransition {
    /// The `transition` attribute.
    pub fn label(&self) -> (s: &'static str)
        ensures
            s@ == match self {
                HitlTransition::Interrupted => "interrupted"@,
                HitlTransition::Resumed => "resumed"@,
            },
    {
        match self {
            HitlTransition::Interrupted => "interrupted",
            HitlTransition::Resumed => "resumed",
        }
    }
}

impl SessionDeleteReason {
    /// The `reason` attribute of a session deletion.
    pub fn label(&self) -> (s: &'static str)
        ensures
            s@ == match self {
                SessionDeleteReason::EndedTtl => "ended_ttl"@,
                SessionDeleteReason::UserRequest => "user_request"@,
            },
    {
        match self {
            SessionDeleteReason::EndedTtl => "ended_ttl",
            SessionDeleteReason::UserRequest => "user_request",
        }
    }
}

/// The token-usage points recorded for one call: input, output, cache
/// reads and cache writes, each under its `gen_ai.token.type` label.
pub fn token_usage_points(u: &UsageStats) -> (p: Vec<(&'static str, u64)>)
    ensures
        p@.len() == 4,
        p@[0].0@ == "input"@ && p@[0].1 == u.input_tokens,
        p@[1].0@ == "output"@ && p@[1].1 == u.output_tokens,
        p@[2].0@ == "cache_read"@ && p@[2].1 == u.cache_read_tokens,
        p@[3].0@ == "cache_write"@ && p@[3].1 == u.cache_write_tokens,
{
    vec![
        ("input", u.input_tokens as u64),
        ("output", u.output_tokens as u64),
        ("cache_read", u.cache_read_tokens as u64),
        ("cache_write", u.cache_write_tokens as u64),
    ]
}

} // verus!
