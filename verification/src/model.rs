//! Model-facing request and response types and per-call token accounting.

use crate::memory::{content_as_text, spec_content_as_text, ContentBlock, Message};
use vstd::prelude::*;

verus! {

/// Per-call LLM usage statistics. Zero-filled for providers that do not report a field.
#[derive(Debug, Clone, Copy)]
pub struct UsageStats {
    pub input_tokens: u32,
    pub output_tokens: u32,
    /// Tokens written to the provider's prompt cache.
    pub cache_write_tokens: u32,
    /// Tokens served from the provider's prompt cache.
    pub cache_read_tokens: u32,
}

impl Default for UsageStats {
    fn default() -> (u: Self)
        ensures
            u.input_tokens == 0 && u.output_tokens == 0 && u.cache_write_tokens == 0
                && u.cache_read_tokens == 0,
    {
        UsageStats { input_tokens: 0, output_tokens: 0, cache_write_tokens: 0, cache_read_tokens: 0 }
    }
}

impl UsageStats {
    /// Field-wise sum of two usages, each field wrapping past `u32::MAX`.
    pub open spec fn spec_sum(self, other: Self) -> Self {
        UsageStats {
            input_tokens: self.input_tokens.wrapping_add(other.input_tokens),
            output_tokens: self.output_tokens.wrapping_add(other.output_tokens),
            cache_write_tokens: self.cache_write_tokens.wrapping_add(other.cache_write_tokens),
            cache_read_tokens: self.cache_read_tokens.wrapping_add(other.cache_read_tokens),
        }
    }
}

impl std::ops::AddAssign for UsageStats {
    /// Adds `other` field by field; a sum past `u32::MAX` wraps, as the
    /// counters do in an optimised build.
    fn add_assign(&mut self, other: Self)
        ensures
            *final(self) == old(self).spec_sum(other),
    {
        self.input_tokens = self.input_tokens.wrapping_add(other.input_tokens);
        self.output_tokens = self.output_tokens.wrapping_add(other.output_tokens);
        self.cache_write_tokens = self.cache_write_tokens.wrapping_add(other.cache_write_tokens);
        self.cache_read_tokens = self.cache_read_tokens.wrapping_add(other.cache_read_tokens);
    }
}

/// A tool offered to the model for native tool calling.
#[derive(Debug, Clone)]
pub struct ToolDefinition {
    pub name: String,
    pub description: String,
    pub parameters: serde_json::Value,
}

/// Structured input to a model provider: the system prompt, the conversation
/// with roles preserved, the tools and an optional output schema.
#[derive(Debug, Clone)]
pub struct GenerateRequest {
    pub system: Option<String>,
    pub messages: Vec<Message>,
    pub tools: Option<Vec<ToolDefinition>>,
    pub response_format: Option<serde_json::Value>,
}

impl Default for GenerateRequest {
    fn default() -> (r: Self)
        ensures
            r.system is None && r.messages@.len() == 0 && r.tools is None
                && r.response_format is None,
    {
        GenerateRequest { system: None, messages: Vec::new(), tools: None, response_format: None }
    }
}

/// Response from a model provider, including usage statistics.
#[derive(Debug, Clone)]
pub struct GenerateResponse {
    pub content: Vec<ContentBlock>,
    pub usage: UsageStats,
}

impl GenerateResponse {
    /// Content flattened to plain text, as `Message::as_text` does.
    pub fn as_text(&self) -> (s: String)
        ensures
            s@ == spec_content_as_text(self.content@),
    {
        content_as_text(self.content.as_slice())
    }
}

/// Final output of a strategy loop: the answer plus accumulated token usage.
#[derive(Debug, Clone)]
pub struct CycleResult {
    pub answer: String,
    pub total_usage: UsageStats,
}

} // verus!
