//! Error types of the core library.

use crate::text::append_str;
use vstd::prelude::*;

verus! {

/// `prefix` followed by `body`.
pub(crate) fn prefixed(prefix: &str, body: &str) -> (s: String)
    ensures
        s@ == prefix@ + body@,
{
    let mut s = String::from_str(prefix);
    append_str(&mut s, body);
    s
}

/// What `format!("{:?}", s)` makes of a text: the text in double quotes,
/// with quotes, backslashes and control characters escaped.
pub uninterp spec fn debug_text(s: Seq<char>) -> Seq<char>;

/// `<str as Debug>::fmt`, through `format!("{:?}", ..)`.
#[verifier::external_body]
pub(crate) fn debug_quoted(s: &str) -> (r: String)
    ensures
        r@ == debug_text(s@),
{
    format!("{:?}", s)
}

#[derive(Debug, Clone)]
pub enum ModelError {
    ApiError(String),
    Timeout(String),
    InvalidResponse(String),
    RateLimited(String),
    CircuitOpen(String),
    UnknownProvider(String),
    InvalidApiKey(String),
    /// A required setting (first) is missing for a provider (second).
    MissingSetting(String, String),
}

impl ModelError {
    /// The error as a sentence: its kind, then its detail.
    pub fn message(&self) -> (s: String)
        ensures
            s@ == match self {
                ModelError::ApiError(m) => "API error: "@ + m@,
                ModelError::Timeout(m) => "Timeout: "@ + m@,
                ModelError::InvalidResponse(m) => "Invalid response: "@ + m@,
                ModelError::RateLimited(m) => "Rate limited: "@ + m@,
                ModelError::CircuitOpen(m) => "Circuit breaker open: "@ + m@,
                ModelError::UnknownProvider(m) => "Unknown provider: "@ + m@,
                ModelError::InvalidApiKey(m) => "Invalid API key: "@ + m@,
                ModelError::MissingSetting(k, p) => "Missing required setting "@ + debug_text(k@)
                    + " for provider "@ + debug_text(p@),
            },
    {
        match self {
            ModelError::ApiError(m) => prefixed("API error: ", m.as_str()),
            ModelError::Timeout(m) => prefixed("Timeout: ", m.as_str()),
            ModelError::InvalidResponse(m) => prefixed("Invalid response: ", m.as_str()),
            ModelError::RateLimited(m) => prefixed("Rate limited: ", m.as_str()),
            ModelError::CircuitOpen(m) => prefixed("Circuit breaker open: ", m.as_str()),
            ModelError::UnknownProvider(m) => prefixed("Unknown provider: ", m.as_str()),
            ModelError::InvalidApiKey(m) => prefixed("Invalid API key: ", m.as_str()),
            ModelError::MissingSetting(k, p) => {
                let mut s = prefixed("Missing required setting ", debug_quoted(k.as_str()).as_str());
                append_str(&mut s, " for provider ");
                append_str(&mut s, debug_quoted(p.as_str()).as_str());
                s
            },
        }
    }
}

#[derive(Debug)]
pub enum ToolError {
    Execution(String),
    NotFound(String),
    InvalidArgs(String),
}

impl ToolError {
    /// The error as a sentence: its kind, then its detail.
    pub fn message(&self) -> (s: String)
        ensures
            s@ == match self {
                ToolError::Execution(m) => "Execution failed: "@ + m@,
                ToolError::NotFound(m) => "Not found: "@ + m@,
                ToolError::InvalidArgs(m) => "Invalid arguments: "@ + m@,
            },
    {
        match self {
            ToolError::Execution(m) => prefixed("Execution failed: ", m.as_str()),
            ToolError::NotFound(m) => prefixed("Not found: ", m.as_str()),
            ToolError::InvalidArgs(m) => prefixed("Invalid arguments: ", m.as_str()),
        }
    }
}

#[derive(Debug)]
pub enum ConfigError {
    Invalid(String),
    Missing(String),
    FileError(String),
}

impl ConfigError {
    /// The error as a sentence: its kind, then its detail.
    pub fn message(&self) -> (s: String)
        ensures
            s@ == match self {
                ConfigError::Invalid(m) => "Invalid config: "@ + m@,
                ConfigError::Missing(m) => "Missing field: "@ + m@,
                ConfigError::FileError(m) => "File error: "@ + m@,
            },
    {
        match self {
            ConfigError::Invalid(m) => prefixed("Invalid config: ", m.as_str()),
            ConfigError::Missing(m) => prefixed("Missing field: ", m.as_str()),
            ConfigError::FileError(m) => prefixed("File error: ", m.as_str()),
        }
    }
}

#[derive(Debug)]
pub enum GuardrailError {
    PromptInjection(String),
    OutputFiltered(String),
}

impl GuardrailError {
    /// The error as a sentence: its kind, then its detail.
    pub fn message(&self) -> (s: String)
        ensures
            s@ == match self {
                GuardrailError::PromptInjection(m) => "Prompt injection: "@ + m@,
                GuardrailError::OutputFiltered(m) => "Output filtered: "@ + m@,
            },
    {
        match self {
            GuardrailError::PromptInjection(m) => prefixed("Prompt injection: ", m.as_str()),
            GuardrailError::OutputFiltered(m) => prefixed("Output filtered: ", m.as_str()),
        }
    }
}

#[derive(Debug)]
pub enum AgentError {
    Model(ModelError),
    Tool(ToolError),
    Config(ConfigError),
    Guardrail(GuardrailError),
    Memory(String),
    Interrupted(uuid::Uuid),
}

} // verus!
