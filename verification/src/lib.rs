//! AgentVerse core logic: phase-transition parsing, provider wire formats,
//! retry and circuit-breaker decisions, configuration and HTTP bind policy.

pub mod aether;
pub mod agent;
pub mod anthropic;
pub mod bind;
pub mod cache;
pub mod circuit;
pub mod config;
pub mod connection;
pub mod error;
pub mod gemini;
pub mod memory;
pub mod metrics;
pub mod model;
pub mod openai;
pub mod outside;
pub mod prompt;
pub mod registry;
pub mod routing;
pub mod skills;
pub mod text;
pub mod tracing;
pub mod workers;
pub mod wrapper;

use vstd::prelude::*;

verus! {

} // verus!
