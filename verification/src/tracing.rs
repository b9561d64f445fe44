//! Span-producing tracers. The spans carry no data yet; both tracers hand
//! out the same empty span.

use vstd::prelude::*;

verus! {

/// A unit of traced work.
pub struct Span;

impl Span {
    /// Records an attribute on the span and hands the span back.
    pub fn set_attribute(self, _key: &str, _value: &str) -> (s: Self)
        ensures
            s == self,
    {
        self
    }
}

/// Something that opens spans by name.
pub trait Tracer: Send + Sync {
    fn span(&self, name: &str) -> Span;
}

/// A tracer that records nothing.
pub struct NoopTracer;

impl Tracer for NoopTracer {
    fn span(&self, _name: &str) -> Span {
        Span
    }
}

/// The OpenTelemetry-backed tracer.
pub struct OtelTracer {
    _inner: std::sync::Arc<()>,
}

impl OtelTracer {
    pub fn new() -> (t: Self) {
        OtelTracer { _inner: std::sync::Arc::new(()) }
    }
}

impl Tracer for OtelTracer {
    fn span(&self, _name: &str) -> Span {
        Span
    }
}

impl Default for OtelTracer {
    fn default() -> (t: Self) {
        OtelTracer::new()
    }
}

} // verus!
