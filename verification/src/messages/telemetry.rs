//! Telemetry messages.

use vstd::prelude::*;

use crate::ids::{SpanId, TraceId};
use crate::time::UtcTime;

verus! {

/// Payload for `trace.span`.
#[derive(Debug, Clone, PartialEq)]
pub struct TraceSpanPayload {
    /// Span name.
    pub name: String,
    /// Trace the span belongs to.
    pub trace_id: TraceId,
    /// Span identifier.
    pub span_id: SpanId,
    /// Parent span.
    pub parent_span_id: Option<SpanId>,
    /// Start time.
    pub start_time: UtcTime,
    /// End time.
    pub end_time: UtcTime,
    /// Span attributes.
    pub attributes: Option<serde_json::Value>,
}

} // verus!
