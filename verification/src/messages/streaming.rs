//! Streaming messages.

use vstd::prelude::*;

use crate::error::ErrorCode;

verus! {

/// Kind of a stream.
#[derive(Debug, Clone, Copy, PartialEq, Eq, Hash)]
pub enum StreamKind {
    /// Plain text.
    Text,
    /// Opaque bytes.
    Binary,
    /// Structured JSON events.
    Event,
    /// Structured log lines.
    Log,
    /// Telemetry samples.
    Metric,
    /// Model reasoning.
    Thought,
}

/// Payload for `stream.open`.
#[derive(Debug, Clone, PartialEq, Eq)]
pub struct StreamOpenPayload {
    /// Stream kind.
    pub kind: StreamKind,
    /// Content type.
    pub content_type: Option<String>,
    /// Encoding.
    pub encoding: Option<String>,
}

/// Payload for `stream.chunk`.
#[derive(Debug, Clone, PartialEq)]
pub struct StreamChunkPayload {
    /// Per-stream sequence number.
    pub sequence: u64,
    /// Inline data.
    pub data: serde_json::Value,
    /// Content type override.
    pub content_type: Option<String>,
    /// Integrity hash for binary chunks.
    pub sha256: Option<String>,
    /// True for a redacted thought chunk.
    pub redacted: bool,
    /// Role marker for thought chunks.
    pub role: Option<String>,
}

/// Payload for `stream.close`.
#[derive(Debug, Clone, Default, PartialEq, Eq)]
pub struct StreamClosePayload {
    /// Optional final sequence number.
    pub final_sequence: Option<u64>,
}

/// Payload for `stream.error`.
#[derive(Debug, Clone, PartialEq, Eq)]
pub struct StreamErrorPayload {
    /// Canonical error code.
    pub code: ErrorCode,
    /// Human-readable message.
    pub message: String,
}

} // verus!
