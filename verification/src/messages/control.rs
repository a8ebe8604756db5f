//! Control messages: acknowledgement, cancellation, interruption and backpressure.

use vstd::prelude::*;

use crate::error::ErrorCode;
use crate::ids::MessageId;

verus! {

/// Payload for `ack`.
#[derive(Debug, Clone, PartialEq, Eq)]
pub struct AckPayload {
    /// Optional note.
    pub note: Option<String>,
}

/// Payload for `nack`: a negative acknowledgement carrying an error.
#[derive(Debug, Clone, PartialEq)]
pub struct NackPayload {
    /// Canonical error code.
    pub code: ErrorCode,
    /// Human-readable explanation.
    pub message: String,
    /// Optional structured details.
    pub details: Option<serde_json::Value>,
}

/// Cancellation target discriminator.
#[derive(Debug, Clone, Copy, PartialEq, Eq, Hash)]
pub enum CancelTargetKind {
    /// Cancel a job.
    Job,
    /// Cancel a stream.
    Stream,
    /// Cancel an entire session.
    Session,
}

/// Payload for `cancel`.
#[derive(Debug, Clone, PartialEq, Eq)]
pub struct CancelPayload {
    /// Kind of target.
    pub target: CancelTargetKind,
    /// Identifier of the target.
    pub target_id: String,
    /// Free-form reason.
    pub reason: Option<String>,
    /// Cooperative-cancel deadline in milliseconds.
    pub deadline_ms: Option<u64>,
}

/// Payload for `cancel.accepted`.
#[derive(Debug, Clone, Default, PartialEq, Eq)]
pub struct CancelAcceptedPayload {
    /// Echo of the cancel target id.
    pub target_id: Option<String>,
}

/// Payload for `cancel.refused`.
#[derive(Debug, Clone, PartialEq, Eq)]
pub struct CancelRefusedPayload {
    /// Echo of the cancel target id.
    pub target_id: String,
    /// Reason for refusal.
    pub reason: String,
}

/// Payload for `interrupt`.
#[derive(Debug, Clone, PartialEq, Eq)]
pub struct InterruptPayload {
    /// Kind of target.
    pub target: CancelTargetKind,
    /// Identifier of the target.
    pub target_id: String,
    /// Prompt for the human follow-up.
    pub prompt: String,
}

/// Payload for the legacy `resume` envelope.
#[derive(Debug, Clone, Default, PartialEq, Eq)]
pub struct ResumePayload {
    /// Replay strictly after this message id.
    pub after_message_id: Option<MessageId>,
    /// Checkpoint to restore from.
    pub checkpoint_id: Option<String>,
    /// Whether to re-open active streams.
    pub include_open_streams: bool,
}

/// Payload for `backpressure`.
#[derive(Debug, Clone, PartialEq, Eq)]
pub struct BackpressurePayload {
    /// Desired chunk rate per second.
    pub desired_rate_per_second: Option<u32>,
    /// Approximate buffer headroom in bytes.
    pub buffer_remaining_bytes: Option<u64>,
    /// Free-form reason.
    pub reason: Option<String>,
}

} // verus!
