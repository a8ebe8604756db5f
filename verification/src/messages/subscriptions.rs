//! Subscription messages: the envelope bus filter and job subscriptions.

use vstd::prelude::*;

use crate::envelope::Priority;
use crate::error::ErrorCode;
use crate::ids::{JobId, MessageId, SessionId, StreamId, SubscriptionId, TraceId};

verus! {

/// Filter clauses for a `subscribe` request.
///
/// Within a clause, list elements are OR'ed; across clauses, all conditions
/// are AND'ed. An empty list places no condition.
#[derive(Debug, Clone, Default, PartialEq, Eq)]
pub struct SubscriptionFilter {
    /// Match envelopes whose `session_id` is in this list.
    pub session_id: Vec<SessionId>,
    /// Match envelopes whose `trace_id` is in this list.
    pub trace_id: Vec<TraceId>,
    /// Match envelopes whose `job_id` is in this list.
    pub job_id: Vec<JobId>,
    /// Match envelopes whose `stream_id` is in this list.
    pub stream_id: Vec<StreamId>,
    /// Match envelopes whose `type` is in this list.
    pub types: Vec<String>,
    /// Minimum priority.
    pub min_priority: Option<Priority>,
}

/// `since` clause for backfill.
#[derive(Debug, Clone, Default, PartialEq, Eq)]
pub struct SubscriptionSince {
    /// Replay strictly after this message id.
    pub after_message_id: Option<MessageId>,
}

/// Payload for `subscribe`.
#[derive(Debug, Clone, Default, PartialEq, Eq)]
pub struct SubscribePayload {
    /// Filter.
    pub filter: SubscriptionFilter,
    /// Optional backfill clause.
    pub since: Option<SubscriptionSince>,
}

/// Payload for `subscribe.accepted`.
#[derive(Debug, Clone, PartialEq, Eq)]
pub struct SubscribeAcceptedPayload {
    /// Newly minted subscription id.
    pub subscription_id: SubscriptionId,
}

/// Payload for `subscribe.event`: wraps another envelope as JSON.
#[derive(Debug, Clone, PartialEq)]
pub struct SubscribeEventPayload {
    /// The wrapped event envelope.
    pub event: serde_json::Value,
}

/// Payload for `unsubscribe`.
#[derive(Debug, Clone, PartialEq, Eq)]
pub struct UnsubscribePayload {
    /// Subscription to terminate.
    pub subscription_id: SubscriptionId,
}

/// Payload for `subscribe.closed`.
#[derive(Debug, Clone, PartialEq, Eq)]
pub struct SubscribeClosedPayload {
    /// Subscription that was closed.
    pub subscription_id: SubscriptionId,
    /// Reason code.
    pub code: ErrorCode,
    /// Free-form reason.
    pub reason: String,
}

/// Payload for `job.subscribe`: attach to another session's job.
#[derive(Debug, Clone, PartialEq, Eq)]
pub struct JobSubscribePayload {
    /// Job to attach to.
    pub job_id: JobId,
    /// Replay floor (exclusive).
    pub from_event_seq: Option<u64>,
    /// Whether to replay buffered history.
    pub history: bool,
}

/// Payload for `job.subscribed`.
#[derive(Debug, Clone, PartialEq, Eq)]
pub struct JobSubscribedPayload {
    /// Job that was attached to.
    pub job_id: JobId,
    /// Wire status at subscription time.
    pub current_status: String,
    /// Resolved agent reference.
    pub agent: String,
    /// Parent job, for delegated jobs.
    pub parent_job_id: Option<JobId>,
    /// Trace identifier inherited from the job.
    pub trace_id: Option<String>,
    /// Event sequence the subscription attached at.
    pub subscribed_from: u64,
    /// Whether buffered history was replayed.
    pub replayed: bool,
}

/// Payload for `job.unsubscribe`.
#[derive(Debug, Clone, PartialEq, Eq)]
pub struct JobUnsubscribePayload {
    /// Job whose subscription ends.
    pub job_id: JobId,
}

} // verus!
