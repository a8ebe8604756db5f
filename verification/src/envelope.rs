//! The canonical envelope around every protocol message.

use vstd::prelude::*;

use crate::ids::{IdempotencyKey, JobId, MessageId, SessionId, StreamId, SubscriptionId, TraceId};
use crate::messages::MessageType;

verus! {

/// Delivery priority of an envelope.
#[derive(Debug, Clone, Copy, PartialEq, Eq, Hash, Structural)]
pub enum Priority {
    /// `low`
    Low,
    /// `normal` (the default)
    Normal,
    /// `high`
    High,
    /// `critical`
    Critical,
}

impl Default for Priority {
    fn default() -> (p: Self)
        ensures
            p == Priority::Normal,
    {
        Priority::Normal
    }
}

/// One protocol message with its routing metadata.
#[derive(Clone, PartialEq)]
pub struct Envelope {
    /// Unique message id.
    pub id: MessageId,
    /// Session the message belongs to.
    pub session_id: Option<SessionId>,
    /// Trace the message belongs to.
    pub trace_id: Option<TraceId>,
    /// Job the message concerns.
    pub job_id: Option<JobId>,
    /// Stream the message belongs to.
    pub stream_id: Option<StreamId>,
    /// Subscription that delivered the message.
    pub subscription_id: Option<SubscriptionId>,
    /// Id of the message this one answers.
    pub correlation_id: Option<MessageId>,
    /// Client idempotency key.
    pub idempotency_key: Option<IdempotencyKey>,
    /// Session-scoped sequence number of a countable event.
    pub event_seq: Option<u64>,
    /// Delivery priority.
    pub priority: Priority,
    /// The message itself.
    pub payload: MessageType,
}

impl Envelope {
    /// A fresh envelope around `payload`: a new message id, normal
    /// priority, and no routing metadata.
    pub fn new(payload: MessageType) -> (e: Self)
        ensures
            e.payload == payload,
            e.session_id is None,
            e.trace_id is None,
            e.job_id is None,
            e.stream_id is None,
            e.subscription_id is None,
            e.correlation_id is None,
            e.idempotency_key is None,
            e.event_seq is None,
            e.priority == Priority::Normal,
    {
        Envelope {
            id: MessageId::new(),
            session_id: None,
            trace_id: None,
            job_id: None,
            stream_id: None,
            subscription_id: None,
            correlation_id: None,
            idempotency_key: None,
            event_seq: None,
            priority: Priority::Normal,
            payload,
        }
    }
}

} // verus!
