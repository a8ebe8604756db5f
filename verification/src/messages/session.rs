//! Session messages: handshake, resume, heartbeat, flow control and job listing.

use vstd::prelude::*;

use crate::error::ErrorCode;
use crate::ids::{JobId, SessionId};
use crate::messages::Capabilities;
use crate::time::UtcTime;

verus! {

/// `auth.scheme` discriminator.
#[derive(Debug, Clone, Copy, PartialEq, Eq, Hash)]
pub enum AuthScheme {
    /// Opaque token validated against the runtime trust store.
    Bearer,
    /// Signed JWT with `aud` set to the runtime identity.
    SignedJwt,
    /// Anonymous (`none` on the wire); only valid when anonymous sessions
    /// are negotiated.
    Anonymous,
    /// Mutual TLS established at the transport.
    Mtls,
    /// OAuth2 access token.
    Oauth2,
}

/// Credentials block carried in `session.open`.
#[derive(Debug, Clone, PartialEq, Eq)]
pub struct Credentials {
    /// Auth scheme.
    pub scheme: AuthScheme,
    /// Token payload (omitted for `mtls` and `none`).
    pub token: Option<String>,
}

/// Client identity attestation block.
#[derive(Debug, Clone, PartialEq, Eq)]
pub struct ClientIdentity {
    /// Implementation kind.
    pub kind: String,
    /// Implementation version.
    pub version: String,
    /// Optional fingerprint.
    pub fingerprint: Option<String>,
    /// Optional principal identifier.
    pub principal: Option<String>,
}

/// Runtime identity block emitted in `session.accepted`.
#[derive(Debug, Clone, PartialEq, Eq)]
pub struct RuntimeIdentity {
    /// Implementation kind.
    pub kind: String,
    /// Implementation version.
    pub version: String,
    /// Optional fingerprint clients can pin.
    pub fingerprint: Option<String>,
    /// Trust level.
    pub trust_level: Option<String>,
}

/// Session lease information surfaced in `session.accepted`.
#[derive(Debug, Clone, PartialEq, Eq)]
pub struct SessionLease {
    /// Absolute expiry time.
    pub expires_at: UtcTime,
}

/// Payload for `session.open`.
#[derive(Debug, Clone, PartialEq)]
pub struct SessionOpenPayload {
    /// Credentials.
    pub auth: Credentials,
    /// Client identity attestation.
    pub client: ClientIdentity,
    /// Proposed capability set.
    pub capabilities: Capabilities,
}

/// Payload for `session.challenge`.
#[derive(Debug, Clone, PartialEq, Eq)]
pub struct SessionChallengePayload {
    /// Challenge nonce or instructions.
    pub challenge: String,
}

/// Payload for `session.authenticate`.
#[derive(Debug, Clone, PartialEq, Eq)]
pub struct SessionAuthenticatePayload {
    /// Response to the challenge.
    pub response: String,
}

/// Payload for `session.accepted`.
#[derive(Debug, Clone, PartialEq)]
pub struct SessionAcceptedPayload {
    /// Newly minted session id.
    pub session_id: SessionId,
    /// Runtime identity block.
    pub runtime: RuntimeIdentity,
    /// Negotiated capability set.
    pub capabilities: Capabilities,
    /// Session lease.
    pub lease: Option<SessionLease>,
    /// Resume token; rotates on every successful welcome.
    pub resume_token: Option<String>,
}

/// Payload for `session.resume`: reconnect with a resume token.
#[derive(Debug, Clone, PartialEq, Eq)]
pub struct SessionResumePayload {
    /// Most recent resume token.
    pub resume_token: String,
    /// Highest event sequence the client processed.
    pub last_event_seq: u64,
}

/// Payload for `session.resumed`.
#[derive(Debug, Clone, PartialEq, Eq)]
pub struct SessionResumedPayload {
    /// The resumed session.
    pub session_id: SessionId,
    /// Rotated resume token.
    pub resume_token: String,
    /// Sequence the replay started after.
    pub replayed_from: u64,
    /// Whether any events were replayed.
    pub replayed: bool,
}

/// Payload for `session.unauthenticated`.
#[derive(Debug, Clone, PartialEq, Eq)]
pub struct SessionUnauthenticatedPayload {
    /// Canonical error code.
    pub code: ErrorCode,
    /// Human-readable message.
    pub message: String,
}

/// Payload for `session.rejected`.
#[derive(Debug, Clone, PartialEq, Eq)]
pub struct SessionRejectedPayload {
    /// Canonical error code.
    pub code: ErrorCode,
    /// Human-readable message.
    pub message: String,
}

/// Payload for `session.refresh`.
#[derive(Debug, Clone, PartialEq, Eq)]
pub struct SessionRefreshPayload {
    /// Deadline for re-authentication.
    pub deadline: UtcTime,
    /// Optional challenge.
    pub challenge: Option<String>,
}

/// Payload for `session.evicted`.
#[derive(Debug, Clone, PartialEq, Eq)]
pub struct SessionEvictedPayload {
    /// Canonical error code.
    pub code: ErrorCode,
    /// Reason.
    pub reason: String,
}

/// Payload for `session.close`.
#[derive(Debug, Clone, Default, PartialEq, Eq)]
pub struct SessionClosePayload {
    /// Optional reason.
    pub reason: Option<String>,
}

/// Payload for `session.closed`, acknowledging a close.
#[derive(Debug, Clone, Default, PartialEq, Eq)]
pub struct SessionClosedPayload {
    /// Optional reason.
    pub reason: Option<String>,
}

/// Payload for `session.ping`.
#[derive(Debug, Clone, PartialEq, Eq)]
pub struct SessionPingPayload {
    /// Nonce echoed in the pong.
    pub nonce: String,
    /// Send time.
    pub sent_at: UtcTime,
}

/// Payload for `session.pong`.
#[derive(Debug, Clone, PartialEq, Eq)]
pub struct SessionPongPayload {
    /// Echo of the ping nonce.
    pub ping_nonce: String,
    /// Receive time.
    pub received_at: UtcTime,
}

/// Payload for `session.ack`: client-side flow-control acknowledgement.
#[derive(Debug, Clone, PartialEq, Eq)]
pub struct SessionAckPayload {
    /// Highest event sequence the client processed.
    pub last_processed_seq: u64,
}

/// Optional filter for `session.list_jobs`.
#[derive(Debug, Clone, Default, PartialEq, Eq)]
pub struct SessionListJobsFilter {
    /// Match jobs whose status is one of these.
    pub status: Vec<String>,
    /// Match jobs whose agent equals this value.
    pub agent: Option<String>,
    /// Match jobs created strictly after this instant.
    pub created_after: Option<UtcTime>,
    /// Match jobs created strictly before this instant.
    pub created_before: Option<UtcTime>,
}

/// Payload for `session.list_jobs`.
#[derive(Debug, Clone, Default, PartialEq, Eq)]
pub struct SessionListJobsPayload {
    /// Optional filter.
    pub filter: Option<SessionListJobsFilter>,
    /// Maximum number of entries.
    pub limit: Option<u32>,
    /// Pagination cursor.
    pub cursor: Option<String>,
}

/// One entry of `session.jobs`.
#[derive(Debug, Clone, PartialEq, Eq)]
pub struct JobListEntry {
    /// Job identifier.
    pub job_id: JobId,
    /// Resolved agent reference.
    pub agent: String,
    /// Current status.
    pub status: String,
    /// Parent job, for delegated jobs.
    pub parent_job_id: Option<JobId>,
    /// Submission time.
    pub created_at: UtcTime,
    /// Optional trace identifier.
    pub trace_id: Option<String>,
    /// Last event sequence emitted for the job.
    pub last_event_seq: u64,
}

/// Payload for `session.jobs`.
#[derive(Debug, Clone, PartialEq, Eq)]
pub struct SessionJobsPayload {
    /// Request id of the matching `session.list_jobs`.
    pub request_id: String,
    /// Job summaries.
    pub jobs: Vec<JobListEntry>,
    /// Continuation cursor.
    pub next_cursor: Option<String>,
}

} // verus!
