use arcp::error::ErrorCode;
use arcp::ids::{ArtifactId, JobId, LeaseId, SessionId, SpanId, SubscriptionId, TraceId};
use arcp::messages::artifacts::{
    ArtifactFetchPayload, ArtifactPutPayload, ArtifactRef, ArtifactRefPayload, ArtifactReleasePayload,
};
use arcp::messages::control::{
    AckPayload, BackpressurePayload, CancelAcceptedPayload, CancelPayload, CancelRefusedPayload,
    CancelTargetKind, InterruptPayload, NackPayload, ResumePayload,
};
use arcp::messages::execution::{
    AgentRef, JobAcceptedPayload, JobCancelledPayload, JobCompletedPayload, JobFailedPayload,
    JobHeartbeatPayload, JobProgressPayload, JobResultChunkPayload, JobStartedPayload, JobState,
    ResultChunkEncoding, ToolErrorPayload, ToolInvokePayload, ToolResultPayload,
};
use arcp::messages::permissions::{
    LeaseExtendedPayload, LeaseGrantedPayload, LeaseRefreshPayload, LeaseRevokedPayload,
    PermissionDenyPayload, PermissionGrantPayload, PermissionRequestPayload,
};
use arcp::messages::session::{
    AuthScheme, ClientIdentity, Credentials, RuntimeIdentity, SessionAcceptedPayload,
    SessionAckPayload, SessionAuthenticatePayload, SessionChallengePayload, SessionClosePayload,
    SessionClosedPayload, SessionEvictedPayload, SessionJobsPayload, SessionListJobsPayload,
    SessionOpenPayload, SessionPingPayload, SessionPongPayload, SessionRefreshPayload,
    SessionRejectedPayload, SessionResumePayload, SessionResumedPayload,
    SessionUnauthenticatedPayload,
};
use arcp::messages::streaming::{
    StreamChunkPayload, StreamClosePayload, StreamErrorPayload, StreamKind, StreamOpenPayload,
};
use arcp::messages::subscriptions::{
    JobSubscribePayload, JobSubscribedPayload, JobUnsubscribePayload, SubscribeAcceptedPayload,
    SubscribeClosedPayload, SubscribeEventPayload, SubscribePayload, UnsubscribePayload,
};
use arcp::messages::telemetry::TraceSpanPayload;
use arcp::messages::{
    AgentInventory, AgentInventoryEntry, Capabilities, CapabilityName, EventEmitPayload, LogLevel,
    LogPayload, MessageType, MetricPayload, PingPayload, PongPayload,
};
use arcp::time::UtcTime;

fn empty_object() -> serde_json::Value {
    serde_json::Value::Object(serde_json::Map::new())
}

fn now() -> UtcTime {
    UtcTime { secs: 1_700_000_000, nanos: 0 }
}

fn open_payload() -> SessionOpenPayload {
    SessionOpenPayload {
        auth: Credentials { scheme: AuthScheme::Anonymous, token: None },
        client: ClientIdentity {
            kind: "t".into(),
            version: "0".into(),
            fingerprint: None,
            principal: None,
        },
        capabilities: Capabilities::default(),
    }
}

/// One instance of every `MessageType` variant with its wire name.
fn every_variant() -> Vec<(MessageType, &'static str)> {
    let now = now();
    vec![
        (MessageType::SessionOpen(open_payload()), "session.open"),
        (
            MessageType::SessionChallenge(SessionChallengePayload { challenge: "x".into() }),
            "session.challenge",
        ),
        (
            MessageType::SessionAuthenticate(SessionAuthenticatePayload { response: "x".into() }),
            "session.authenticate",
        ),
        (
            MessageType::SessionAccepted(SessionAcceptedPayload {
                session_id: SessionId::new(),
                runtime: RuntimeIdentity {
                    kind: "rt".into(),
                    version: "0".into(),
                    fingerprint: None,
                    trust_level: None,
                },
                capabilities: Capabilities::default(),
                lease: None,
                resume_token: None,
            }),
            "session.accepted",
        ),
        (
            MessageType::SessionUnauthenticated(SessionUnauthenticatedPayload {
                code: ErrorCode::Unauthenticated,
                message: "x".into(),
            }),
            "session.unauthenticated",
        ),
        (
            MessageType::SessionRejected(SessionRejectedPayload {
                code: ErrorCode::Unauthenticated,
                message: "x".into(),
            }),
            "session.rejected",
        ),
        (
            MessageType::SessionRefresh(SessionRefreshPayload { deadline: now, challenge: None }),
            "session.refresh",
        ),
        (
            MessageType::SessionEvicted(SessionEvictedPayload {
                code: ErrorCode::Cancelled,
                reason: "x".into(),
            }),
            "session.evicted",
        ),
        (MessageType::SessionClose(SessionClosePayload::default()), "session.close"),
        (MessageType::SessionClosed(SessionClosedPayload::default()), "session.closed"),
        (
            MessageType::SessionResume(SessionResumePayload {
                resume_token: "rt_x".into(),
                last_event_seq: 0,
            }),
            "session.resume",
        ),
        (
            MessageType::SessionResumed(SessionResumedPayload {
                session_id: SessionId::new(),
                resume_token: "rt_y".into(),
                replayed_from: 0,
                replayed: false,
            }),
            "session.resumed",
        ),
        (
            MessageType::SessionPing(SessionPingPayload { nonce: "n".into(), sent_at: now }),
            "session.ping",
        ),
        (
            MessageType::SessionPong(SessionPongPayload { ping_nonce: "n".into(), received_at: now }),
            "session.pong",
        ),
        (
            MessageType::SessionAck(SessionAckPayload { last_processed_seq: 0 }),
            "session.ack",
        ),
        (MessageType::SessionListJobs(SessionListJobsPayload::default()), "session.list_jobs"),
        (
            MessageType::SessionJobs(SessionJobsPayload {
                request_id: "r".into(),
                jobs: vec![],
                next_cursor: None,
            }),
            "session.jobs",
        ),
        (MessageType::Ping(PingPayload::default()), "ping"),
        (MessageType::Pong(PongPayload::default()), "pong"),
        (MessageType::Ack(AckPayload { note: None }), "ack"),
        (
            MessageType::Nack(NackPayload {
                code: ErrorCode::Unknown,
                message: "x".into(),
                details: None,
            }),
            "nack",
        ),
        (
            MessageType::Cancel(CancelPayload {
                target: CancelTargetKind::Job,
                target_id: "x".into(),
                reason: None,
                deadline_ms: None,
            }),
            "cancel",
        ),
        (
            MessageType::CancelAccepted(CancelAcceptedPayload { target_id: None }),
            "cancel.accepted",
        ),
        (
            MessageType::CancelRefused(CancelRefusedPayload {
                target_id: "x".into(),
                reason: "x".into(),
            }),
            "cancel.refused",
        ),
        (
            MessageType::Interrupt(InterruptPayload {
                target: CancelTargetKind::Job,
                target_id: "x".into(),
                prompt: "x".into(),
            }),
            "interrupt",
        ),
        (MessageType::Resume(ResumePayload::default()), "resume"),
        (
            MessageType::Backpressure(BackpressurePayload {
                desired_rate_per_second: None,
                buffer_remaining_bytes: None,
                reason: None,
            }),
            "backpressure",
        ),
        (MessageType::ToolInvoke(ToolInvokePayload::new("x", empty_object())), "tool.invoke"),
        (
            MessageType::ToolResult(ToolResultPayload { value: None, result_ref: None }),
            "tool.result",
        ),
        (
            MessageType::ToolError(ToolErrorPayload {
                code: ErrorCode::Internal,
                retryable: None,
                message: "x".into(),
                details: None,
            }),
            "tool.error",
        ),
        (
            MessageType::JobAccepted(JobAcceptedPayload {
                job_id: JobId::new(),
                credentials: vec![],
                lease: None,
            }),
            "job.accepted",
        ),
        (MessageType::JobStarted(JobStartedPayload { description: None }), "job.started"),
        (
            MessageType::JobProgress(JobProgressPayload {
                current_bits: 0.0f64.to_bits(),
                total_bits: None,
                units: None,
                message: None,
            }),
            "job.progress",
        ),
        (
            MessageType::JobHeartbeat(JobHeartbeatPayload {
                sequence: 1,
                deadline_ms: None,
                state: JobState::Running,
            }),
            "job.heartbeat",
        ),
        (
            MessageType::JobCompleted(JobCompletedPayload {
                value: None,
                result_ref: None,
                result_id: None,
                result_size: None,
                summary: None,
            }),
            "job.completed",
        ),
        (
            MessageType::JobResultChunk(JobResultChunkPayload {
                result_id: "r".into(),
                chunk_seq: 0,
                data: "x".into(),
                encoding: ResultChunkEncoding::Utf8,
                more: false,
            }),
            "job.result_chunk",
        ),
        (
            MessageType::JobFailed(JobFailedPayload {
                code: ErrorCode::Internal,
                retryable: None,
                message: "x".into(),
                details: None,
            }),
            "job.failed",
        ),
        (MessageType::JobCancelled(JobCancelledPayload { reason: None }), "job.cancelled"),
        (
            MessageType::StreamOpen(StreamOpenPayload {
                kind: StreamKind::Text,
                content_type: None,
                encoding: None,
            }),
            "stream.open",
        ),
        (
            MessageType::StreamChunk(StreamChunkPayload {
                sequence: 0,
                data: serde_json::Value::String(String::new()),
                content_type: None,
                sha256: None,
                redacted: false,
                role: None,
            }),
            "stream.chunk",
        ),
        (MessageType::StreamClose(StreamClosePayload::default()), "stream.close"),
        (
            MessageType::StreamError(StreamErrorPayload {
                code: ErrorCode::Internal,
                message: "x".into(),
            }),
            "stream.error",
        ),
        (
            MessageType::PermissionRequest(PermissionRequestPayload {
                permission: "p".into(),
                resource: "r".into(),
                operation: "o".into(),
                reason: None,
                requested_lease_seconds: None,
            }),
            "permission.request",
        ),
        (
            MessageType::PermissionGrant(PermissionGrantPayload {
                permission: "p".into(),
                resource: "r".into(),
                operation: "o".into(),
                lease_seconds: 1,
            }),
            "permission.grant",
        ),
        (
            MessageType::PermissionDeny(PermissionDenyPayload {
                permission: "p".into(),
                reason: "x".into(),
            }),
            "permission.deny",
        ),
        (
            MessageType::LeaseGranted(LeaseGrantedPayload {
                lease_id: LeaseId::new(),
                permission: "p".into(),
                resource: "r".into(),
                operation: "o".into(),
                expires_at: now,
            }),
            "lease.granted",
        ),
        (
            MessageType::LeaseExtended(LeaseExtendedPayload { lease_id: LeaseId::new(), expires_at: now }),
            "lease.extended",
        ),
        (
            MessageType::LeaseRevoked(LeaseRevokedPayload {
                lease_id: LeaseId::new(),
                reason: "x".into(),
            }),
            "lease.revoked",
        ),
        (
            MessageType::LeaseRefresh(LeaseRefreshPayload {
                lease_id: LeaseId::new(),
                additional_seconds: 1,
            }),
            "lease.refresh",
        ),
        (MessageType::Subscribe(SubscribePayload::default()), "subscribe"),
        (
            MessageType::SubscribeAccepted(SubscribeAcceptedPayload {
                subscription_id: SubscriptionId::new(),
            }),
            "subscribe.accepted",
        ),
        (
            MessageType::SubscribeEvent(SubscribeEventPayload { event: empty_object() }),
            "subscribe.event",
        ),
        (
            MessageType::Unsubscribe(UnsubscribePayload { subscription_id: SubscriptionId::new() }),
            "unsubscribe",
        ),
        (
            MessageType::SubscribeClosed(SubscribeClosedPayload {
                subscription_id: SubscriptionId::new(),
                code: ErrorCode::Cancelled,
                reason: "x".into(),
            }),
            "subscribe.closed",
        ),
        (
            MessageType::JobSubscribe(JobSubscribePayload {
                job_id: JobId::new(),
                from_event_seq: None,
                history: false,
            }),
            "job.subscribe",
        ),
        (
            MessageType::JobSubscribed(JobSubscribedPayload {
                job_id: JobId::new(),
                current_status: "running".into(),
                agent: "echo".into(),
                parent_job_id: None,
                trace_id: None,
                subscribed_from: 0,
                replayed: false,
            }),
            "job.subscribed",
        ),
        (
            MessageType::JobUnsubscribe(JobUnsubscribePayload { job_id: JobId::new() }),
            "job.unsubscribe",
        ),
        (
            MessageType::ArtifactPut(ArtifactPutPayload {
                media_type: "x".into(),
                data: String::new(),
                sha256: None,
                retain_seconds: None,
            }),
            "artifact.put",
        ),
        (
            MessageType::ArtifactFetch(ArtifactFetchPayload { artifact_id: ArtifactId::new() }),
            "artifact.fetch",
        ),
        (
            MessageType::ArtifactRef(ArtifactRefPayload {
                artifact: ArtifactRef {
                    artifact_id: ArtifactId::new(),
                    uri: "arcp://x".into(),
                    media_type: "x".into(),
                    size: 0,
                    sha256: None,
                    expires_at: None,
                },
            }),
            "artifact.ref",
        ),
        (
            MessageType::ArtifactRelease(ArtifactReleasePayload { artifact_id: ArtifactId::new() }),
            "artifact.release",
        ),
        (
            MessageType::EventEmit(EventEmitPayload { name: "x".into(), data: None }),
            "event.emit",
        ),
        (
            MessageType::Log(LogPayload {
                level: LogLevel::Info,
                message: "x".into(),
                attributes: None,
            }),
            "log",
        ),
        (
            MessageType::Metric(MetricPayload {
                name: "x".into(),
                value_bits: 0.0f64.to_bits(),
                unit: "u".into(),
                dims: None,
            }),
            "metric",
        ),
        (
            MessageType::TraceSpan(TraceSpanPayload {
                name: "x".into(),
                trace_id: TraceId::new("t").expect("non-empty"),
                span_id: SpanId::new("s").expect("non-empty"),
                parent_span_id: None,
                start_time: now,
                end_time: now,
                attributes: None,
            }),
            "trace.span",
        ),
    ]
}

fn check_discriminators() {
    let cases = [
        (MessageType::Ping(PingPayload::default()), "ping"),
        (MessageType::Pong(PongPayload::default()), "pong"),
        (
            MessageType::EventEmit(EventEmitPayload { name: "x".into(), data: None }),
            "event.emit",
        ),
    ];
    for (m, expected) in cases {
        assert_eq!(m.wire_name(), expected);
    }
}

#[test]
fn mod_type_name_matches_wire_discriminator() {
    check_discriminators();
}

#[test]
fn tests_type_name_matches_wire_discriminator() {
    check_discriminators();
}

fn check_capabilities_default() {
    let c = Capabilities::default();
    assert!(!c.has(CapabilityName::Streaming));
    assert!(!c.has(CapabilityName::Anonymous));
}

#[test]
fn mod_capabilities_default_is_empty() {
    check_capabilities_default();
}

#[test]
fn tests_capabilities_default_is_empty() {
    check_capabilities_default();
}

fn check_inventory_rules() {
    let flat = AgentInventory::Flat(vec!["echo".into()]);
    assert!(flat.satisfies(&AgentRef::parse("echo").expect("parse")));
    assert!(flat.satisfies(&AgentRef::parse("echo@1.0.0").expect("parse")));

    let rich = AgentInventory::Rich(vec![AgentInventoryEntry {
        name: "echo".into(),
        versions: vec!["1.0.0".into(), "2.0.0".into()],
        default: Some("2.0.0".into()),
    }]);
    assert!(rich.satisfies(&AgentRef::parse("echo").expect("parse")));
    assert!(rich.satisfies(&AgentRef::parse("echo@1.0.0").expect("parse")));
    assert!(!rich.satisfies(&AgentRef::parse("echo@9.9.9").expect("parse")));
    assert!(!rich.satisfies(&AgentRef::parse("other").expect("parse")));
}

#[test]
fn mod_agent_inventory_satisfies_resolution_rules() {
    check_inventory_rules();
}

#[test]
fn tests_agent_inventory_satisfies_resolution_rules() {
    check_inventory_rules();
}

fn check_handshake() {
    assert!(MessageType::SessionOpen(open_payload()).is_handshake());
    assert!(!MessageType::Ping(PingPayload::default()).is_handshake());
}

#[test]
fn mod_handshake_messages_classified_correctly() {
    check_handshake();
}

#[test]
fn tests_handshake_messages_classified_correctly() {
    check_handshake();
}

fn check_countable() {
    let now = now();
    assert!(!MessageType::SessionPing(SessionPingPayload { nonce: "n".into(), sent_at: now })
        .is_countable_event());
    assert!(!MessageType::SessionAck(SessionAckPayload { last_processed_seq: 0 }).is_countable_event());
    assert!(!MessageType::Ping(PingPayload::default()).is_countable_event());
    assert!(MessageType::JobAccepted(JobAcceptedPayload {
        job_id: JobId::new(),
        credentials: vec![],
        lease: None,
    })
    .is_countable_event());
}

#[test]
fn mod_countable_event_classification_excludes_session_control() {
    check_countable();
}

#[test]
fn tests_countable_event_classification_excludes_session_control() {
    check_countable();
}

#[test]
fn mod_type_name_covers_every_variant() {
    let cases: Vec<(MessageType, &'static str)> = every_variant()
        .into_iter()
        .filter(|(_, name)| !matches!(*name, "session.closed" | "session.resume" | "session.resumed"))
        .collect();
    for (msg, expected) in &cases {
        assert_eq!(msg.wire_name(), *expected);
    }
    assert_eq!(cases.len(), 62);
}

#[test]
fn tests_type_name_covers_every_variant() {
    let cases = every_variant();
    for (msg, expected) in &cases {
        assert_eq!(msg.wire_name(), *expected);
    }
    assert_eq!(cases.len(), 65);
}

#[test]
fn wire_names_are_pairwise_distinct() {
    let cases = every_variant();
    let names: std::collections::HashSet<&'static str> = cases.iter().map(|(m, _)| m.wire_name()).collect();
    assert_eq!(names.len(), cases.len());
}

#[test]
fn resume_handshake_messages_count_as_handshake() {
    for (msg, name) in every_variant() {
        let expected = matches!(
            name,
            "session.open"
                | "session.challenge"
                | "session.authenticate"
                | "session.accepted"
                | "session.unauthenticated"
                | "session.rejected"
                | "session.resume"
                | "session.resumed"
        );
        assert_eq!(msg.is_handshake(), expected, "{name}");
    }
}

#[test]
fn countable_events_exclude_every_session_and_heartbeat_message() {
    for (msg, name) in every_variant() {
        let expected = !(name.starts_with("session.") || name == "ping" || name == "pong");
        assert_eq!(msg.is_countable_event(), expected, "{name}");
    }
}

#[test]
fn capability_flags_read_each_field() {
    let mut c = Capabilities::default();
    c.streaming = Some(true);
    c.anonymous = Some(false);
    assert!(c.has(CapabilityName::Streaming));
    assert!(!c.has(CapabilityName::Anonymous));
    assert!(!c.has(CapabilityName::Subscriptions));
}

#[test]
fn flat_inventory_converts_to_rich_entries_without_versions() {
    let flat = AgentInventory::Flat(vec!["a".into(), "b".into()]);
    let rich = flat.into_rich();
    assert_eq!(rich.len(), 2);
    assert_eq!(rich[0].name, "a");
    assert!(rich[0].versions.is_empty());
    assert_eq!(rich[0].default, None);
    assert_eq!(rich[1].name, "b");
}
