use arcp::auth::{AuthOutcome, BearerAuthenticator, NoneAuthenticator};
use arcp::envelope::Envelope;
use arcp::error::{ARCPError, ErrorCode};
use arcp::ids::{IdempotencyKey, JobId, MessageId, SessionId};
use arcp::messages::execution::{JobAcceptedPayload, JobState, ToolInvokePayload};
use arcp::messages::permissions::LeaseRequest;
use arcp::messages::session::{AuthScheme, ClientIdentity, Credentials, SessionListJobsFilter};
use arcp::messages::{AgentInventory, AgentInventoryEntry, Capabilities, MessageType, PingPayload};
use arcp::runtime::config::RuntimeBuilder;
use arcp::runtime::context::ResultStreamState;
use arcp::runtime::jobs::{
    cancel_reply, canonical_arguments, decide_cancel, duplicate_key_failure, finalize_streamed_completion,
    forward_live_event, idempotency_scope, is_forwardable_job_event, job_subscribed_ack, plan_tool_invoke,
    published_to_subscribers, replay_high_water, streamed_result_from_value, terminal_payload,
    CancelDecision, IdempotencyIndex, InvokeAdmission, JobTerminal, Reuse,
};
use arcp::runtime::principals::{
    cancel_principal_matches, job_subscribe_permitted, subscribe_filter_permitted,
    subscription_scope_permits, SessionPrincipals,
};
use arcp::runtime::registry::{JobEntry, JobRegistry, JobSnapshot};
use arcp::runtime::session::{
    answer_challenge, intersect_bool, negotiate_capabilities, open_session, HandshakePhase,
    HandshakeReply, ResumeEntry, ResumeRegistry,
};
use arcp::time::UtcTime;

fn json(text: &str) -> serde_json::Value {
    serde_json::from_str(text).expect("valid JSON")
}

fn at(secs: i64) -> UtcTime {
    UtcTime { secs, nanos: 0 }
}

// --- streamed results ------------------------------------------------

#[test]
fn sentinel_value_becomes_a_streamed_reference() {
    let v = json(r#"{"$arcp_streamed_result":{"result_id":"res_1","result_size":42,"summary":"ok"}}"#);
    let c = streamed_result_from_value(v);
    assert_eq!(c.value, None);
    assert_eq!(c.result_id.as_deref(), Some("res_1"));
    assert_eq!(c.result_size, Some(42));
    assert_eq!(c.summary.as_deref(), Some("ok"));
}

#[test]
fn ordinary_value_stays_inline() {
    let v = json(r#"{"answer":42}"#);
    let c = streamed_result_from_value(v.clone());
    assert_eq!(c.value, Some(v));
    assert_eq!(c.result_id, None);
    // A sentinel next to another key is an ordinary value.
    let two = json(r#"{"$arcp_streamed_result":{"result_id":"r"},"x":1}"#);
    assert_eq!(streamed_result_from_value(two.clone()).value, Some(two));
    // A sentinel without a result id is an ordinary value too.
    let bare = json(r#"{"$arcp_streamed_result":{"summary":"s"}}"#);
    assert_eq!(streamed_result_from_value(bare.clone()).value, Some(bare));
}

#[test]
fn streamed_completion_requires_a_finished_matching_stream() {
    let v = json(r#"{"$arcp_streamed_result":{"result_id":"res_1"}}"#);
    let mut stream = ResultStreamState::new();
    // Nothing streamed: the value completes the job as it is.
    let c = finalize_streamed_completion(&stream, v.clone()).expect("no stream");
    assert_eq!(c.result_id.as_deref(), Some("res_1"));
    stream.record_chunk("res_1", 0, 1, true).expect("first chunk");
    assert!(finalize_streamed_completion(&stream, v.clone()).is_err(), "stream still open");
    stream.record_chunk("res_1", 1, 1, false).expect("terminal chunk");
    let c = finalize_streamed_completion(&stream, v.clone()).expect("finished stream");
    assert_eq!(c.result_id.as_deref(), Some("res_1"));
    let other = json(r#"{"$arcp_streamed_result":{"result_id":"res_2"}}"#);
    assert!(finalize_streamed_completion(&stream, other).is_err());
    assert!(finalize_streamed_completion(&stream, json("7")).is_err(), "inline after a stream");
}

// --- admission ---------------------------------------------------------

fn names(list: &[&str]) -> Vec<String> {
    list.iter().map(|s| (*s).to_owned()).collect()
}

fn rejected(a: &InvokeAdmission) -> Option<(ErrorCode, bool)> {
    match a {
        InvokeAdmission::Reject { code, after_accepted, .. } => Some((*code, *after_accepted)),
        InvokeAdmission::Admit { .. } => None,
    }
}

#[test]
fn tool_invoke_admission_follows_the_order_of_checks() {
    let tools = names(&["echo"]);
    let now = at(1000);
    let bad = plan_tool_invoke("Echo", None, now, false, &None, &tools);
    assert_eq!(rejected(&bad), Some((ErrorCode::InvalidArgument, false)));

    let expired = LeaseRequest { expires_at: Some(at(999)), ..LeaseRequest::default() };
    let r = plan_tool_invoke("echo", Some(expired), now, false, &None, &tools);
    assert_eq!(rejected(&r), Some((ErrorCode::InvalidRequest, false)));

    let r = plan_tool_invoke("echo@1.0.0", None, now, false, &None, &tools);
    assert_eq!(rejected(&r), Some((ErrorCode::AgentVersionNotAvailable, true)));

    let inv = Some(AgentInventory::Rich(vec![AgentInventoryEntry {
        name: "echo".into(),
        versions: vec!["1.0.0".into()],
        default: None,
    }]));
    let r = plan_tool_invoke("echo@1.0.0", None, now, false, &inv, &tools);
    assert!(matches!(r, InvokeAdmission::Admit { defer_accepted: false, .. }));

    let r = plan_tool_invoke("other", None, now, false, &None, &tools);
    assert_eq!(rejected(&r), Some((ErrorCode::AgentNotAvailable, true)));

    let lease = LeaseRequest { expires_at: Some(at(2000)), ..LeaseRequest::default() };
    let r = plan_tool_invoke("echo", Some(lease), now, true, &None, &tools);
    assert!(matches!(r, InvokeAdmission::Admit { defer_accepted: true, .. }));
}

#[test]
fn invoke_payload_constructor_sets_only_tool_and_arguments() {
    let p = ToolInvokePayload::new("echo", json(r#"{"x":1}"#));
    assert_eq!(p.tool, "echo");
    assert_eq!(p.arguments, json(r#"{"x":1}"#));
    assert!(p.cost_budget.is_none() && p.lease_request.is_none());
    assert!(arcp::runtime::jobs::effective_lease(&p).is_none());
}

// --- idempotency -------------------------------------------------------

fn accepted(job: &JobId) -> JobAcceptedPayload {
    JobAcceptedPayload { job_id: job.clone(), credentials: vec![], lease: None }
}

#[test]
fn retry_with_same_intent_replays_the_first_job() {
    let mut index = IdempotencyIndex::new();
    let session = SessionId::new();
    let scope = idempotency_scope(&None, &session);
    assert_eq!(scope, session.as_str());
    assert_eq!(idempotency_scope(&Some("alice".into()), &session), "alice");
    let key = IdempotencyKey::new("k-1").expect("non-empty");
    let args = canonical_arguments(&json(r#"{"a":1}"#));
    assert_eq!(args, r#"{"a":1}"#);
    assert!(matches!(index.lookup(&scope, &key, "echo", &args), Reuse::Fresh));
    let job = JobId::new();
    index.record(scope.clone(), key.clone(), accepted(&job), "echo".into(), args.clone());
    assert_eq!(index.len(), 1);
    match index.lookup(&scope, &key, "echo", &args) {
        Reuse::Replay(a) => assert_eq!(a.job_id, job),
        _ => panic!("expected a replay"),
    }
    assert!(matches!(index.lookup(&scope, &key, "echo", r#"{"a":2}"#), Reuse::Conflict));
    assert!(matches!(index.lookup(&scope, &key, "other", &args), Reuse::Conflict));
    index.forget_jobs(&vec![job]);
    assert_eq!(index.len(), 0);
}

// --- cancellation ------------------------------------------------------

#[test]
fn cancel_is_decided_by_ownership() {
    let owner = SessionId::new();
    let other = SessionId::new();
    assert_eq!(decide_cancel(false, Some(&owner), &owner), CancelDecision::MalformedId);
    assert_eq!(decide_cancel(true, None, &owner), CancelDecision::NoSuchJob);
    assert_eq!(decide_cancel(true, Some(&owner), &owner), CancelDecision::Authorized);
    // Any other session, a subscriber of the same principal too, is refused.
    assert_eq!(decide_cancel(true, Some(&owner), &other), CancelDecision::NotAuthorized);
    match cancel_reply(CancelDecision::Authorized, true, "job_x") {
        MessageType::CancelAccepted(p) => assert_eq!(p.target_id.as_deref(), Some("job_x")),
        _ => panic!("expected cancel.accepted"),
    }
    match cancel_reply(CancelDecision::Authorized, false, "job_x") {
        MessageType::CancelRefused(p) => assert_eq!(p.target_id, "job_x"),
        _ => panic!("expected cancel.refused"),
    }
}

// --- job subscriptions -------------------------------------------------

#[test]
fn live_events_after_the_replay_are_forwarded_once() {
    let progress = MessageType::JobStarted(arcp::messages::execution::JobStartedPayload { description: None });
    assert!(is_forwardable_job_event(&progress));
    assert!(!is_forwardable_job_event(&MessageType::Ping(PingPayload::default())));
    let high = replay_high_water(&vec![Some(3), None, Some(7), Some(5)], 2);
    assert_eq!(high, 7);
    assert_eq!(replay_high_water(&vec![], 4), 4);
    assert!(!forward_live_event(&progress, Some(7), high));
    assert!(forward_live_event(&progress, Some(8), high));
}

#[test]
fn redaction_keeps_routing_fields() {
    let mut env = Envelope::new(MessageType::Ping(PingPayload::default()));
    let s = SessionId::new();
    env.session_id = Some(s.clone());
    let out = arcp::runtime::jobs::redact_for_subscribers(env);
    assert_eq!(out.session_id, Some(s));
}

// --- job registry ------------------------------------------------------

fn entry(session: &SessionId, agent: &str, created: i64) -> JobEntry {
    JobEntry {
        job_id: JobId::new(),
        session_id: session.clone(),
        correlation_id: MessageId::new(),
        state: JobState::Running,
        agent: agent.into(),
        created_at: at(created),
        last_event_seq: 0,
        parent_job_id: None,
        credential_ids: vec![],
        lease: None,
        terminal_at: None,
    }
}

#[test]
fn registry_lists_and_sweeps_jobs() {
    let mut reg = JobRegistry::new();
    let s = SessionId::new();
    let other = SessionId::new();
    let a = entry(&s, "echo", 10);
    let b = entry(&s, "index", 20);
    let c = entry(&other, "echo", 30);
    let (a_id, b_id) = (a.job_id.clone(), b.job_id.clone());
    reg.insert(a);
    reg.insert(b);
    reg.insert(c);
    assert_eq!(reg.len(), 3);
    assert_eq!(reg.list_for_session(&s, None).len(), 2);
    let filter = SessionListJobsFilter {
        status: vec![],
        agent: Some("echo".into()),
        created_after: None,
        created_before: None,
    };
    let listed = reg.list_for_session(&s, Some(&filter));
    assert_eq!(listed.len(), 1);
    assert_eq!(listed[0].job_id, a_id);
    assert_eq!(listed[0].status, "running");

    assert!(reg.cancel(&a_id));
    reg.set_state(&a_id, JobState::Completed, at(100));
    assert!(!reg.cancel(&a_id));
    reg.record_event_seq(&b_id, 9);
    reg.record_event_seq(&b_id, 4);
    assert_eq!(reg.snapshot(&b_id).map(|x| x.last_event_seq), Some(9));

    assert!(reg.sweep_terminals_older_than(at(150), 60).is_empty());
    let swept = reg.sweep_terminals_older_than(at(160), 60);
    assert_eq!(swept, vec![a_id.clone()]);
    assert!(reg.snapshot(&a_id).is_none());
    assert_eq!(reg.len(), 2);
}

// --- sessions ----------------------------------------------------------

#[test]
fn capabilities_negotiate_to_the_intersection() {
    assert_eq!(intersect_bool(Some(true), Some(true)), Some(true));
    assert_eq!(intersect_bool(Some(true), None), Some(false));
    assert_eq!(intersect_bool(None, None), None);
    let mut runtime = Capabilities::default();
    runtime.streaming = Some(true);
    runtime.subscriptions = Some(true);
    runtime.extensions = vec!["x.a".into(), "x.b".into()];
    let mut client = Capabilities::default();
    client.streaming = Some(true);
    client.extensions = vec!["x.b".into(), "x.c".into()];
    let n = negotiate_capabilities(&runtime, &client);
    assert_eq!(n.streaming, Some(true));
    assert_eq!(n.subscriptions, Some(false));
    assert_eq!(n.anonymous, None);
    assert_eq!(n.extensions, vec!["x.b".to_owned()]);
}

#[test]
fn handshake_accepts_challenges_and_rejects() {
    let (state, reply) = open_session(
        SessionId::new(),
        Capabilities::default(),
        Some(AuthOutcome::Accept { principal: "alice".into() }),
    );
    assert_eq!(reply, HandshakeReply::Accepted);
    assert!(state.is_accepted());
    assert_eq!(state.principal.as_deref(), Some("alice"));

    let (mut state, reply) = open_session(
        SessionId::new(),
        Capabilities::default(),
        Some(AuthOutcome::Challenge { challenge: "nonce".into() }),
    );
    assert_eq!(reply, HandshakeReply::Challenge("nonce".into()));
    assert_eq!(state.phase, HandshakePhase::Challenged);
    let reply = answer_challenge(
        &mut state,
        &vec![AuthOutcome::Reject { reason: "no".into() }, AuthOutcome::Accept { principal: "bob".into() }],
    );
    assert_eq!(reply, HandshakeReply::Accepted);
    assert_eq!(state.principal.as_deref(), Some("bob"));

    let (state, reply) = open_session(SessionId::new(), Capabilities::default(), None);
    assert_eq!(reply, HandshakeReply::Rejected(ErrorCode::Unauthenticated));
    assert!(!state.is_accepted());
}

#[test]
fn resume_token_is_single_use_and_bounded_by_the_log() {
    let mut reg = ResumeRegistry::new();
    let session = SessionId::new();
    let token = reg.register(ResumeEntry {
        session_id: session.clone(),
        principal: Some("alice".into()),
        capabilities: Capabilities::default(),
    });
    assert!(token.starts_with("rt_msg_"));
    assert_eq!(reg.resume(&token, 10, 5).err(), Some(ErrorCode::ResumeWindowExpired));
    let (state, fresh) = reg.resume(&token, 5, 5).ok().expect("resumed");
    assert_eq!(state.session_id, session);
    assert_eq!(state.principal.as_deref(), Some("alice"));
    assert!(state.is_accepted());
    assert_ne!(fresh, token);
    assert!(reg.lookup(&token).is_none());
    assert!(reg.lookup(&fresh).is_some());
    assert_eq!(reg.resume(&token, 0, 5).err(), Some(ErrorCode::ResumeWindowExpired));
}

// --- authentication ----------------------------------------------------

fn client() -> ClientIdentity {
    ClientIdentity { kind: "t".into(), version: "0".into(), fingerprint: None, principal: None }
}

#[test]
fn bearer_tokens_map_to_principals() {
    let auth = BearerAuthenticator::new().with_token("s3cret", "alice").with_token("other", "bob");
    assert_eq!(auth.scheme(), AuthScheme::Bearer);
    let caps = Capabilities::default();
    let ok = auth.authenticate(&Credentials { scheme: AuthScheme::Bearer, token: Some("s3cret".into()) }, &client(), &caps);
    assert_eq!(ok.ok(), Some(AuthOutcome::Accept { principal: "alice".into() }));
    let bad = auth.authenticate(&Credentials { scheme: AuthScheme::Bearer, token: Some("nope".into()) }, &client(), &caps);
    assert!(matches!(bad, Ok(AuthOutcome::Reject { .. })));
    let none = auth.authenticate(&Credentials { scheme: AuthScheme::Bearer, token: None }, &client(), &caps);
    assert!(matches!(none, Ok(AuthOutcome::Reject { .. })));
    let replaced = auth.with_token("s3cret", "carol");
    let again = replaced.authenticate(&Credentials { scheme: AuthScheme::Bearer, token: Some("s3cret".into()) }, &client(), &caps);
    assert_eq!(again.ok(), Some(AuthOutcome::Accept { principal: "carol".into() }));
}

#[test]
fn anonymous_sessions_need_the_capability() {
    let auth = NoneAuthenticator::new();
    let creds = Credentials { scheme: AuthScheme::Anonymous, token: None };
    let mut caps = Capabilities::default();
    assert!(matches!(auth.authenticate(&creds, &client(), &caps), Ok(AuthOutcome::Reject { .. })));
    caps.anonymous = Some(true);
    assert_eq!(
        auth.authenticate(&creds, &client(), &caps).ok(),
        Some(AuthOutcome::Accept { principal: "anonymous".into() })
    );
    assert_eq!(arcp::auth::scheme_key(AuthScheme::Anonymous), "none");
    assert_eq!(arcp::auth::scheme_key(AuthScheme::SignedJwt), "signed_jwt");
}

// --- principals --------------------------------------------------------

#[test]
fn principals_extend_access_across_sessions() {
    let mut p = SessionPrincipals::new();
    let a = SessionId::new();
    let b = SessionId::new();
    let anon = SessionId::new();
    p.insert(a.clone(), Some("alice".into()));
    p.insert(b.clone(), Some("bob".into()));
    p.insert(anon.clone(), None);
    assert_eq!(p.owner(&a).map(String::as_str), Some("alice"));
    assert!(cancel_principal_matches(&p, &a, Some("alice")));
    assert!(!cancel_principal_matches(&p, &a, Some("bob")));
    assert!(!cancel_principal_matches(&p, &anon, None));
    assert!(subscription_scope_permits(&p, &b, Some("alice"), Some(&a)));
    assert!(!subscription_scope_permits(&p, &b, Some("bob"), Some(&a)));
    assert!(!subscription_scope_permits(&p, &b, Some("bob"), None));
    assert!(job_subscribe_permitted(&p, &b, &b, None));
    assert!(!job_subscribe_permitted(&p, &a, &b, Some("bob")));
    assert!(subscribe_filter_permitted(&p, &vec![a.clone(), b.clone()], &b, Some("bob")) == false);
    assert!(subscribe_filter_permitted(&p, &vec![b.clone()], &b, Some("bob")));
    p.remove(&a);
    assert!(p.owner(&a).is_none());
}

// --- configuration -----------------------------------------------------

#[test]
fn advertising_credentials_needs_a_provisioner() {
    assert!(RuntimeBuilder::new().validate().is_ok());
    let mut caps = Capabilities::default();
    caps.provisioned_credentials = Some(true);
    let b = RuntimeBuilder::new().with_capabilities(caps);
    let err = b.validate().unwrap_err();
    assert!(matches!(err, ARCPError::FailedPrecondition { .. }));
    assert!(b.with_credential_provisioner().validate().is_ok());
    assert_eq!(RuntimeBuilder::new().with_ack_window(0).ack_window, None);
    assert_eq!(RuntimeBuilder::new().with_ack_window(16).ack_window, Some(16));
}

#[test]
fn job_subscription_resumes_after_the_replay_or_the_last_event() {
    let snap = JobSnapshot {
        job_id: JobId::new(),
        session_id: SessionId::new(),
        state: JobState::Running,
        agent: "echo@1.0.0".into(),
        parent_job_id: None,
        last_event_seq: 12,
        created_at: at(5),
    };
    let (ack, high) = job_subscribed_ack(&snap, &vec![Some(4), Some(9)], 3);
    assert_eq!(high, 9);
    assert!(ack.replayed);
    assert_eq!(ack.subscribed_from, 9);
    assert_eq!(ack.current_status, "running");
    assert_eq!(ack.agent, "echo@1.0.0");
    let (ack, high) = job_subscribed_ack(&snap, &vec![], 3);
    assert_eq!(high, 3);
    assert!(!ack.replayed);
    assert_eq!(ack.subscribed_from, 12);
}

#[test]
fn subscribe_events_are_not_republished() {
    let wrapped = MessageType::SubscribeEvent(arcp::messages::subscriptions::SubscribeEventPayload {
        event: json("{}"),
    });
    assert!(!published_to_subscribers(&wrapped));
    assert!(published_to_subscribers(&MessageType::Ping(PingPayload::default())));
}

fn reject_message(a: &InvokeAdmission) -> Option<String> {
    match a {
        InvokeAdmission::Reject { message, .. } => Some(message.clone()),
        InvokeAdmission::Admit { .. } => None,
    }
}

#[test]
fn refused_tool_invokes_say_why() {
    let tools = names(&["echo"]);
    let now = at(1000);
    let bad = plan_tool_invoke("Echo", None, now, false, &None, &tools);
    assert_eq!(reject_message(&bad).as_deref(), Some("invalid agent reference Echo: invalid agent name \"Echo\""));
    let expired = LeaseRequest { expires_at: Some(at(999)), ..LeaseRequest::default() };
    let r = plan_tool_invoke("echo", Some(expired), now, false, &None, &tools);
    assert_eq!(
        reject_message(&r).as_deref(),
        Some("INVALID_REQUEST: lease.expires_at must be in the future at submission time")
    );
    let r = plan_tool_invoke("echo@1.0.0", None, now, false, &None, &tools);
    assert_eq!(reject_message(&r).as_deref(), Some("agent version not available: echo@1.0.0"));
    let r = plan_tool_invoke("missing", None, now, false, &None, &tools);
    assert_eq!(reject_message(&r).as_deref(), Some("agent not available: missing"));
}

#[test]
fn duplicate_key_failure_names_the_key() {
    let p = duplicate_key_failure(&IdempotencyKey::new("k-1").expect("non-empty"));
    assert_eq!(p.code, ErrorCode::DuplicateKey);
    assert_eq!(p.retryable, Some(false));
    assert_eq!(p.message, "idempotency key k-1 already bound to a different command intent");
    assert!(p.details.is_none());
}

#[test]
fn terminal_events_carry_code_retryability_and_text() {
    let failed = terminal_payload(JobTerminal::Failed(ARCPError::Unavailable { detail: "upstream down".into() }));
    match failed {
        MessageType::JobFailed(p) => {
            assert_eq!(p.code, ErrorCode::Unavailable);
            assert_eq!(p.retryable, Some(true));
            assert_eq!(p.message, "UNAVAILABLE: upstream down");
        }
        _ => panic!("expected job.failed"),
    }
    match terminal_payload(JobTerminal::LeaseExpired(at(-5))) {
        MessageType::JobFailed(p) => {
            assert_eq!(p.code, ErrorCode::LeaseExpired);
            assert_eq!(p.retryable, Some(false));
            assert_eq!(p.message, "lease expired at 1969-12-31 23:59:55 UTC; renewal is NOT supported — resubmit with a fresh lease");
        }
        _ => panic!("expected job.failed"),
    }
    match terminal_payload(JobTerminal::Cancelled("stop".into())) {
        MessageType::JobCancelled(p) => assert_eq!(p.reason.as_deref(), Some("stop")),
        _ => panic!("expected job.cancelled"),
    }
}

#[test]
fn refused_completion_names_the_stream() {
    let mut stream = ResultStreamState::new();
    stream.record_chunk("res_1", 0, 1, true).expect("first chunk");
    let open = finalize_streamed_completion(&stream, json(r#"{"$arcp_streamed_result":{"result_id":"res_1"}}"#))
        .unwrap_err();
    assert_eq!(
        open.message(),
        "FAILED_PRECONDITION: result stream res_1 was not terminated with a more: false chunk before job.completed"
    );
    let inline = finalize_streamed_completion(&stream, json("7")).unwrap_err();
    assert!(inline.message().contains("job streamed result chunks for res_1 but completed"));
}

#[test]
fn cancel_refusals_give_their_reason() {
    match cancel_reply(CancelDecision::NoSuchJob, false, "job_x") {
        MessageType::CancelRefused(p) => {
            assert_eq!(p.target_id, "job_x");
            assert_eq!(p.reason, "no such in-flight job");
        }
        _ => panic!("expected cancel.refused"),
    }
    match cancel_reply(CancelDecision::Authorized, false, "job_x") {
        MessageType::CancelRefused(p) => assert_eq!(p.reason, "job is no longer in-flight"),
        _ => panic!("expected cancel.refused"),
    }
}

#[test]
fn a_job_ends_once() {
    let mut reg = JobRegistry::new();
    let s = SessionId::new();
    let mut e = entry(&s, "echo", 10);
    e.parent_job_id = Some(JobId::new());
    let parent = e.parent_job_id.clone();
    let id = e.job_id.clone();
    reg.insert(e);
    assert_eq!(reg.snapshot(&id).and_then(|x| x.parent_job_id), parent);
    reg.set_state(&id, JobState::Completed, at(100));
    // A later move keeps the first end: the job is swept by it.
    reg.set_state(&id, JobState::Failed, at(500));
    assert_eq!(reg.snapshot(&id).map(|x| x.state), Some(JobState::Failed));
    assert_eq!(reg.sweep_terminals_older_than(at(160), 60), vec![id]);
}

#[test]
fn only_the_first_end_of_a_job_sends_its_terminal_message() {
    let mut reg = JobRegistry::new();
    let s = SessionId::new();
    let e = entry(&s, "echo", 10);
    let id = e.job_id.clone();
    reg.insert(e);
    assert!(reg.end_job(&id, JobState::Completed, at(100)));
    assert!(!reg.end_job(&id, JobState::Cancelled, at(101)));
    assert!(!reg.end_job(&JobId::new(), JobState::Failed, at(102)));
}
