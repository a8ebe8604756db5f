use arcp::decimal::amount_micros;
use arcp::envelope::{Envelope, Priority};
use arcp::error::{ARCPError, ErrorCode};
use arcp::ids::{JobId, MessageId, SessionId, StreamId, SubscriptionId, TraceId};
use arcp::messages::credentials::{CredentialId, CredentialScheme, ProvisionedCredential};
use arcp::messages::execution::{ResultChunkEncoding};
use arcp::messages::permissions::{CostBudget, CostBudgetAmount, LeaseRequest, ModelUse};
use arcp::messages::subscriptions::SubscriptionFilter;
use arcp::messages::{MessageType, PingPayload};
use arcp::runtime::connection::{end_connection, screen_inbound, FlowControl, RecentIdSet, Screening};
use arcp::runtime::context::{BudgetTracker, ResultStreamState, ToolContext};
use arcp::runtime::credentials::{
    revoke_all_for_job, CredentialJobContext, CredentialLedger, InMemoryCredentialProvisioner, RevocationRun,
    RevokeAction,
};
use arcp::runtime::principals::SessionPrincipals;
use arcp::runtime::subscription::{CompiledFilter, SubscriptionManager};
use arcp::time::{add_seconds, UtcTime};

const UNIT: u64 = 1_000_000;

fn budget(items: &[(&str, u64)]) -> CostBudget {
    CostBudget {
        amounts: items
            .iter()
            .map(|(c, a)| CostBudgetAmount { currency: (*c).to_owned(), amount_micros: *a })
            .collect(),
    }
}

fn micros(text: &str) -> u64 {
    let chars: Vec<char> = text.chars().collect();
    amount_micros(&chars).expect("decimal").expect("in range")
}

#[test]
fn fresh_tracker_reports_max_remaining() {
    let t = BudgetTracker::from_budget(&budget(&[("USD", 5 * UNIT)]));
    assert_eq!(t.remaining("USD"), Some(5 * UNIT));
}

#[test]
fn charge_decrements_remaining() {
    let mut t = BudgetTracker::from_budget(&budget(&[("USD", 5 * UNIT)]));
    let r = t.charge("USD", micros("1.5")).expect("charge ok");
    assert_eq!(r, Some(3_500_000));
    assert_eq!(t.remaining("USD"), Some(3_500_000));
}

#[test]
fn negative_charge_rejected() {
    // Amounts are non-negative micro-units; a negative decimal never
    // becomes an amount to charge.
    let chars: Vec<char> = "-0.5".chars().collect();
    assert_eq!(amount_micros(&chars), None);
}

#[test]
fn oversized_single_charge_is_rejected_and_counter_unchanged() {
    let mut t = BudgetTracker::from_budget(&budget(&[("USD", UNIT)]));
    let err = t.charge("USD", micros("1.5")).unwrap_err();
    assert!(matches!(err, ARCPError::BudgetExhausted { .. }));
    assert_eq!(t.remaining("USD"), Some(UNIT));
    let after = t.charge("USD", micros("0.4")).expect("in-budget charge ok");
    assert_eq!(after, Some(600_000));
}

#[test]
fn exact_exhaustion_succeeds_and_next_charge_fails() {
    let mut t = BudgetTracker::from_budget(&budget(&[("USD", UNIT)]));
    let after = t.charge("USD", UNIT).expect("exact-exhaustion ok");
    assert_eq!(after, Some(0));
    let err = t.charge("USD", micros("0.000001")).unwrap_err();
    assert!(matches!(err, ARCPError::BudgetExhausted { .. }));
}

#[test]
fn fractional_decimal_charges_sum_without_floating_point_drift() {
    let mut t = BudgetTracker::from_budget(&budget(&[("USD", UNIT)]));
    t.charge("USD", micros("0.10")).expect("first slice");
    t.charge("USD", micros("0.20")).expect("second slice");
    let after = t.charge("USD", micros("0.70")).expect("third slice ok");
    assert_eq!(after, Some(0));
}

#[test]
fn multi_currency_charges_are_tracked_independently() {
    let mut t = BudgetTracker::from_budget(&budget(&[("USD", 5 * UNIT), ("EUR", 2 * UNIT)]));
    t.charge("USD", 3 * UNIT).expect("usd in budget");
    t.charge("EUR", micros("1.5")).expect("eur in budget");
    let usd_err = t.charge("USD", micros("2.5")).unwrap_err();
    assert!(matches!(usd_err, ARCPError::BudgetExhausted { .. }));
    assert_eq!(t.remaining("USD"), Some(2 * UNIT));
    assert_eq!(t.remaining("EUR"), Some(500_000));
}

#[test]
fn unbudgeted_currency_returns_infinity() {
    let mut t = BudgetTracker::from_budget(&budget(&[("USD", 5 * UNIT)]));
    let r = t.charge("EUR", 2 * UNIT).expect("charge ok");
    // No limit applies: there is no finite remainder to report.
    assert_eq!(r, None);
}

#[test]
fn empty_budget_tracker_is_disabled() {
    assert!(BudgetTracker::new().is_disabled());
    assert!(!BudgetTracker::from_budget(&budget(&[("USD", 1)])).is_disabled());
    let snap = BudgetTracker::from_budget(&budget(&[("USD", 3), ("EUR", 4)])).snapshot_remaining();
    assert_eq!(snap.len(), 2);
}

fn build_ctx() -> ToolContext {
    ToolContext {
        job_id: JobId::new(),
        session_id: SessionId::new(),
        correlation_id: MessageId::new(),
        budget: BudgetTracker::new(),
        lease: None,
        result_stream: ResultStreamState::new(),
    }
}

#[test]
fn accessors_return_internal_ids() {
    let ctx = build_ctx();
    assert!(ctx.correlation_id().as_str().starts_with("msg_"));
    assert!(ctx.job_id().as_str().starts_with("job_"));
}

#[test]
fn ordered_chunks_are_accepted_and_finalize() {
    let mut ctx = build_ctx();
    let first = ctx
        .emit_result_chunk("res_1", 0, "a".into(), ResultChunkEncoding::Utf8, true)
        .expect("chunk 0");
    let second = ctx
        .emit_result_chunk("res_1", 1, "b".into(), ResultChunkEncoding::Utf8, false)
        .expect("chunk 1 terminal");
    assert_eq!(first.job_id.as_ref(), Some(&ctx.job_id));
    assert_eq!(second.session_id.as_ref(), Some(&ctx.session_id));
    assert_eq!(second.correlation_id.as_ref(), Some(&ctx.correlation_id));
    match &second.payload {
        MessageType::JobResultChunk(p) => {
            assert_eq!(p.chunk_seq, 1);
            assert_eq!(p.data, "b");
            assert!(!p.more);
        }
        _ => panic!("expected a job.result_chunk"),
    }
    assert_eq!(ctx.result_stream.active_result_id(), Some("res_1"));
    assert!(ctx.result_stream.is_finished());
}

#[test]
fn first_chunk_must_be_seq_zero() {
    let mut ctx = build_ctx();
    let err = ctx
        .emit_result_chunk("res_1", 1, "a".into(), ResultChunkEncoding::Utf8, true)
        .err()
        .expect("non-zero first chunk rejected");
    assert!(matches!(err, ARCPError::FailedPrecondition { .. }));
}

#[test]
fn out_of_order_chunk_is_rejected() {
    let mut ctx = build_ctx();
    ctx.emit_result_chunk("res_1", 0, "a".into(), ResultChunkEncoding::Utf8, true).expect("chunk 0");
    let err = ctx
        .emit_result_chunk("res_1", 2, "c".into(), ResultChunkEncoding::Utf8, false)
        .err()
        .expect("gap rejected");
    assert!(matches!(err, ARCPError::OutOfRange { .. }));
}

#[test]
fn chunk_after_terminal_is_rejected() {
    let mut ctx = build_ctx();
    ctx.emit_result_chunk("res_1", 0, "a".into(), ResultChunkEncoding::Utf8, false)
        .expect("terminal chunk");
    let err = ctx
        .emit_result_chunk("res_1", 1, "b".into(), ResultChunkEncoding::Utf8, false)
        .err()
        .expect("post-terminal rejected");
    assert!(matches!(err, ARCPError::FailedPrecondition { .. }));
}

#[test]
fn result_id_change_mid_stream_is_rejected() {
    let mut ctx = build_ctx();
    ctx.emit_result_chunk("res_1", 0, "a".into(), ResultChunkEncoding::Utf8, true).expect("chunk 0");
    let err = ctx
        .emit_result_chunk("res_2", 1, "b".into(), ResultChunkEncoding::Utf8, false)
        .err()
        .expect("result_id change rejected");
    assert!(matches!(err, ARCPError::FailedPrecondition { .. }));
}

#[test]
fn oversized_chunk_is_rejected() {
    let mut ctx = build_ctx();
    let big = "x".repeat(1_048_577);
    let err = ctx
        .emit_result_chunk("res_1", 0, big, ResultChunkEncoding::Utf8, true)
        .err()
        .expect("chunk over the size cap rejected");
    assert_eq!(err.code(), ErrorCode::Internal);
    assert_eq!(ctx.result_stream.active_result_id(), None);
}

#[test]
fn model_use_is_enforced_through_the_lease() {
    let mut ctx = build_ctx();
    assert!(ctx.enforce_model_use("anything").is_ok());
    ctx.lease = Some(LeaseRequest {
        model_use: Some(ModelUse { patterns: vec!["tier-fast/*".into()] }),
        ..LeaseRequest::default()
    });
    assert!(ctx.enforce_model_use("tier-fast/small").is_ok());
    let err = ctx.enforce_model_use("tier-slow/big").unwrap_err();
    assert_eq!(err.code(), ErrorCode::PermissionDenied);
    let e = ctx.translate_upstream_budget_exhausted("upstream said no".into());
    assert_eq!(e.code(), ErrorCode::BudgetExhausted);
}

fn lease(pattern: &str) -> LeaseRequest {
    LeaseRequest {
        cost_budget: Some(budget(&[("USD", 5 * UNIT)])),
        model_use: Some(ModelUse { patterns: vec![pattern.into()] }),
        expires_at: None,
        extra: std::collections::BTreeMap::default(),
    }
}

#[test]
fn in_memory_provisioner_issues_and_revokes_round_trip() {
    let mut provisioner = InMemoryCredentialProvisioner::new();
    let ctx = CredentialJobContext {
        job_id: JobId::new(),
        session_id: SessionId::new(),
        principal: Some("p".into()),
        parent_job_id: None,
    };
    let creds = provisioner.issue(&lease("tier-fast/*"), &ctx).ok().expect("issue");
    assert_eq!(creds.len(), 1);
    assert_eq!(creds[0].value, "test-token-1");
    provisioner.revoke(&creds[0].id).expect("revoke");
    assert_eq!(provisioner.revoked_ids(), vec![creds[0].id.clone()]);
    let issued = provisioner.issued_credentials();
    assert_eq!(issued.len(), 1);
    assert_eq!(issued[0].id, creds[0].id);
    assert_eq!(issued[0].value, "test-token-1");
    assert_eq!(issued[0].endpoint, "https://example.invalid/llm");
}

#[test]
fn ledger_records_outstanding_until_revoke() {
    let mut ledger = CredentialLedger::new();
    let job_id = JobId::new();
    let credential = ProvisionedCredential {
        id: CredentialId::new(7),
        scheme: CredentialScheme::Bearer,
        value: "secret".into(),
        endpoint: "https://example.invalid".into(),
        profile: None,
        constraints: None,
    };
    ledger.record_issued(&job_id, &vec![credential.clone()]);
    assert_eq!(ledger.outstanding_for_job(&job_id), vec![credential.id.clone()]);
    ledger.mark_revoked(&job_id, &credential.id);
    assert!(ledger.outstanding_for_job(&job_id).is_empty());
}

#[test]
fn child_credential_must_be_subset_of_parent() {
    let parent = lease("tier-fast/*");
    let child = lease("tier-fast/small");
    InMemoryCredentialProvisioner::validate_child_constraints(&parent, &child).expect("subset");
    let widened = lease("*");
    assert!(matches!(
        InMemoryCredentialProvisioner::validate_child_constraints(&parent, &widened),
        Err(ARCPError::LeaseSubsetViolation { .. })
    ));
}

#[test]
fn credential_ids_are_sixteen_hex_digits() {
    assert_eq!(CredentialId::new(7).0, "cred_0000000000000007");
    assert_eq!(CredentialId::new(255).0, "cred_00000000000000ff");
    assert_ne!(CredentialId::new(1), CredentialId::new(2));
}

#[test]
fn detects_duplicates_within_window() {
    let mut set = RecentIdSet::new(4);
    let id = MessageId::new();
    assert!(set.insert(id.clone()));
    assert!(!set.insert(id), "same id is a duplicate");
}

#[test]
fn evicts_oldest_when_capacity_exceeded() {
    let mut set = RecentIdSet::new(2);
    let a = MessageId::new();
    let b = MessageId::new();
    let c = MessageId::new();
    assert!(set.insert(a.clone()));
    assert!(set.insert(b.clone()));
    // Inserting c evicts a (oldest); window is now [b, c].
    assert!(set.insert(c.clone()));
    assert_eq!(set.len(), 2);
    assert!(!set.insert(b), "b still tracked");
    assert!(!set.insert(c), "c still tracked");
    assert!(set.insert(a), "a was evicted and is new again");
}

#[test]
fn screening_drops_replays_and_early_messages() {
    let mut seen = RecentIdSet::new(8);
    let id = MessageId::new();
    assert_eq!(screen_inbound(&mut seen, id.clone(), false, true), Screening::Dispatch);
    assert_eq!(screen_inbound(&mut seen, id, true, false), Screening::Replay);
    assert_eq!(screen_inbound(&mut seen, MessageId::new(), false, false), Screening::BeforeHandshake);
    assert_eq!(screen_inbound(&mut seen, MessageId::new(), true, false), Screening::Dispatch);
}

#[test]
fn flow_control_window_blocks_until_acked() {
    let mut f = FlowControl::new(Some(2));
    assert!(f.can_emit());
    assert_eq!(f.stamp(), 1);
    assert_eq!(f.stamp(), 2);
    assert!(!f.can_emit());
    assert!(f.record_ack(1));
    assert!(f.can_emit());
    assert!(!f.record_ack(1), "a stale ack does not move the watermark");
    assert_eq!(f.last_ack, 1);
    let unlimited = FlowControl::new(None);
    assert!(unlimited.can_emit());
}

fn ping_for(session: &SessionId) -> Envelope {
    let mut env = Envelope::new(MessageType::Ping(PingPayload::default()));
    env.session_id = Some(session.clone());
    env
}

#[test]
fn unsubscribe_removes_entry() {
    let mut mgr = SubscriptionManager::new();
    let s = SessionId::new();
    let (id, _filter) = mgr.register(SubscriptionFilter::default(), s);
    assert_eq!(mgr.len(), 1);
    assert!(mgr.unsubscribe(&id));
    assert!(mgr.is_empty());
}

#[test]
fn unsubscribe_returns_false_for_unknown_id() {
    let mut mgr = SubscriptionManager::new();
    let id = SubscriptionId::new();
    assert!(!mgr.unsubscribe(&id));
}

#[test]
fn drop_session_keeps_other_sessions() {
    let mut mgr = SubscriptionManager::new();
    let s1 = SessionId::new();
    let s2 = SessionId::new();
    let (_id1, _f1) = mgr.register(SubscriptionFilter::default(), s1.clone());
    let (_id2, _f2) = mgr.register(SubscriptionFilter::default(), s2);
    assert_eq!(mgr.len(), 2);
    mgr.drop_session(&s1);
    assert_eq!(mgr.len(), 1);
}

#[test]
fn matches_handles_every_field_combination() {
    let session = SessionId::new();
    let trace = TraceId::new("t").expect("non-empty");
    let job = JobId::new();
    let stream = StreamId::new();

    let mut env = ping_for(&session);
    env.trace_id = Some(trace.clone());
    env.job_id = Some(job.clone());
    env.stream_id = Some(stream.clone());

    let filter = SubscriptionFilter {
        session_id: vec![session.clone()],
        trace_id: vec![trace],
        job_id: vec![job],
        stream_id: vec![stream],
        types: vec!["ping".into()],
        min_priority: Some(Priority::Low),
    };
    assert!(arcp::runtime::subscription::matches(&filter, &env));

    let mut bare = Envelope::new(MessageType::Ping(PingPayload::default()));
    bare.session_id = None;
    let session_only = SubscriptionFilter { session_id: vec![session], ..SubscriptionFilter::default() };
    assert!(!arcp::runtime::subscription::matches(&session_only, &bare));
}

#[test]
fn subscription_filters_by_session_id() {
    let s1 = SessionId::new();
    let s2 = SessionId::new();
    let filter = SubscriptionFilter { session_id: vec![s1.clone()], ..SubscriptionFilter::default() };
    let compiled = CompiledFilter::from_wire(&filter);
    assert!(!compiled.matches(&ping_for(&s2)));
    assert!(compiled.matches(&ping_for(&s1)));
    let urgent_only = CompiledFilter::from_wire(&SubscriptionFilter {
        min_priority: Some(Priority::High),
        ..SubscriptionFilter::default()
    });
    assert!(!urgent_only.matches(&ping_for(&s1)));
    let mut env = ping_for(&s1);
    env.priority = Priority::Critical;
    assert!(urgent_only.matches(&env));
}

#[test]
fn compiled_filter_with_large_lists_matches_correctly() {
    let target = SessionId::new();
    let mut sessions: Vec<SessionId> = (0..1000).map(|_| SessionId::new()).collect();
    sessions.push(target.clone());
    let filter = SubscriptionFilter { session_id: sessions, ..SubscriptionFilter::default() };
    let compiled = CompiledFilter::from_wire(&filter);
    for _ in 0..50 {
        assert!(!compiled.matches(&ping_for(&SessionId::new())));
    }
    assert!(compiled.matches(&ping_for(&target)));
}

#[test]
fn lease_and_budget_errors_are_never_retryable() {
    let expired = ARCPError::LeaseExpired { detail: "x".into() };
    let exhausted = ARCPError::BudgetExhausted { detail: "x".into() };
    assert!(!expired.retryable());
    assert!(!exhausted.retryable());
    assert!(ARCPError::Unavailable { detail: "x".into() }.retryable());
    assert!(ErrorCode::Internal.retryable());
    assert!(!ErrorCode::InvalidArgument.retryable());
    assert_eq!(ARCPError::Storage { detail: "x".into() }.code(), ErrorCode::Internal);
}

#[test]
fn debug_renders() {
    let mut mgr = SubscriptionManager::new();
    let _ = format!("{mgr:?}");
    let s = SessionId::new();
    let (_id, compiled) = mgr.register(SubscriptionFilter::default(), s);
    let _ = format!("{compiled:?}");
}

#[test]
fn adding_seconds_saturates() {
    let t = UtcTime { secs: 100, nanos: 7 };
    assert_eq!(add_seconds(t, 3600), UtcTime { secs: 3700, nanos: 7 });
    let late = UtcTime { secs: i64::MAX - 1, nanos: 0 };
    assert_eq!(add_seconds(late, 10).secs, i64::MAX);
    let early = UtcTime { secs: i64::MIN, nanos: 0 };
    assert_eq!(add_seconds(early, u64::MAX).secs, i64::MAX);
    assert_eq!(add_seconds(early, 1).secs, i64::MIN + 1);
}

#[test]
fn revoking_a_job_clears_its_credentials_only() {
    let mut provisioner = InMemoryCredentialProvisioner::new();
    let mut ledger = CredentialLedger::new();
    let job = JobId::new();
    let other = JobId::new();
    let ctx = CredentialJobContext { job_id: job.clone(), session_id: SessionId::new(), principal: None, parent_job_id: None };
    let a = provisioner.issue(&lease("tier-fast/*"), &ctx).ok().expect("issue");
    let b = provisioner.issue(&lease("tier-fast/*"), &ctx).ok().expect("issue");
    let c = provisioner.issue(&lease("tier-fast/*"), &ctx).ok().expect("issue");
    ledger.record_issued(&job, &a);
    ledger.record_issued(&job, &b);
    ledger.record_issued(&other, &c);
    assert!(revoke_all_for_job(&mut ledger, &mut provisioner, &job).is_ok());
    assert!(ledger.outstanding_for_job(&job).is_empty());
    assert_eq!(ledger.outstanding_for_job(&other), vec![c[0].id.clone()]);
    assert_eq!(provisioner.revoked_ids(), vec![a[0].id.clone(), b[0].id.clone()]);
}

#[test]
fn refused_charge_names_the_currency_and_amounts() {
    let mut t = BudgetTracker::from_budget(&budget(&[("USD", UNIT)]));
    t.charge("USD", micros("0.25")).expect("in budget");
    let err = t.charge("USD", micros("1.5")).unwrap_err();
    assert_eq!(err.code(), ErrorCode::BudgetExhausted);
    assert_eq!(err.message(), "BUDGET_EXHAUSTED: USD budget exhausted (remaining=0.75, attempted=1.5)");
}

#[test]
fn rejected_chunks_name_the_offending_values() {
    let mut s = ResultStreamState::new();
    let first = s.record_chunk("res_1", 3, 1, true).unwrap_err();
    assert_eq!(first.message(), "FAILED_PRECONDITION: the first job.result_chunk must have chunk_seq 0, got 3");
    s.record_chunk("res_1", 0, 1, true).expect("first chunk");
    let gap = s.record_chunk("res_1", 2, 1, true).unwrap_err();
    assert_eq!(gap.code(), ErrorCode::OutOfRange);
    assert_eq!(gap.message(), "OUT_OF_RANGE: job.result_chunk out of order: expected chunk_seq 1, got 2");
    let renamed = s.record_chunk("res_2", 1, 1, true).unwrap_err();
    assert_eq!(
        renamed.message(),
        "FAILED_PRECONDITION: job.result_chunk result_id changed mid-stream (expected res_1, got res_2)"
    );
    let big = s.record_chunk("res_1", 1, 2_000_000, true).unwrap_err();
    assert_eq!(big.message(), "INTERNAL: job.result_chunk exceeds the per-chunk size cap (2000000 > 1048576 bytes)");
}

#[test]
fn nothing_left_refuses_even_a_zero_charge() {
    let mut ctx = build_ctx();
    ctx.budget = BudgetTracker::from_budget(&budget(&[("USD", UNIT)]));
    assert_eq!(ctx.charge("USD", UNIT).expect("exact exhaustion"), Some(0));
    let err = ctx.charge("USD", 0).unwrap_err();
    assert_eq!(err.code(), ErrorCode::BudgetExhausted);
    // With something left, a zero charge is accepted.
    let mut t = BudgetTracker::from_budget(&budget(&[("USD", UNIT)]));
    assert_eq!(t.charge("USD", 0).expect("zero charge"), Some(UNIT));
}

#[test]
fn a_charge_reports_cost_then_remaining() {
    let ctx = build_ctx();
    let both = ctx.charge_metrics("cost.usd", 1.5f64.to_bits(), "USD", Some(0.5f64.to_bits()));
    assert_eq!(both.len(), 2);
    match (&both[0].payload, &both[1].payload) {
        (MessageType::Metric(a), MessageType::Metric(b)) => {
            assert_eq!(a.name, "cost.usd");
            assert_eq!(f64::from_bits(a.value_bits), 1.5);
            assert_eq!(a.unit, "USD");
            assert_eq!(b.name, "cost.budget.remaining");
            assert_eq!(f64::from_bits(b.value_bits), 0.5);
            assert_eq!(b.unit, "USD");
        }
        _ => panic!("expected two metrics"),
    }
    for env in &both {
        assert_eq!(env.job_id.as_ref(), Some(&ctx.job_id));
        assert_eq!(env.session_id.as_ref(), Some(&ctx.session_id));
        assert_eq!(env.correlation_id.as_ref(), Some(&ctx.correlation_id));
    }
    assert_eq!(ctx.charge_metrics("cost.eur", 1.0f64.to_bits(), "EUR", None).len(), 1);
}

#[test]
fn revocation_retries_three_times_then_reports_the_last_error() {
    let mut provisioner = InMemoryCredentialProvisioner::new();
    let mut ledger = CredentialLedger::new();
    let job = JobId::new();
    let ctx = CredentialJobContext { job_id: job.clone(), session_id: SessionId::new(), principal: None, parent_job_id: None };
    let a = provisioner.issue(&lease("tier-fast/*"), &ctx).ok().expect("issue");
    let b = provisioner.issue(&lease("tier-fast/*"), &ctx).ok().expect("issue");
    ledger.record_issued(&job, &a);
    ledger.record_issued(&job, &b);
    let mut run = RevocationRun::start(&ledger, &job);
    let mut delays = Vec::new();
    let mut offered = Vec::new();
    loop {
        match run.next() {
            RevokeAction::Finish => break,
            RevokeAction::Revoke(id) => {
                offered.push(id.clone());
                // The first credential is always refused; the second accepted.
                let outcome = if id == a[0].id {
                    Err(ARCPError::Unavailable { detail: format!("try {}", offered.len()) })
                } else {
                    Ok(())
                };
                if let Some(ms) = run.record(&mut ledger, outcome) {
                    delays.push(ms);
                }
            }
        }
    }
    assert_eq!(offered, vec![a[0].id.clone(), a[0].id.clone(), a[0].id.clone(), b[0].id.clone()]);
    assert_eq!(delays, vec![10, 20, 40]);
    assert_eq!(ledger.outstanding_for_job(&job), vec![a[0].id.clone()]);
    let err = run.finish(&ledger).unwrap_err();
    assert_eq!(err, ARCPError::Unavailable { detail: "try 3".into() });
}

#[test]
fn countable_envelopes_are_numbered_consecutively() {
    let mut flow = FlowControl::new(None);
    let ping = flow.stamp_outbound(Envelope::new(MessageType::Ping(PingPayload::default())));
    assert_eq!(ping.event_seq, None);
    let mut seqs = Vec::new();
    for _ in 0..3 {
        let env = Envelope::new(MessageType::JobResultChunk(arcp::messages::execution::JobResultChunkPayload {
            result_id: "r".into(),
            chunk_seq: 0,
            data: String::new(),
            encoding: ResultChunkEncoding::Utf8,
            more: true,
        }));
        seqs.push(flow.stamp_outbound(env).event_seq);
        let between = flow.stamp_outbound(Envelope::new(MessageType::Ping(PingPayload::default())));
        assert_eq!(between.event_seq, None);
    }
    assert_eq!(seqs, vec![Some(1), Some(2), Some(3)]);
    assert_eq!(flow.emitted, 3);
}

#[test]
fn closing_a_session_answers_once_and_forgets_its_state() {
    let s = SessionId::new();
    let mut principals = SessionPrincipals::new();
    principals.insert(s.clone(), Some("alice".into()));
    let mut subs = SubscriptionManager::new();
    let closed = end_connection(true, Some(&s), &mut principals, &mut subs).expect("session.closed");
    assert!(matches!(&closed.payload, MessageType::SessionClosed(p) if p.reason.is_none()));
    assert_eq!(closed.session_id.as_ref(), Some(&s));
    assert!(principals.owner(&s).is_none());
    // A dropped transport forgets the session too, without an answer.
    principals.insert(s.clone(), None);
    assert!(end_connection(false, Some(&s), &mut principals, &mut subs).is_none());
    assert!(end_connection(true, None, &mut principals, &mut subs).is_none());
}

#[test]
fn only_a_chunk_accepted_at_the_counter_limit_exhausts_it() {
    let mut st = ResultStreamState::new();
    assert!(!st.exhausts_counter("r", 0, 4, true));
    assert!(!st.exhausts_counter("r", u64::MAX, 4, true));
    st.record_chunk("r", 0, 4, true).unwrap();
    assert!(!st.exhausts_counter("r", 1, 4, true));
    assert!(!st.exhausts_counter("r", u64::MAX, 4, true));
    let refused = st.record_chunk("r", u64::MAX, 4, true).unwrap_err();
    assert_eq!(refused.message(), "OUT_OF_RANGE: job.result_chunk out of order: expected chunk_seq 1, got 18446744073709551615");
    assert_eq!(st.active_result_id(), Some("r"));
    assert!(!st.is_finished());
}
