use std::collections::HashSet;

use arcp::ids::{
    ArtifactId, IdParseError, IdempotencyKey, JobId, LeaseId, MessageId, SessionId, SpanId, StreamId,
    SubscriptionId, TraceId,
};
use arcp::messages::credentials::CredentialId;

#[test]
fn prefixed_id_round_trips_through_string() {
    let id = SessionId::new();
    let s = id.as_str().to_owned();
    assert!(s.starts_with("sess_"), "got {s}");
    let parsed: SessionId = s.parse().expect("round-trip");
    assert_eq!(id, parsed);
}

#[test]
fn prefixed_id_rejects_wrong_prefix() {
    let err = "msg_01ABC".parse::<SessionId>().expect_err("must reject");
    match err {
        IdParseError::WrongPrefix { expected, .. } => assert_eq!(expected, "sess"),
        IdParseError::Empty { .. } => panic!("expected WrongPrefix, got Empty"),
    }
}

#[test]
fn prefixed_id_rejects_empty_body() {
    let err = "sess_".parse::<SessionId>().expect_err("must reject empty body");
    assert!(matches!(err, IdParseError::Empty { .. }));
}

#[test]
fn freeform_id_accepts_arbitrary_strings() {
    let key = IdempotencyKey::new("refund-ord_4812").expect("non-empty");
    assert_eq!(key.as_str(), "refund-ord_4812");
    let back: IdempotencyKey = key.as_str().parse().expect("reparse");
    assert_eq!(key, back);
}

#[test]
fn freeform_id_rejects_empty() {
    let err = IdempotencyKey::new("").expect_err("must reject empty");
    assert!(matches!(err, IdParseError::Empty { .. }));
}

#[test]
fn id_types_are_compile_time_distinct() {
    let s = SessionId::new().as_str().to_owned();
    let m = MessageId::new().as_str().to_owned();
    assert_ne!(s, m);
    assert!(s.starts_with("sess_"));
    assert!(m.starts_with("msg_"));
}

#[test]
fn ids_are_hashable() {
    let mut set = HashSet::new();
    set.insert(JobId::new());
    set.insert(JobId::new());
    assert_eq!(set.len(), 2);
}

#[test]
fn all_prefixes_are_unique() {
    let prefixes = [
        SessionId::prefix(),
        MessageId::prefix(),
        JobId::prefix(),
        StreamId::prefix(),
        SubscriptionId::prefix(),
        LeaseId::prefix(),
        ArtifactId::prefix(),
    ];
    let unique: HashSet<&&str> = prefixes.iter().collect();
    assert_eq!(unique.len(), prefixes.len(), "id prefixes must not collide");
}

#[test]
fn minted_ids_have_a_ulid_body() {
    let id = JobId::new();
    let s = id.as_str();
    assert!(s.starts_with("job_"));
    assert_eq!(s.len(), "job_".len() + 26);
}

#[test]
fn an_id_of_one_kind_does_not_parse_as_another() {
    let j = JobId::new();
    assert!(j.as_str().parse::<SessionId>().is_err());
    assert!(j.as_str().parse::<StreamId>().is_err());
    assert!(j.as_str().parse::<JobId>().is_ok());
}

#[test]
fn freeform_trace_and_span_ids() {
    assert_eq!(TraceId::new("t").expect("non-empty").as_str(), "t");
    assert!(SpanId::new("").is_err());
}

#[test]
fn wrong_prefix_error_carries_the_offered_text() {
    match "lease_x".parse::<ArtifactId>() {
        Err(IdParseError::WrongPrefix { kind, expected, got }) => {
            assert_eq!(kind, "ArtifactId");
            assert_eq!(expected, "art");
            assert_eq!(got, "lease_x");
        }
        _ => panic!("expected WrongPrefix"),
    }
}

#[test]
fn credential_id_is_sixteen_hex_digits() {
    assert_eq!(CredentialId::new(7).as_str(), "cred_0000000000000007");
    assert_eq!(CredentialId::new(255).as_str(), "cred_00000000000000ff");
    assert_eq!(CredentialId::new(u64::MAX).as_str(), "cred_ffffffffffffffff");
    assert_ne!(CredentialId::new(1), CredentialId::new(16));
}

#[test]
fn wrong_prefix_message_names_the_expected_prefix() {
    let err = "sess_01ABC".parse::<JobId>().expect_err("must fail");
    let text = err.message();
    assert!(text.contains("expected prefix"));
    assert_eq!(text, "expected prefix `job_` for JobId, got `sess_01ABC`");
}

#[test]
fn empty_body_message_names_the_kind() {
    let err = "job_".parse::<JobId>().expect_err("must fail");
    assert_eq!(err.message(), "empty id body for JobId");
}
