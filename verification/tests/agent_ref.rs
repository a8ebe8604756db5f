use arcp::messages::execution::{AgentRef, AgentRefParseError, JobState};

#[test]
fn parse_bare_name() {
    let r = AgentRef::parse("code-refactor").unwrap();
    assert_eq!(r.name, "code-refactor");
    assert!(r.version.is_none());
}

#[test]
fn parse_name_at_version() {
    let r = AgentRef::parse("code-refactor@2.0.0").unwrap();
    assert_eq!(r.name, "code-refactor");
    assert_eq!(r.version.as_deref(), Some("2.0.0"));
}

#[test]
fn format_round_trips() {
    for s in ["a", "a-b", "a@1.0.0", "agent_x@v1.2.3+build.4"] {
        let r = AgentRef::parse(s).unwrap();
        assert_eq!(r.format(), s);
    }
}

#[test]
fn rejects_uppercase_in_name() {
    assert!(AgentRef::parse("CodeRefactor").is_err());
    assert!(AgentRef::parse("Foo@1").is_err());
}

#[test]
fn rejects_empty_version() {
    assert!(AgentRef::parse("ok@").is_err());
}

#[test]
fn parse_splits_at_the_first_at_sign() {
    assert!(matches!(AgentRef::parse("a@b@c"), Err(AgentRefParseError::InvalidVersion(_))));
    assert!(matches!(AgentRef::parse(""), Err(AgentRefParseError::InvalidName(_))));
    assert!(matches!(AgentRef::parse("@1"), Err(AgentRefParseError::InvalidName(_))));
}

#[test]
fn job_state_wire_strings_and_terminals() {
    assert_eq!(JobState::Running.wire_str(), "running");
    assert_eq!(JobState::Cancelled.wire_str(), "cancelled");
    assert!(JobState::Completed.is_terminal());
    assert!(JobState::Failed.is_terminal());
    assert!(!JobState::Paused.is_terminal());
}

#[test]
fn parse_errors_quote_the_offending_component() {
    assert_eq!(AgentRef::parse("Bad").unwrap_err().message(), "invalid agent name \"Bad\"");
    assert_eq!(AgentRef::parse("tool@").unwrap_err().message(), "invalid agent version \"\"");
}
