use arcp::messages::permissions::{
    CostBudget, CostBudgetAmount, CostBudgetParseError, LeaseRequest, LeaseSubsetViolation, ModelUse,
    RemainingBudget,
};
use arcp::time::UtcTime;

fn at(secs: i64) -> UtcTime {
    UtcTime { secs, nanos: 0 }
}

#[test]
fn parse_amount_round_trips() {
    let a = CostBudgetAmount::parse("USD:5.00").unwrap();
    assert_eq!(a.currency, "USD");
    assert_eq!(a.amount_micros, 5_000_000);
    assert_eq!(a.format(), "USD:5");
}

#[test]
fn parse_amount_rejects_negative() {
    assert!(matches!(CostBudgetAmount::parse("USD:-1"), Err(CostBudgetParseError::Negative(_))));
}

#[test]
fn parse_amount_rejects_missing_separator() {
    assert!(matches!(
        CostBudgetAmount::parse("USD"),
        Err(CostBudgetParseError::MissingSeparator(_))
    ));
}

#[test]
fn budget_subset_rejects_excess_child() {
    let parent = CostBudget { amounts: vec![CostBudgetAmount::parse("USD:5.00").unwrap()] };
    let child = CostBudget { amounts: vec![CostBudgetAmount::parse("USD:6.00").unwrap()] };
    let remaining: RemainingBudget = Vec::new();
    assert_eq!(parent.subset_violation(&child, &remaining), Some("USD"));
}

#[test]
fn budget_subset_uses_remaining_floor() {
    let parent = CostBudget { amounts: vec![CostBudgetAmount::parse("USD:5.00").unwrap()] };
    let child = CostBudget { amounts: vec![CostBudgetAmount::parse("USD:3.00").unwrap()] };
    let remaining: RemainingBudget = vec![("USD".to_owned(), 2_000_000)];
    // Parent has $5 budget but only $2 remaining: the child's $3 exceeds it.
    assert_eq!(parent.subset_violation(&child, &remaining), Some("USD"));
}

#[test]
fn matches_exact_and_glob() {
    let model_use = ModelUse {
        patterns: vec!["tier-fast/*".into(), "acme/model-3-small".into()],
    };
    assert!(model_use.matches("tier-fast/small"));
    assert!(model_use.matches("acme/model-3-small"));
    assert!(!model_use.matches("tier-slow/small"));
}

#[test]
fn subset_rejects_expanded_set() {
    let parent = ModelUse { patterns: vec!["tier-fast/*".into()] };
    let child = ModelUse { patterns: vec!["*".into()] };
    assert_eq!(parent.subset_violation(&child), Some("*"));
}

#[test]
fn subset_accepts_equal_or_narrower() {
    let parent = ModelUse { patterns: vec!["tier-fast/*".into()] };
    let equal = ModelUse { patterns: vec!["tier-fast/*".into()] };
    let narrower = ModelUse { patterns: vec!["tier-fast/small".into()] };
    assert!(parent.subset_violation(&equal).is_none());
    assert!(parent.subset_violation(&narrower).is_none());
}

fn budget(micros: u64) -> CostBudget {
    CostBudget { amounts: vec![CostBudgetAmount { currency: "USD".into(), amount_micros: micros }] }
}

#[test]
fn subset_rejects_cost_budget_overrun() {
    let parent = LeaseRequest { cost_budget: Some(budget(5_000_000)), ..LeaseRequest::default() };
    let child = LeaseRequest { cost_budget: Some(budget(6_000_000)), ..LeaseRequest::default() };
    assert_eq!(
        parent.subset_violation(&child, &Vec::new()),
        Some(LeaseSubsetViolation::CostBudget("USD".into()))
    );
}

#[test]
fn subset_rejects_model_use_widening() {
    let parent = LeaseRequest {
        model_use: Some(ModelUse { patterns: vec!["tier-fast/*".into()] }),
        ..LeaseRequest::default()
    };
    let child = LeaseRequest {
        model_use: Some(ModelUse { patterns: vec!["*".into()] }),
        ..LeaseRequest::default()
    };
    assert_eq!(
        parent.subset_violation(&child, &Vec::new()),
        Some(LeaseSubsetViolation::ModelUse("*".into()))
    );
}

#[test]
fn subset_rejects_expiry_beyond_parent() {
    let now = at(1_700_000_000);
    let parent = LeaseRequest { expires_at: Some(now), ..LeaseRequest::default() };
    let child = LeaseRequest { expires_at: Some(at(1_700_000_001)), ..LeaseRequest::default() };
    assert_eq!(
        parent.subset_violation(&child, &Vec::new()),
        Some(LeaseSubsetViolation::ExpiresAtBeyondParent)
    );
}

#[test]
fn validate_at_rejects_past_and_equal_expires_at() {
    let now = at(1_700_000_000);
    let past = LeaseRequest { expires_at: Some(at(1_699_999_999)), ..LeaseRequest::default() };
    assert!(past.validate_at(now).is_err());
    let equal = LeaseRequest { expires_at: Some(now), ..LeaseRequest::default() };
    assert!(equal.validate_at(now).is_err());
    let future = LeaseRequest { expires_at: Some(at(1_700_000_001)), ..LeaseRequest::default() };
    assert!(future.validate_at(now).is_ok());
    assert!(LeaseRequest::default().validate_at(now).is_ok());
}

#[test]
fn is_expired_at_tracks_the_deadline() {
    let now = at(1_700_000_000);
    let lease = LeaseRequest { expires_at: Some(now), ..LeaseRequest::default() };
    assert!(lease.is_expired_at(now));
    assert!(lease.is_expired_at(at(1_700_000_001)));
    assert!(!lease.is_expired_at(at(1_699_999_999)));
    assert!(!LeaseRequest::default().is_expired_at(now));
}

// ---------------------------------------------------------------------

#[test]
fn amount_grammar_edges() {
    assert_eq!(CostBudgetAmount::parse("credits:1000").unwrap().format(), "credits:1000");
    assert_eq!(CostBudgetAmount::parse("USD:0.25").unwrap().amount_micros, 250_000);
    assert_eq!(CostBudgetAmount::parse("USD:0.000001").unwrap().amount_micros, 1);
    assert_eq!(CostBudgetAmount::parse("USD:0.25").unwrap().format(), "USD:0.25");
    assert!(matches!(CostBudgetAmount::parse(":5"), Err(CostBudgetParseError::EmptyCurrency(_))));
    assert!(matches!(CostBudgetAmount::parse("USD:abc"), Err(CostBudgetParseError::InvalidAmount(_))));
    assert!(matches!(CostBudgetAmount::parse("USD:"), Err(CostBudgetParseError::InvalidAmount(_))));
}

#[test]
fn formatted_amount_parses_back() {
    for micros in [0u64, 1, 10, 999_999, 1_000_000, 1_500_000, 123_456_789] {
        let a = CostBudgetAmount { currency: "EUR".into(), amount_micros: micros };
        let back = CostBudgetAmount::parse(&a.format()).unwrap();
        assert_eq!(back, a);
    }
}

#[test]
fn budget_subset_accepts_within_remaining_and_rejects_unlisted_currency() {
    let parent = CostBudget { amounts: vec![CostBudgetAmount::parse("USD:5").unwrap()] };
    let child = CostBudget { amounts: vec![CostBudgetAmount::parse("USD:2").unwrap()] };
    let remaining: RemainingBudget = vec![("USD".to_owned(), 2_000_000)];
    assert_eq!(parent.subset_violation(&child, &remaining), None);
    // A currency the parent does not budget widens it.
    let other = CostBudget { amounts: vec![CostBudgetAmount::parse("EUR:1").unwrap()] };
    assert_eq!(parent.subset_violation(&other, &Vec::new()), Some("EUR"));
}

#[test]
fn lease_subset_accepts_narrower_child() {
    let parent = LeaseRequest {
        cost_budget: Some(budget(5_000_000)),
        model_use: Some(ModelUse { patterns: vec!["tier-fast/*".into()] }),
        expires_at: Some(at(100)),
        ..LeaseRequest::default()
    };
    let child = LeaseRequest {
        cost_budget: Some(budget(1_000_000)),
        model_use: Some(ModelUse { patterns: vec!["tier-fast/small".into()] }),
        expires_at: Some(at(99)),
        ..LeaseRequest::default()
    };
    assert_eq!(parent.subset_violation(&child, &Vec::new()), None);
}

#[test]
fn validate_checks_expiry_against_the_clock() {
    let past = LeaseRequest { expires_at: Some(at(1)), ..LeaseRequest::default() };
    assert!(past.validate().is_err());
    let far = LeaseRequest { expires_at: Some(at(32_503_680_000)), ..LeaseRequest::default() };
    assert!(far.validate().is_ok());
    assert!(LeaseRequest::default().validate().is_ok());
}

#[test]
fn budget_parse_errors_quote_the_offered_text() {
    assert_eq!(
        CostBudgetAmount::parse("USD").unwrap_err().message(),
        "missing ':' in cost.budget amount \"USD\""
    );
    assert_eq!(
        CostBudgetAmount::parse(":5").unwrap_err().message(),
        "empty currency in cost.budget amount \":5\""
    );
    assert_eq!(
        CostBudgetAmount::parse("USD:-1").unwrap_err().message(),
        "negative cost.budget amount \"USD:-1\""
    );
}

#[test]
fn narrowed_model_use_stays_inside_a_prefix_parent() {
    let parent = ModelUse { patterns: vec!["tier-**".into(), "acme/one".into()] };
    let child = ModelUse { patterns: vec!["tier-fast/*".into(), "acme/one".into()] };
    assert_eq!(parent.subset_violation(&child), None);
    for model in ["tier-fast/small", "tier-fast/", "acme/one"] {
        assert!(child.matches(model));
        assert!(parent.matches(model));
    }
}

#[test]
fn the_last_fragment_matches_as_a_suffix() {
    let m = ModelUse { patterns: vec!["*b".into()] };
    assert!(m.matches("abb"));
    assert!(m.matches("b"));
    assert!(!m.matches("ba"));
    let mid = ModelUse { patterns: vec!["a*b*c".into()] };
    assert!(mid.matches("abcbc"));
    assert!(mid.matches("abc"));
    assert!(!mid.matches("ac"));
}

#[test]
fn a_parent_with_an_inner_fragment_covers_no_other_glob() {
    let parent = ModelUse { patterns: vec!["a*b*c".into()] };
    let child = ModelUse { patterns: vec!["a*c".into()] };
    assert_eq!(parent.subset_violation(&child), Some("a*c"));
    assert!(child.matches("ac") && !parent.matches("ac"));
    let suffix = ModelUse { patterns: vec!["*x".into()] };
    let narrower = ModelUse { patterns: vec!["x*x".into()] };
    assert_eq!(suffix.subset_violation(&narrower), None);
    assert!(narrower.matches("xax") && suffix.matches("xax"));
}

#[test]
fn amounts_take_the_decimal_forms_and_refuse_non_finite_words() {
    let micros = |t: &str| CostBudgetAmount::parse(t).map(|a| a.amount_micros);
    assert_eq!(micros("USD:+5"), Ok(5_000_000));
    assert_eq!(micros("USD:.5"), Ok(500_000));
    assert_eq!(micros("USD:5."), Ok(5_000_000));
    assert_eq!(micros("USD:1.5000000"), Ok(1_500_000));
    assert_eq!(micros("USD:-0"), Ok(0));
    assert_eq!(micros("USD:-.0"), Ok(0));
    assert!(matches!(CostBudgetAmount::parse("USD:inf"), Err(CostBudgetParseError::Negative(_))));
    assert!(matches!(CostBudgetAmount::parse("USD:-NaN"), Err(CostBudgetParseError::Negative(_))));
    assert!(matches!(CostBudgetAmount::parse("USD:Infinity"), Err(CostBudgetParseError::Negative(_))));
    assert!(matches!(CostBudgetAmount::parse("USD:."), Err(CostBudgetParseError::InvalidAmount(_))));
    assert!(matches!(CostBudgetAmount::parse("USD:+-5"), Err(CostBudgetParseError::InvalidAmount(_))));
    // Not held exactly in micro-units: refused.
    assert!(matches!(CostBudgetAmount::parse("USD:0.0000001"), Err(CostBudgetParseError::InvalidAmount(_))));
    assert!(matches!(CostBudgetAmount::parse("USD:1e3"), Err(CostBudgetParseError::InvalidAmount(_))));
}
