//! Job lifecycle decisions: admitting a `tool.invoke`, idempotent
//! retries, the terminal event of a job, cancellation and which job
//! events a `job.subscribe` forwards.

use vstd::prelude::*;

use crate::envelope::Envelope;
use crate::decimal::{i64_decimal, int_text};
use crate::error::{
    code_retryable, error_code, error_code_wire, error_detail, error_message_text, ARCPError,
    ErrorCode,
};
use crate::ids::{IdempotencyKey, JobId, SessionId};
use crate::json::{
    json_as_object, json_as_str, json_as_u64, json_get, json_map_entry, json_map_get, json_map_len,
    json_map_len_of, json_object_of, json_str_of, json_text_of, json_to_text, json_u64_of,
};
use crate::messages::control::{CancelAcceptedPayload, CancelRefusedPayload};
use crate::messages::execution::{
    agent_ref_error_text, agent_ref_format_spec, agent_ref_parse_spec, job_state_wire, AgentRef,
    JobAcceptedPayload, JobCancelledPayload,
    JobCompletedPayload, JobFailedPayload, JobState, ToolInvokePayload,
};
use crate::messages::credentials::{credential_view, CredentialView, ProvisionedCredential};
use crate::messages::permissions::{lease_expired_at, LeaseRequest, LeaseRequestView};
use crate::messages::subscriptions::JobSubscribedPayload;
use crate::messages::{inventory_satisfies, AgentInventory, MessageType};
use crate::runtime::context::{ResultStreamState, ResultStreamView};
use crate::runtime::session::text_listed;
use crate::runtime::registry::{kept_row, swept_row, JobRecord, JobRegistry, JobSnapshot};
use crate::table::{
    lemma_table_entry, lemma_table_filter, lemma_table_push, lemma_table_update, map_keep, table_view,
    table_wf,
};
use crate::text::str_eq;
use crate::time::{utc_display, utc_display_of, UtcTime};

verus! {

broadcast use vstd::string::group_string_axioms;

// ---------------------------------------------------------------------
// Streamed-result completions
// ---------------------------------------------------------------------

/// Key of the single-entry object by which a handler says its result was
/// streamed: `{ "$arcp_streamed_result": { result_id, result_size?, summary? } }`.
pub const STREAMED_RESULT_SENTINEL: &'static str = "$arcp_streamed_result";

/// The entry of a JSON value under `key`, when the value is an object.
pub open spec fn value_entry(v: serde_json::Value, key: Seq<char>) -> Option<serde_json::Value> {
    match json_object_of(v) {
        Some(m) => json_map_entry(m, key),
        None => None,
    }
}

/// The text under `key`, when there is a string there.
pub open spec fn text_entry(v: serde_json::Value, key: Seq<char>) -> Option<Seq<char>> {
    match value_entry(v, key) {
        Some(x) => json_str_of(x),
        None => None,
    }
}

/// The `u64` under `key`, when there is one there.
pub open spec fn u64_entry(v: serde_json::Value, key: Seq<char>) -> Option<u64> {
    match value_entry(v, key) {
        Some(x) => json_u64_of(x),
        None => None,
    }
}

/// The sentinel's body: present when the value is a one-entry object whose
/// entry is the sentinel key.
pub open spec fn sentinel_body(v: serde_json::Value) -> Option<serde_json::Value> {
    match json_object_of(v) {
        Some(m) => if json_map_len_of(m) == 1 {
            json_map_entry(m, STREAMED_RESULT_SENTINEL@)
        } else {
            None
        },
        None => None,
    }
}

/// The fields a sentinel body provides.
#[derive(Debug, Clone, PartialEq, Eq)]
pub struct SentinelFields {
    /// `result_id`, when it is a string.
    pub result_id: Option<String>,
    /// `result_size`, when it is a `u64`.
    pub result_size: Option<u64>,
    /// `summary`, when it is a string.
    pub summary: Option<String>,
}

/// View of an optional text.
pub open spec fn opt_view(s: Option<String>) -> Option<Seq<char>> {
    match s {
        Some(x) => Some(x@),
        None => None,
    }
}

/// `c` is the completion built from `value` and the sentinel fields read
/// from it: a streamed reference when the fields name a `result_id`, the
/// inline value otherwise.
pub open spec fn completion_matches(
    c: JobCompletedPayload,
    value: serde_json::Value,
    fields: Option<SentinelFields>,
) -> bool {
    match fields {
        Some(f) if f.result_id is Some => {
            &&& c.value is None
            &&& c.result_ref is None
            &&& opt_view(c.result_id) == opt_view(f.result_id)
            &&& c.result_size == f.result_size
            &&& opt_view(c.summary) == opt_view(f.summary)
        },
        _ => {
            &&& c.value == Some(value)
            &&& c.result_ref is None
            &&& c.result_id is None
            &&& c.result_size is None
            &&& c.summary is None
        },
    }
}

/// The sentinel fields a value provides, as `serde_json` reads them.
pub open spec fn fields_of(value: serde_json::Value, fields: Option<SentinelFields>) -> bool {
    match sentinel_body(value) {
        None => fields is None,
        Some(body) => fields matches Some(f) && opt_view(f.result_id) == text_entry(
            body,
            "result_id"@,
        ) && f.result_size == u64_entry(body, "result_size"@) && opt_view(f.summary)
            == text_entry(body, "summary"@),
    }
}

/// Build the `job.completed` payload from a handler's value and the
/// sentinel fields read from it (see [`completion_matches`]).
pub fn completion_from_fields(value: serde_json::Value, fields: Option<SentinelFields>) -> (c:
    JobCompletedPayload)
    ensures
        completion_matches(c, value, fields),
{
    match fields {
        Some(f) => {
            if f.result_id.is_some() {
                return JobCompletedPayload {
                    value: None,
                    result_ref: None,
                    result_id: f.result_id,
                    result_size: f.result_size,
                    summary: f.summary,
                };
            }
        },
        None => {},
    }
    JobCompletedPayload {
        value: Some(value),
        result_ref: None,
        result_id: None,
        result_size: None,
        summary: None,
    }
}

fn text_field(v: &serde_json::Value, key: &str) -> (r: Option<String>)
    ensures
        opt_view(r) == text_entry(*v, key@),
{
    match json_get(v, key) {
        Some(x) => match json_as_str(x) {
            Some(s) => Some(s.to_owned()),
            None => None,
        },
        None => None,
    }
}

fn u64_field(v: &serde_json::Value, key: &str) -> (r: Option<u64>)
    ensures
        r == u64_entry(*v, key@),
{
    match json_get(v, key) {
        Some(x) => json_as_u64(x),
        None => None,
    }
}

/// Read the sentinel fields of a handler's value.
pub fn read_sentinel(value: &serde_json::Value) -> (r: Option<SentinelFields>)
    ensures
        fields_of(*value, r),
{
    let obj = match json_as_object(value) {
        Some(o) => o,
        None => {
            return None;
        },
    };
    if json_map_len(obj) != 1 {
        return None;
    }
    let body = match json_map_get(obj, STREAMED_RESULT_SENTINEL) {
        Some(b) => b,
        None => {
            return None;
        },
    };
    proof {
        reveal_strlit("result_id");
        reveal_strlit("result_size");
        reveal_strlit("summary");
    }
    Some(
        SentinelFields {
            result_id: text_field(body, "result_id"),
            result_size: u64_field(body, "result_size"),
            summary: text_field(body, "summary"),
        },
    )
}

/// Build the `job.completed` payload of a handler's value, recognising the
/// streamed-result sentinel.
pub fn streamed_result_from_value(value: serde_json::Value) -> (c: JobCompletedPayload)
    ensures
        exists|f: Option<SentinelFields>| fields_of(value, f) && completion_matches(c, value, f),
{
    let fields = read_sentinel(&value);
    let ghost g = fields;
    let c = completion_from_fields(value, fields);
    assert(fields_of(value, g) && completion_matches(c, value, g));
    c
}

/// The result id a handler's value names through the sentinel, if any.
pub open spec fn sentinel_result_id(value: serde_json::Value) -> Option<Seq<char>> {
    match sentinel_body(value) {
        Some(body) => text_entry(body, "result_id"@),
        None => None,
    }
}

/// Whether a value may complete a job whose result stream is `st`: always
/// without a stream; after one, only a sentinel naming the stream's result
/// id, once the stream was terminated.
pub open spec fn completion_allowed(st: Option<ResultStreamView>, value: serde_json::Value) -> bool {
    match st {
        None => true,
        Some(s) => sentinel_result_id(value) == Some(s.result_id) && s.finished,
    }
}

/// The text of a refused completion after the stream `s`.
pub open spec fn completion_refusal_detail(s: ResultStreamView, value: serde_json::Value) -> Seq<char> {
    if sentinel_result_id(value) == Some(s.result_id) {
        "result stream "@ + s.result_id + " was not terminated with a more: false chunk before job.completed"@
    } else {
        "job streamed result chunks for "@ + s.result_id
            + " but completed with an inline or mismatched result; the terminal result must carry the matching result_id"@
    }
}

/// Terminal completion of a job whose handler returned `value`.
///
/// Without a streamed result the value (or its sentinel) completes the
/// job. After a stream, the completion must name the same result id
/// (`FAILED_PRECONDITION` otherwise) and the stream must have been
/// terminated (`FAILED_PRECONDITION` otherwise).
pub fn finalize_streamed_completion(stream: &ResultStreamState, value: serde_json::Value) -> (r: Result<
    JobCompletedPayload,
    ARCPError,
>)
    ensures
        r is Ok <==> completion_allowed(stream@, value),
        r matches Err(e) ==> error_code(e) == ErrorCode::FailedPrecondition && (stream@ matches Some(s)
            && error_detail(e) == completion_refusal_detail(s, value)),
        r matches Ok(c) ==> exists|f: Option<SentinelFields>| fields_of(value, f) && completion_matches(
            c,
            value,
            f,
        ),
{
    let completed = streamed_result_from_value(value);
    let active = match stream.active_result_id() {
        None => {
            return Ok(completed);
        },
        Some(a) => a,
    };
    let same = match &completed.result_id {
        Some(rid) => str_eq(rid.as_str(), active),
        None => false,
    };
    if !same {
        let mut detail = "job streamed result chunks for ".to_owned();
        detail.append(active);
        detail.append(
            " but completed with an inline or mismatched result; the terminal result must carry the matching result_id",
        );
        return Err(ARCPError::FailedPrecondition { detail });
    }
    if stream.is_finished() {
        Ok(completed)
    } else {
        let mut detail = "result stream ".to_owned();
        detail.append(active);
        detail.append(" was not terminated with a more: false chunk before job.completed");
        Err(ARCPError::FailedPrecondition { detail })
    }
}

// ---------------------------------------------------------------------
// Admission of `tool.invoke`
// ---------------------------------------------------------------------

/// The lease a job runs under: the full lease request when present, else
/// a lease holding only the legacy `cost_budget`.
pub fn effective_lease(payload: &ToolInvokePayload) -> (r: Option<LeaseRequest>)
    ensures
        match payload.lease_request {
            Some(l) => r matches Some(x) && x@ == l@,
            None => match payload.cost_budget {
                Some(b) => r matches Some(x) && x@.cost_budget == Some(b@) && x@.model_use is None
                    && x@.expires_at is None && x@.extra.is_empty(),
                None => r is None,
            },
        },
{
    match &payload.lease_request {
        Some(l) => Some(l.clone_lease()),
        None => match &payload.cost_budget {
            Some(b) => {
                let mut lease = LeaseRequest::new();
                lease.cost_budget = Some(b.clone_budget());
                Some(lease)
            },
            None => None,
        },
    }
}

/// How a `tool.invoke` is answered before its handler runs.
#[derive(Debug, Clone)]
pub enum InvokeAdmission {
    /// The job fails with `job.failed`; `after_accepted` says whether
    /// `job.accepted` was already sent.
    Reject {
        /// Error code of the failure.
        code: ErrorCode,
        /// Whether a retry may succeed.
        retryable: bool,
        /// `job.accepted` went out before the failure.
        after_accepted: bool,
        /// Text of the `job.failed`.
        message: String,
    },
    /// The job runs.
    Admit {
        /// The resolved agent reference.
        agent: AgentRef,
        /// The lease the job runs under.
        lease: Option<LeaseRequest>,
        /// `job.accepted` waits for credentials to be provisioned.
        defer_accepted: bool,
    },
}

/// Whether some registered tool has the name `name`.
pub open spec fn tool_registered(names: Seq<String>, name: Seq<char>) -> bool {
    text_listed(names, name)
}

/// Decide a `tool.invoke`; the checks run in this order:
///
/// 1. a tool reference outside the agent grammar: `INVALID_ARGUMENT`;
/// 2. a lease already expired at `now`: `INVALID_REQUEST`;
/// 3. `job.accepted` is sent now unless credentials must be provisioned
///    first (a provisioner and a lease);
/// 4. a pinned version the advertised inventory does not list:
///    `AGENT_VERSION_NOT_AVAILABLE`;
/// 5. no handler for the name: `AGENT_NOT_AVAILABLE`;
/// 6. otherwise the job runs.
pub fn plan_tool_invoke(
    tool: &str,
    lease: Option<LeaseRequest>,
    now: UtcTime,
    has_provisioner: bool,
    inventory: &Option<AgentInventory>,
    registered: &Vec<String>,
) -> (r: InvokeAdmission)
    ensures
        match agent_ref_parse_spec(tool@) {
            Err(err) => r matches InvokeAdmission::Reject { code, retryable, after_accepted, message }
                && code == ErrorCode::InvalidArgument && !retryable && !after_accepted && message@
                == "invalid agent reference "@ + tool@ + ": "@ + agent_ref_error_text(err),
            Ok(agent) => {
                let defer = has_provisioner && lease is Some;
                if lease matches Some(l) && lease_expired_at(l@, now) {
                    r matches InvokeAdmission::Reject { code, retryable, after_accepted, message }
                        && code == ErrorCode::InvalidRequest && retryable == code_retryable(code)
                        && !after_accepted && message@ == error_code_wire(ErrorCode::InvalidRequest)
                        + ": "@ + "lease.expires_at must be in the future at submission time"@
                } else if agent.version is Some && !(*inventory matches Some(inv)
                    && inventory_satisfies(inv, agent)) {
                    r matches InvokeAdmission::Reject { code, retryable, after_accepted, message }
                        && code == ErrorCode::AgentVersionNotAvailable && !retryable && after_accepted
                        == !defer && message@ == "agent version not available: "@
                        + agent_ref_format_spec(agent)
                } else if !tool_registered(registered@, agent.name) {
                    r matches InvokeAdmission::Reject { code, retryable, after_accepted, message }
                        && code == ErrorCode::AgentNotAvailable && !retryable && after_accepted == !defer
                        && message@ == "agent not available: "@ + agent.name
                } else {
                    r matches InvokeAdmission::Admit { agent: a, lease: l, defer_accepted } && a@
                        == agent && l == lease && defer_accepted == defer
                }
            },
        },
{
    let agent = match AgentRef::parse(tool) {
        Ok(a) => a,
        Err(e) => {
            let mut message = "invalid agent reference ".to_owned();
            message.append(tool);
            message.append(": ");
            message.append(e.message().as_str());
            return InvokeAdmission::Reject {
                code: ErrorCode::InvalidArgument,
                retryable: false,
                after_accepted: false,
                message,
            };
        },
    };
    match &lease {
        Some(l) => match l.validate_at(now) {
            Ok(()) => {},
            Err(e) => {
                return InvokeAdmission::Reject {
                    code: e.code(),
                    retryable: e.retryable(),
                    after_accepted: false,
                    message: e.message(),
                };
            },
        },
        None => {},
    }
    let defer = has_provisioner && lease.is_some();
    if agent.version.is_some() {
        let satisfied = match inventory {
            Some(inv) => inv.satisfies(&agent),
            None => false,
        };
        if !satisfied {
            let mut message = "agent version not available: ".to_owned();
            message.append(agent.format().as_str());
            return InvokeAdmission::Reject {
                code: ErrorCode::AgentVersionNotAvailable,
                retryable: false,
                after_accepted: !defer,
                message,
            };
        }
    }
    let mut found = false;
    let mut i: usize = 0;
    while i < registered.len()
        invariant
            i <= registered.len(),
            found == exists|k: int| 0 <= k < i && #[trigger] registered@[k]@ == agent@.name,
        decreases registered.len() - i,
    {
        if str_eq(registered[i].as_str(), agent.name.as_str()) {
            found = true;
        }
        i = i + 1;
    }
    if !found {
        let mut message = "agent not available: ".to_owned();
        message.append(agent.name.as_str());
        return InvokeAdmission::Reject {
            code: ErrorCode::AgentNotAvailable,
            retryable: false,
            after_accepted: !defer,
            message,
        };
    }
    InvokeAdmission::Admit { agent, lease, defer_accepted: defer }
}

// ---------------------------------------------------------------------
// Idempotent retries
// ---------------------------------------------------------------------

/// One remembered command intent: the `job.accepted` it produced, the
/// resolved tool and the canonical text of its arguments.
#[derive(Clone)]
struct IdempotencyRecord {
    scope: String,
    key: IdempotencyKey,
    accepted: JobAcceptedPayload,
    tool: String,
    arguments_canonical: String,
}

/// What an idempotency key resolves to.
#[derive(Clone)]
pub enum Reuse {
    /// First use of the key: run the command.
    Fresh,
    /// A retry of the same intent: answer with the first acceptance.
    Replay(JobAcceptedPayload),
    /// The key is bound to a different intent: `DUPLICATE_KEY`.
    Conflict,
}

/// The `job.failed` that answers a key already bound to another intent:
/// `DUPLICATE_KEY`, not retryable, naming the key.
pub fn duplicate_key_failure(key: &IdempotencyKey) -> (p: JobFailedPayload)
    ensures
        p.code == ErrorCode::DuplicateKey,
        p.retryable == Some(false),
        p.message@ == "idempotency key "@ + key@ + " already bound to a different command intent"@,
        p.details is None,
{
    let mut message = "idempotency key ".to_owned();
    message.append(key.as_str());
    message.append(" already bound to a different command intent");
    JobFailedPayload { code: ErrorCode::DuplicateKey, retryable: Some(false), message, details: None }
}

/// View of a `job.accepted` payload: job id, credentials and lease.
pub type AcceptanceView = (Seq<char>, Seq<CredentialView>, Option<LeaseRequestView>);

/// The [`AcceptanceView`] of a payload.
pub open spec fn acceptance_view(a: JobAcceptedPayload) -> AcceptanceView {
    (
        a.job_id@,
        a.credentials@.map_values(|c: ProvisionedCredential| credential_view(c)),
        match a.lease {
            Some(l) => Some(l@),
            None => None,
        },
    )
}

/// View of an intent: the acceptance it produced, the tool and the
/// canonical arguments.
pub type IntentView = (AcceptanceView, Seq<char>, Seq<char>);

/// What a key resolves to, in the index's view.
pub enum ReuseView {
    /// First use of the key.
    Fresh,
    /// A retry of the same intent, answered with this acceptance.
    Replay(AcceptanceView),
    /// The key is bound to a different intent.
    Conflict,
}

/// View of a [`Reuse`].
pub open spec fn reuse_view(r: Reuse) -> ReuseView {
    match r {
        Reuse::Fresh => ReuseView::Fresh,
        Reuse::Replay(a) => ReuseView::Replay(acceptance_view(a)),
        Reuse::Conflict => ReuseView::Conflict,
    }
}

/// What `(scope, key)` resolves to for a command of `tool` with canonical
/// arguments `args`: fresh when unbound, a replay of the recorded
/// acceptance when the recorded intent is the same, a conflict otherwise.
pub open spec fn reuse_of(
    index: Map<(Seq<char>, Seq<char>), IntentView>,
    scope: Seq<char>,
    key: Seq<char>,
    tool: Seq<char>,
    args: Seq<char>,
) -> ReuseView {
    if !index.contains_key((scope, key)) {
        ReuseView::Fresh
    } else {
        let rec = index[(scope, key)];
        if rec.1 == tool && rec.2 == args {
            ReuseView::Replay(rec.0)
        } else {
            ReuseView::Conflict
        }
    }
}

/// Logical idempotency index of `tool.invoke`: `(scope, key)` to the
/// intent it first carried. The scope is the principal, or the session
/// id for anonymous sessions.
#[derive(Clone)]
pub struct IdempotencyIndex {
    records: Vec<IdempotencyRecord>,
}

/// The scope of an idempotency key: the principal when authenticated, else
/// the session id.
pub fn idempotency_scope(principal: &Option<String>, session_id: &SessionId) -> (s: String)
    ensures
        s@ == match principal {
            Some(p) => p@,
            None => session_id@,
        },
{
    match principal {
        Some(p) => p.clone(),
        None => session_id.as_str().to_owned(),
    }
}

/// Canonical text of a command's arguments: their compact JSON text.
pub fn canonical_arguments(arguments: &serde_json::Value) -> (s: String)
    ensures
        s@ == json_text_of(*arguments),
{
    json_to_text(arguments)
}

impl IdempotencyIndex {
    spec fn rows(&self) -> Seq<((Seq<char>, Seq<char>), IntentView)> {
        self.records@.map_values(
            |r: IdempotencyRecord|
                ((r.scope@, r.key@), (acceptance_view(r.accepted), r.tool@, r.arguments_canonical@)),
        )
    }

    /// `(scope, key)` to `(acceptance, tool, canonical arguments)`.
    pub closed spec fn view(&self) -> Map<(Seq<char>, Seq<char>), IntentView> {
        table_view(self.rows())
    }

    /// Invariant: one record per `(scope, key)`.
    pub closed spec fn wf(&self) -> bool {
        table_wf(self.rows())
    }

    /// An empty index.
    pub fn new() -> (x: Self)
        ensures
            x.wf(),
            x.view() == Map::<(Seq<char>, Seq<char>), IntentView>::empty(),
    {
        let x = IdempotencyIndex { records: Vec::new() };
        assert(x.view() =~= Map::<(Seq<char>, Seq<char>), IntentView>::empty());
        x
    }

    /// Number of live records.
    pub fn len(&self) -> (n: usize)
        requires
            self.wf(),
        ensures
            n == self.view().len(),
    {
        proof {
            crate::table::lemma_table_len(self.rows());
        }
        self.records.len()
    }

    fn find(&self, scope: &str, key: &IdempotencyKey) -> (r: Option<usize>)
        requires
            self.wf(),
        ensures
            match r {
                Some(i) => i < self.rows().len() && self.rows()[i as int].0 == (scope@, key@),
                None => !self.view().contains_key((scope@, key@)),
            },
    {
        let mut i: usize = 0;
        while i < self.records.len()
            invariant
                i <= self.records.len(),
                forall|k: int| 0 <= k < i ==> self.rows()[k].0 != (scope@, key@),
            decreases self.records.len() - i,
        {
            let rec = &self.records[i];
            if str_eq(rec.scope.as_str(), scope) && str_eq(rec.key.as_str(), key.as_str()) {
                return Some(i);
            }
            i = i + 1;
        }
        proof {
            if self.view().contains_key((scope@, key@)) {
                let k = choose|k: int| 0 <= k < self.rows().len() && #[trigger] self.rows()[k].0 == (scope@, key@);
                assert(self.rows()[k].0 != (scope@, key@));
            }
        }
        None
    }

    /// Resolve a key: fresh when unbound; a replay of the first
    /// acceptance when the tool and canonical arguments match; a conflict
    /// otherwise.
    pub fn lookup(&self, scope: &str, key: &IdempotencyKey, tool: &str, arguments_canonical: &str) -> (r:
        Reuse)
        requires
            self.wf(),
        ensures
            reuse_view(r) == reuse_of(self.view(), scope@, key@, tool@, arguments_canonical@),
    {
        match self.find(scope, key) {
            None => Reuse::Fresh,
            Some(i) => {
                proof {
                    lemma_table_entry(self.rows(), i as int);
                }
                let rec = &self.records[i];
                if str_eq(rec.tool.as_str(), tool) && str_eq(rec.arguments_canonical.as_str(), arguments_canonical) {
                    Reuse::Replay(rec.accepted.clone_accepted())
                } else {
                    Reuse::Conflict
                }
            },
        }
    }

    /// Remember the intent a key first carried.
    pub fn record(
        &mut self,
        scope: String,
        key: IdempotencyKey,
        accepted: JobAcceptedPayload,
        tool: String,
        arguments_canonical: String,
    )
        requires
            old(self).wf(),
        ensures
            final(self).wf(),
            final(self).view() == old(self).view().insert(
                (scope@, key@),
                (acceptance_view(accepted), tool@, arguments_canonical@),
            ),
    {
        let ghost k = (scope@, key@);
        let ghost v = (acceptance_view(accepted), tool@, arguments_canonical@);
        let found = self.find(scope.as_str(), &key);
        let ghost before = self.rows();
        let rec = IdempotencyRecord { scope, key, accepted, tool, arguments_canonical };
        match found {
            Some(i) => {
                self.records.set(i, rec);
                assert(self.rows() =~= before.update(i as int, (before[i as int].0, v)));
                proof {
                    lemma_table_update(before, i as int, v);
                }
            },
            None => {
                self.records.push(rec);
                assert(self.rows() =~= before.push((k, v)));
                proof {
                    lemma_table_push(before, k, v);
                }
            },
        }
    }
}

impl IdempotencyIndex {
    /// Drop the records bound to any of `jobs` (swept terminal jobs).
    pub fn forget_jobs(&mut self, jobs: &Vec<JobId>)
        requires
            old(self).wf(),
        ensures
            final(self).wf(),
            final(self).view() == map_keep(old(self).view(), intent_kept(jobs@.map_values(|j: JobId| j@))),
    {
        let ghost ids = jobs@.map_values(|j: JobId| j@);
        let ghost keep = intent_kept(ids);
        let ghost rows = self.rows();
        let mut kept: Vec<IdempotencyRecord> = Vec::new();
        let mut i: usize = 0;
        assert(rows.take(0).filter(keep) =~= Seq::<((Seq<char>, Seq<char>), IntentView)>::empty()) by {
            reveal(Seq::filter);
        }
        while i < self.records.len()
            invariant
                i <= self.records.len(),
                rows == self.rows(),
                ids == jobs@.map_values(|j: JobId| j@),
                keep == intent_kept(ids),
                kept@.map_values(
                    |r: IdempotencyRecord|
                        ((r.scope@, r.key@), (acceptance_view(r.accepted), r.tool@, r.arguments_canonical@)),
                ) == rows.take(i as int).filter(keep),
            decreases self.records.len() - i,
        {
            let rec = &self.records[i];
            assert(rows.take(i + 1) =~= rows.take(i as int).push(rows[i as int]));
            proof {
                rows.take(i as int).lemma_filter_push(rows[i as int], keep);
            }
            let mut listed = false;
            let mut j: usize = 0;
            while j < jobs.len()
                invariant
                    j <= jobs.len(),
                    ids == jobs@.map_values(|j: JobId| j@),
                    listed == exists|x: int| 0 <= x < j && #[trigger] ids[x] == rec.accepted.job_id@,
                decreases jobs.len() - j,
            {
                assert(ids[j as int] == jobs@[j as int]@);
                if str_eq(jobs[j].as_str(), rec.accepted.job_id.as_str()) {
                    listed = true;
                }
                j = j + 1;
            }
            assert(listed == ids.contains(rec.accepted.job_id@));
            if !listed {
                let ghost kp = kept@;
                kept.push(clone_record(rec));
                assert(kept@.map_values(
                    |r: IdempotencyRecord|
                        ((r.scope@, r.key@), (acceptance_view(r.accepted), r.tool@, r.arguments_canonical@)),
                ) =~= kp.map_values(
                    |r: IdempotencyRecord|
                        ((r.scope@, r.key@), (acceptance_view(r.accepted), r.tool@, r.arguments_canonical@)),
                ).push(rows[i as int]));
            }
            i = i + 1;
        }
        assert(rows.take(self.records.len() as int) =~= rows);
        self.records = kept;
        proof {
            lemma_table_filter(rows, keep);
        }
    }
}

/// The test "not bound to one of `jobs`" on an index row.
pub open spec fn intent_kept(jobs: Seq<Seq<char>>) -> spec_fn(((Seq<char>, Seq<char>), IntentView)) -> bool {
    |row: ((Seq<char>, Seq<char>), IntentView)| !jobs.contains(row.1.0.0)
}

fn clone_record(r: &IdempotencyRecord) -> (c: IdempotencyRecord)
    ensures
        c.scope@ == r.scope@,
        c.key@ == r.key@,
        acceptance_view(c.accepted) == acceptance_view(r.accepted),
        c.tool@ == r.tool@,
        c.arguments_canonical@ == r.arguments_canonical@,
{
    IdempotencyRecord {
        scope: r.scope.clone(),
        key: r.key.clone(),
        accepted: r.accepted.clone_accepted(),
        tool: r.tool.clone(),
        arguments_canonical: r.arguments_canonical.clone(),
    }
}

/// One maintenance sweep: evict the terminal jobs that outlived the
/// retention and the idempotency records bound to them; returns how many
/// jobs were evicted.
pub fn sweep_terminal_state(
    jobs: &mut JobRegistry,
    index: &mut IdempotencyIndex,
    now: UtcTime,
    retention_secs: u64,
) -> (n: usize)
    requires
        old(jobs).wf(),
        old(index).wf(),
    ensures
        final(jobs).wf(),
        final(index).wf(),
        final(jobs).view() == map_keep(old(jobs).view(), kept_row(now, retention_secs)),
        n == old(jobs).ordered().filter(swept_row(now, retention_secs)).len(),
        final(index).view() == map_keep(
            old(index).view(),
            intent_kept(
                old(jobs).ordered().filter(swept_row(now, retention_secs)).map_values(
                    |row: (Seq<char>, JobRecord)| row.0,
                ),
            ),
        ),
{
    let swept = jobs.sweep_terminals_older_than(now, retention_secs);
    assert(swept@.map_values(|j: JobId| j@).len() == swept@.len());
    if swept.len() > 0 {
        index.forget_jobs(&swept);
    } else {
        proof {
            let ids = swept@.map_values(|j: JobId| j@);
            assert(map_keep(index.view(), intent_kept(ids)) =~= index.view());
        }
    }
    swept.len()
}

/// A retry of the same intent under the same key resolves to the
/// acceptance (job, credentials, lease) the key was first recorded with;
/// the same key with another intent is a conflict; other keys resolve as
/// they did before the recording.
pub proof fn lemma_retry_resolves_to_first_job(
    index: Map<(Seq<char>, Seq<char>), IntentView>,
    scope: Seq<char>,
    key: Seq<char>,
    accepted: AcceptanceView,
    tool: Seq<char>,
    args: Seq<char>,
    other_tool: Seq<char>,
    other_args: Seq<char>,
    other_scope: Seq<char>,
    other_key: Seq<char>,
)
    requires
        !index.contains_key((scope, key)),
    ensures
        reuse_of(index, scope, key, tool, args) == ReuseView::Fresh,
        reuse_of(index.insert((scope, key), (accepted, tool, args)), scope, key, tool, args)
            == ReuseView::Replay(accepted),
        !(other_tool == tool && other_args == args) ==> reuse_of(
            index.insert((scope, key), (accepted, tool, args)),
            scope,
            key,
            other_tool,
            other_args,
        ) == ReuseView::Conflict,
        (other_scope, other_key) != (scope, key) ==> reuse_of(
            index.insert((scope, key), (accepted, tool, args)),
            other_scope,
            other_key,
            other_tool,
            other_args,
        ) == reuse_of(index, other_scope, other_key, other_tool, other_args),
{
}

// ---------------------------------------------------------------------
// The terminal event of a job
// ---------------------------------------------------------------------

/// How a job's handler ended.
pub enum InvokeOutcome {
    /// The handler returned a value.
    Completed(serde_json::Value),
    /// The handler failed.
    Failed(ARCPError),
    /// The job was cancelled, with a reason.
    Cancelled(String),
    /// The lease expired while the job was running.
    LeaseExpired(UtcTime),
}

/// The terminal event of a job.
pub enum JobTerminal {
    /// `job.completed`.
    Completed(JobCompletedPayload),
    /// `job.failed` with this error (its code and retryability go on the
    /// wire).
    Failed(ARCPError),
    /// `job.failed` with `LEASE_EXPIRED`, not retryable.
    LeaseExpired(UtcTime),
    /// `job.cancelled` with this reason.
    Cancelled(String),
}

/// The final state and terminal event of a job: a completion is checked
/// against the result stream (see [`finalize_streamed_completion`]); a
/// handler's `CANCELLED` error counts as a cancellation; everything else
/// fails the job.
pub fn job_terminal(outcome: InvokeOutcome, stream: &ResultStreamState) -> (r: (JobState, JobTerminal))
    ensures
        match outcome {
            InvokeOutcome::Completed(v) => if completion_allowed(stream@, v) {
                r.0 == JobState::Completed && (r.1 matches JobTerminal::Completed(c) && exists|
                    f: Option<SentinelFields>,
                | fields_of(v, f) && completion_matches(c, v, f))
            } else {
                r.0 == JobState::Failed && (r.1 matches JobTerminal::Failed(e) && error_code(e)
                    == ErrorCode::FailedPrecondition && (stream@ matches Some(s) && error_detail(e)
                    == completion_refusal_detail(s, v)))
            },
            InvokeOutcome::Failed(e) => match e {
                ARCPError::Cancelled { reason } => r.0 == JobState::Cancelled && (r.1
                    matches JobTerminal::Cancelled(why) && why == reason),
                _ => r.0 == JobState::Failed && (r.1 matches JobTerminal::Failed(f) && f == e),
            },
            InvokeOutcome::Cancelled(reason) => r.0 == JobState::Cancelled && (r.1
                matches JobTerminal::Cancelled(why) && why == reason),
            InvokeOutcome::LeaseExpired(at) => r.0 == JobState::Failed && (r.1
                matches JobTerminal::LeaseExpired(when) && when == at),
        },
{
    match outcome {
        InvokeOutcome::Completed(value) => match finalize_streamed_completion(stream, value) {
            Ok(c) => (JobState::Completed, JobTerminal::Completed(c)),
            Err(e) => (JobState::Failed, JobTerminal::Failed(e)),
        },
        InvokeOutcome::Failed(e) => match e {
            ARCPError::Cancelled { reason } => (JobState::Cancelled, JobTerminal::Cancelled(reason)),
            other => (JobState::Failed, JobTerminal::Failed(other)),
        },
        InvokeOutcome::Cancelled(reason) => (JobState::Cancelled, JobTerminal::Cancelled(reason)),
        InvokeOutcome::LeaseExpired(at) => (JobState::Failed, JobTerminal::LeaseExpired(at)),
    }
}

/// The text of the `job.failed` sent when a lease expired at `at`.
pub open spec fn lease_expired_message(at: UtcTime) -> Seq<char> {
    "lease expired at "@ + match utc_display_of(at.secs, at.nanos) {
        Some(text) => text,
        None => int_text(at.secs as int) + "s"@,
    } + "; renewal is NOT supported — resubmit with a fresh lease"@
}

/// The event that ends a job: `job.completed` with the completion;
/// `job.failed` with an error's code, retryability and text, or with
/// `LEASE_EXPIRED`, not retryable, for an expired lease; `job.cancelled`
/// with the reason.
pub fn terminal_payload(t: JobTerminal) -> (m: MessageType)
    ensures
        match t {
            JobTerminal::Completed(c) => m == MessageType::JobCompleted(c),
            JobTerminal::Failed(e) => m matches MessageType::JobFailed(p) && p.code == error_code(e)
                && p.retryable == Some(code_retryable(error_code(e))) && p.message@ == error_message_text(e)
                && p.details is None,
            JobTerminal::LeaseExpired(at) => m matches MessageType::JobFailed(p) && p.code
                == ErrorCode::LeaseExpired && p.retryable == Some(false) && p.message@
                == lease_expired_message(at) && p.details is None,
            JobTerminal::Cancelled(reason) => m == MessageType::JobCancelled(
                JobCancelledPayload { reason: Some(reason) },
            ),
        },
{
    match t {
        JobTerminal::Completed(c) => MessageType::JobCompleted(c),
        JobTerminal::Failed(e) => MessageType::JobFailed(
            JobFailedPayload {
                code: e.code(),
                retryable: Some(e.retryable()),
                message: e.message(),
                details: None,
            },
        ),
        JobTerminal::LeaseExpired(at) => {
            let mut message = "lease expired at ".to_owned();
            match utc_display(at) {
                Some(text) => message.append(text.as_str()),
                None => {
                    message.append(i64_decimal(at.secs).as_str());
                    message.append("s");
                },
            }
            message.append("; renewal is NOT supported — resubmit with a fresh lease");
            MessageType::JobFailed(
                JobFailedPayload { code: ErrorCode::LeaseExpired, retryable: Some(false), message, details: None },
            )
        },
        JobTerminal::Cancelled(reason) => MessageType::JobCancelled(JobCancelledPayload { reason: Some(reason) }),
    }
}

// ---------------------------------------------------------------------
// Cancellation
// ---------------------------------------------------------------------

/// How a `cancel` of a job is decided before anything is cancelled.
#[derive(Debug, Clone, Copy, PartialEq, Eq, Structural)]
pub enum CancelDecision {
    /// The target id is not a job id.
    MalformedId,
    /// No such job is registered.
    NoSuchJob,
    /// The requester is not the session that submitted the job.
    NotAuthorized,
    /// The job may be cancelled.
    Authorized,
}

/// Decide a job `cancel`: only the session that submitted the job holds
/// cancel authority; any other session (a subscriber, even one of the same
/// principal) is refused.
pub fn decide_cancel(target_parses: bool, owner_session: Option<&SessionId>, requester_session: &SessionId) -> (d:
    CancelDecision)
    ensures
        !target_parses ==> d == CancelDecision::MalformedId,
        target_parses && owner_session is None ==> d == CancelDecision::NoSuchJob,
        target_parses ==> (owner_session matches Some(o) ==> d == if o@ == requester_session@ {
            CancelDecision::Authorized
        } else {
            CancelDecision::NotAuthorized
        }),
{
    if !target_parses {
        return CancelDecision::MalformedId;
    }
    match owner_session {
        None => CancelDecision::NoSuchJob,
        Some(o) => if str_eq(o.as_str(), requester_session.as_str()) {
            CancelDecision::Authorized
        } else {
            CancelDecision::NotAuthorized
        },
    }
}

/// Why a `cancel` of a job is refused.
pub open spec fn cancel_refusal_reason(decision: CancelDecision) -> Seq<char> {
    match decision {
        CancelDecision::Authorized => "job is no longer in-flight"@,
        CancelDecision::NotAuthorized => "permission denied: not authorized to cancel this job"@,
        CancelDecision::NoSuchJob => "no such in-flight job"@,
        CancelDecision::MalformedId => "malformed job id"@,
    }
}

/// The answer to a job `cancel`: `cancel.accepted` when the job was
/// authorised and still in flight, else `cancel.refused` with the reason.
pub fn cancel_reply(decision: CancelDecision, cancelled: bool, target_id: &str) -> (m: MessageType)
    ensures
        decision == CancelDecision::Authorized && cancelled ==> (m matches MessageType::CancelAccepted(
            p,
        ) && (p.target_id matches Some(t) && t@ == target_id@)),
        !(decision == CancelDecision::Authorized && cancelled) ==> (m matches MessageType::CancelRefused(
            p,
        ) && p.target_id@ == target_id@ && p.reason@ == cancel_refusal_reason(decision)),
{
    match decision {
        CancelDecision::Authorized => if cancelled {
            MessageType::CancelAccepted(CancelAcceptedPayload { target_id: Some(target_id.to_owned()) })
        } else {
            MessageType::CancelRefused(
                CancelRefusedPayload {
                    target_id: target_id.to_owned(),
                    reason: "job is no longer in-flight".to_owned(),
                },
            )
        },
        CancelDecision::NotAuthorized => MessageType::CancelRefused(
            CancelRefusedPayload {
                target_id: target_id.to_owned(),
                reason: "permission denied: not authorized to cancel this job".to_owned(),
            },
        ),
        CancelDecision::NoSuchJob => MessageType::CancelRefused(
            CancelRefusedPayload {
                target_id: target_id.to_owned(),
                reason: "no such in-flight job".to_owned(),
            },
        ),
        CancelDecision::MalformedId => MessageType::CancelRefused(
            CancelRefusedPayload { target_id: target_id.to_owned(), reason: "malformed job id".to_owned() },
        ),
    }
}

// ---------------------------------------------------------------------
// Job subscriptions
// ---------------------------------------------------------------------

/// Server-emitted job events that `job.subscribe` forwards (client
/// commands that carry a `job_id`, such as `cancel`, are not among them).
pub open spec fn forwardable_job_event(m: MessageType) -> bool {
    m is JobAccepted || m is JobStarted || m is JobProgress || m is JobHeartbeat || m is JobCompleted
        || m is JobFailed || m is JobCancelled || m is JobResultChunk || m is ToolResult
        || m is ToolError || m is Log || m is Metric || m is StreamOpen || m is StreamChunk
        || m is StreamClose || m is StreamError || m is ArtifactRef
}

/// True for the job events `job.subscribe` forwards.
pub fn is_forwardable_job_event(payload: &MessageType) -> (r: bool)
    ensures
        r == forwardable_job_event(*payload),
{
    match payload {
        MessageType::JobAccepted(_) | MessageType::JobStarted(_) | MessageType::JobProgress(_)
        | MessageType::JobHeartbeat(_) | MessageType::JobCompleted(_) | MessageType::JobFailed(_)
        | MessageType::JobCancelled(_) | MessageType::JobResultChunk(_) | MessageType::ToolResult(_)
        | MessageType::ToolError(_) | MessageType::Log(_) | MessageType::Metric(_)
        | MessageType::StreamOpen(_) | MessageType::StreamChunk(_) | MessageType::StreamClose(_)
        | MessageType::StreamError(_) | MessageType::ArtifactRef(_) => true,
        _ => false,
    }
}

/// Highest sequence among replayed events, or `from` when none carries
/// one above it.
pub open spec fn high_water(seqs: Seq<Option<u64>>, from: u64) -> u64
    decreases seqs.len(),
{
    if seqs.len() == 0 {
        from
    } else {
        let rest = high_water(seqs.drop_last(), from);
        match seqs.last() {
            Some(s) => if s > rest { s } else { rest },
            None => rest,
        }
    }
}

/// The sequence a job subscription resumes after: the highest replayed
/// sequence (or the floor when nothing carried one).
pub fn replay_high_water(seqs: &Vec<Option<u64>>, from: u64) -> (h: u64)
    ensures
        h == high_water(seqs@, from),
{
    let mut h = from;
    let mut i: usize = 0;
    while i < seqs.len()
        invariant
            i <= seqs.len(),
            h == high_water(seqs@.take(i as int), from),
        decreases seqs.len() - i,
    {
        assert(seqs@.take(i + 1).drop_last() =~= seqs@.take(i as int));
        match seqs[i] {
            Some(s) => if s > h {
                h = s;
            },
            None => {},
        }
        i = i + 1;
    }
    assert(seqs@.take(seqs.len() as int) =~= seqs@);
    h
}

/// The `job.subscribed` answer to a subscription that replayed events with
/// sequences `seqs` after `from`, and the high-water mark live events are
/// filtered against: the subscription resumes after the highest replayed
/// sequence, or after the job's last event when nothing was replayed.
pub fn job_subscribed_ack(snap: &JobSnapshot, seqs: &Vec<Option<u64>>, from: u64) -> (r: (
    JobSubscribedPayload,
    u64,
))
    ensures
        r.1 == high_water(seqs@, from),
        r.0.job_id@ == snap.job_id@,
        r.0.current_status@ == job_state_wire(snap.state)@,
        r.0.agent@ == snap.agent@,
        match (r.0.parent_job_id, snap.parent_job_id) {
            (Some(a), Some(b)) => a@ == b@,
            (None, None) => true,
            _ => false,
        },
        r.0.trace_id is None,
        r.0.replayed == (seqs.len() > 0),
        r.0.subscribed_from == if seqs.len() > 0 { r.1 } else { snap.last_event_seq },
{
    let high = replay_high_water(seqs, from);
    let replayed = seqs.len() > 0;
    let ack = JobSubscribedPayload {
        job_id: snap.job_id.clone(),
        current_status: snap.state.wire_str().to_owned(),
        agent: snap.agent.clone(),
        parent_job_id: match &snap.parent_job_id {
            Some(p) => Some(p.clone()),
            None => None,
        },
        trace_id: None,
        subscribed_from: if replayed { high } else { snap.last_event_seq },
        replayed,
    };
    (ack, high)
}

/// Whether an outbound envelope is also published to subscribers: every
/// one but a `subscribe.event`, which would echo back into the matching
/// subscriptions.
pub fn published_to_subscribers(payload: &MessageType) -> (r: bool)
    ensures
        r == !(*payload is SubscribeEvent),
{
    match payload {
        MessageType::SubscribeEvent(_) => false,
        _ => true,
    }
}

/// Whether a live event reaches a job subscriber: it must be a
/// forwardable job event, and a countable one must come after what the
/// replay already delivered.
pub open spec fn live_forwarded(payload: MessageType, event_seq: Option<u64>, high_water_mark: u64) -> bool {
    forwardable_job_event(payload) && match event_seq {
        Some(s) => s > high_water_mark,
        None => true,
    }
}

/// Whether a live event reaches a job subscriber: it must be a
/// forwardable job event, and a countable one must come after what the
/// replay already delivered.
pub fn forward_live_event(payload: &MessageType, event_seq: Option<u64>, high_water_mark: u64) -> (r: bool)
    ensures
        r == live_forwarded(*payload, event_seq, high_water_mark),
{
    if !is_forwardable_job_event(payload) {
        return false;
    }
    match event_seq {
        Some(s) => s > high_water_mark,
        None => true,
    }
}

/// What `job.subscribe` forwards: every lifecycle event of a job, its
/// terminal event (`job.completed`, `job.failed`, `job.cancelled`) among
/// them, and the tool, stream, log, metric and artifact events it emits;
/// never a client command that carries a `job_id` (`cancel`,
/// `tool.invoke`, `interrupt`, subscriptions, artifact requests) nor a
/// session or connection message. A live terminal event reaches the
/// subscriber unless the replay already delivered its sequence number.
pub proof fn lemma_job_subscribe_forwards(m: MessageType, event_seq: Option<u64>, high_water_mark: u64)
    ensures
        (m is JobCompleted || m is JobFailed || m is JobCancelled) ==> forwardable_job_event(m),
        (m is JobAccepted || m is JobStarted || m is JobProgress || m is JobHeartbeat || m is JobResultChunk)
            ==> forwardable_job_event(m),
        (m is ToolResult || m is ToolError || m is Log || m is Metric || m is ArtifactRef)
            ==> forwardable_job_event(m),
        (m is StreamOpen || m is StreamChunk || m is StreamClose || m is StreamError)
            ==> forwardable_job_event(m),
        (m is Cancel || m is ToolInvoke || m is Interrupt || m is Resume || m is JobSubscribe
            || m is JobUnsubscribe || m is Subscribe || m is Unsubscribe || m is ArtifactPut
            || m is ArtifactFetch || m is PermissionRequest || m is LeaseRefresh) ==> !forwardable_job_event(m),
        (m is SessionOpen || m is SessionClose || m is SessionClosed || m is SessionAck || m is Ping
            || m is Pong || m is Ack || m is Nack || m is SubscribeEvent || m is JobSubscribed)
            ==> !forwardable_job_event(m),
        (m is JobCompleted || m is JobFailed || m is JobCancelled) ==> (live_forwarded(
            m,
            event_seq,
            high_water_mark,
        ) <==> !(event_seq matches Some(s) && s <= high_water_mark)),
        !forwardable_job_event(m) ==> !live_forwarded(m, event_seq, high_water_mark),
{
}

/// The high-water mark of a replay is at least its floor and at least
/// every sequence the replay carried.
proof fn lemma_high_water_bounds(seqs: Seq<Option<u64>>, from: u64)
    ensures
        high_water(seqs, from) >= from,
        forall|k: int| 0 <= k < seqs.len() ==> (#[trigger] seqs[k] matches Some(s) ==> s <= high_water(seqs, from)),
    decreases seqs.len(),
{
    if seqs.len() > 0 {
        let init = seqs.drop_last();
        lemma_high_water_bounds(init, from);
        assert forall|k: int| 0 <= k < seqs.len() implies (#[trigger] seqs[k] matches Some(s) ==> s
            <= high_water(seqs, from)) by {
            if k < seqs.len() - 1 {
                assert(seqs[k] == init[k]);
            }
        }
    }
}

/// No event is delivered twice across replay and live tail: once a replay
/// has delivered events with sequences `seqs` (after `from`), a live copy
/// of any of them, or of anything at or below `from`, is not forwarded.
pub proof fn lemma_no_double_delivery(payload: MessageType, seqs: Seq<Option<u64>>, from: u64, seq: u64)
    requires
        seq <= from || seqs.contains(Some(seq)),
    ensures
        !live_forwarded(payload, Some(seq), high_water(seqs, from)),
{
    lemma_high_water_bounds(seqs, from);
    if seqs.contains(Some(seq)) {
        let k = choose|k: int| 0 <= k < seqs.len() && seqs[k] == Some(seq);
        assert(seqs[k] matches Some(s) ==> s <= high_water(seqs, from));
    }
}

/// Strip credentials from an outbound copy published to subscribers: a
/// `job.accepted` loses its credentials; everything else is unchanged.
pub fn redact_for_subscribers(env: Envelope) -> (out: Envelope)
    ensures
        out.id == env.id,
        out.session_id == env.session_id,
        out.trace_id == env.trace_id,
        out.job_id == env.job_id,
        out.stream_id == env.stream_id,
        out.subscription_id == env.subscription_id,
        out.correlation_id == env.correlation_id,
        out.idempotency_key == env.idempotency_key,
        out.event_seq == env.event_seq,
        out.priority == env.priority,
        match env.payload {
            MessageType::JobAccepted(p) => out.payload matches MessageType::JobAccepted(q) && q.job_id
                == p.job_id && q.credentials@.len() == 0 && q.lease == p.lease,
            other => out.payload == other,
        },
{
    let Envelope {
        id,
        session_id,
        trace_id,
        job_id,
        stream_id,
        subscription_id,
        correlation_id,
        idempotency_key,
        event_seq,
        priority,
        payload,
    } = env;
    let payload = match payload {
        MessageType::JobAccepted(p) => MessageType::JobAccepted(
            JobAcceptedPayload { job_id: p.job_id, credentials: Vec::new(), lease: p.lease },
        ),
        other => other,
    };
    Envelope {
        id,
        session_id,
        trace_id,
        job_id,
        stream_id,
        subscription_id,
        correlation_id,
        idempotency_key,
        event_seq,
        priority,
        payload,
    }
}

} // verus!
