//! Execution messages: agent references, job states and job payloads.

use vstd::prelude::*;

use crate::error::ErrorCode;
use crate::ids::JobId;
use crate::messages::artifacts::ArtifactRef;
use crate::messages::credentials::{credential_view, ProvisionedCredential};
use crate::messages::permissions::{CostBudget, LeaseRequest};
use crate::text::{chars_of, debug_quoted, str_debug_of};

verus! {

broadcast use vstd::string::group_string_axioms;

/// Parsed agent identifier.
///
/// Grammar:
///
/// ```text
/// agent   ::= name | name "@" version
/// name    ::= [a-z0-9][a-z0-9._-]*
/// version ::= [a-zA-Z0-9.+_-]+
/// ```
///
/// `version` is `None` for a bare-name reference, which resolves to the
/// runtime's advertised default for that agent.
#[derive(Debug, Clone, PartialEq, Eq, Hash)]
pub struct AgentRef {
    /// Bare agent name (without the `@version` suffix).
    pub name: String,
    /// Optional pinned version. `None` means "resolve to default".
    pub version: Option<String>,
}

/// Mathematical form of an [`AgentRef`].
pub struct AgentRefView {
    pub name: Seq<char>,
    pub version: Option<Seq<char>>,
}

impl View for AgentRef {
    type V = AgentRefView;

    open spec fn view(&self) -> AgentRefView {
        AgentRefView {
            name: self.name@,
            version: match self.version {
                Some(v) => Some(v@),
                None => None,
            },
        }
    }
}

/// Error returned by [`AgentRef::parse`] for inputs outside the grammar.
#[derive(Debug, Clone, PartialEq, Eq)]
pub enum AgentRefParseError {
    /// The bare-name component is empty or does not match
    /// `[a-z0-9][a-z0-9._-]*`.
    InvalidName(String),
    /// The `version` component does not match `[a-zA-Z0-9.+_-]+`.
    InvalidVersion(String),
}

/// Mathematical form of an [`AgentRefParseError`].
pub enum AgentRefParseErrorView {
    InvalidName(Seq<char>),
    InvalidVersion(Seq<char>),
}

impl View for AgentRefParseError {
    type V = AgentRefParseErrorView;

    open spec fn view(&self) -> AgentRefParseErrorView {
        match self {
            AgentRefParseError::InvalidName(s) => AgentRefParseErrorView::InvalidName(s@),
            AgentRefParseError::InvalidVersion(s) => AgentRefParseErrorView::InvalidVersion(s@),
        }
    }
}

/// Text of an [`AgentRefParseError`]: what went wrong, then the offered
/// component as `{:?}` prints it.
pub open spec fn agent_ref_error_text(e: AgentRefParseErrorView) -> Seq<char> {
    match e {
        AgentRefParseErrorView::InvalidName(t) => "invalid agent name "@ + str_debug_of(t),
        AgentRefParseErrorView::InvalidVersion(t) => "invalid agent version "@ + str_debug_of(t),
    }
}

impl AgentRefParseError {
    /// The error's text (see [`agent_ref_error_text`]).
    pub fn message(&self) -> (s: String)
        ensures
            s@ == agent_ref_error_text(self@),
    {
        let (head, t) = match self {
            AgentRefParseError::InvalidName(t) => ("invalid agent name ", t),
            AgentRefParseError::InvalidVersion(t) => ("invalid agent version ", t),
        };
        let q = debug_quoted(t.as_str());
        let mut s = head.to_owned();
        s.append(q.as_str());
        s
    }
}

/// `[a-z0-9]`
pub open spec fn name_head_char(c: char) -> bool {
    ('a' <= c <= 'z') || ('0' <= c <= '9')
}

/// `[a-z0-9._-]`
pub open spec fn name_tail_char(c: char) -> bool {
    ('a' <= c <= 'z') || ('0' <= c <= '9') || c == '.' || c == '_' || c == '-'
}

/// `[a-zA-Z0-9.+_-]`
pub open spec fn version_char(c: char) -> bool {
    ('a' <= c <= 'z') || ('A' <= c <= 'Z') || ('0' <= c <= '9') || c == '.' || c == '+' || c
        == '_' || c == '-'
}

/// `name ::= [a-z0-9][a-z0-9._-]*`
pub open spec fn valid_agent_name(s: Seq<char>) -> bool {
    &&& s.len() > 0
    &&& name_head_char(s[0])
    &&& forall|i: int| 1 <= i < s.len() ==> name_tail_char(#[trigger] s[i])
}

/// `version ::= [a-zA-Z0-9.+_-]+`
pub open spec fn valid_agent_version(s: Seq<char>) -> bool {
    &&& s.len() > 0
    &&& forall|i: int| 0 <= i < s.len() ==> version_char(#[trigger] s[i])
}

/// `k` is the position of the first `@` in `s`.
pub open spec fn is_first_at(s: Seq<char>, k: int) -> bool {
    &&& 0 <= k < s.len()
    &&& s[k] == '@'
    &&& forall|j: int| 0 <= j < k ==> s[j] != '@'
}

/// Position of the first `@` in `s`, if any.
pub open spec fn first_at(s: Seq<char>) -> Option<int> {
    if exists|k: int| is_first_at(s, k) {
        Some(choose|k: int| is_first_at(s, k))
    } else {
        None
    }
}

/// What [`AgentRef::parse`] gives for the text `s`: the name is the part
/// before the first `@`, the version the part after it.
pub open spec fn agent_ref_parse_spec(s: Seq<char>) -> Result<AgentRefView, AgentRefParseErrorView> {
    match first_at(s) {
        Some(k) => {
            let name = s.subrange(0, k);
            let version = s.subrange(k + 1, s.len() as int);
            if !valid_agent_name(name) {
                Err(AgentRefParseErrorView::InvalidName(name))
            } else if !valid_agent_version(version) {
                Err(AgentRefParseErrorView::InvalidVersion(version))
            } else {
                Ok(AgentRefView { name, version: Some(version) })
            }
        },
        None => {
            if !valid_agent_name(s) {
                Err(AgentRefParseErrorView::InvalidName(s))
            } else {
                Ok(AgentRefView { name: s, version: None })
            }
        },
    }
}

/// Wire text of an agent reference: `name` or `name@version`.
pub open spec fn agent_ref_format_spec(r: AgentRefView) -> Seq<char> {
    match r.version {
        Some(v) => r.name.push('@') + v,
        None => r.name,
    }
}

/// The reference satisfies the grammar.
pub open spec fn agent_ref_valid(r: AgentRefView) -> bool {
    &&& valid_agent_name(r.name)
    &&& match r.version {
        Some(v) => valid_agent_version(v),
        None => true,
    }
}

proof fn lemma_first_at_unique(s: Seq<char>, k: int)
    requires
        is_first_at(s, k),
    ensures
        first_at(s) == Some(k),
{
    let c = choose|k2: int| is_first_at(s, k2);
    assert(is_first_at(s, c));
    if c < k {
        assert(s[c] != '@');
    }
    if k < c {
        assert(s[k] != '@');
    }
}

fn is_name_head(c: char) -> (r: bool)
    ensures
        r == name_head_char(c),
{
    ('a' <= c && c <= 'z') || ('0' <= c && c <= '9')
}

fn is_name_tail(c: char) -> (r: bool)
    ensures
        r == name_tail_char(c),
{
    ('a' <= c && c <= 'z') || ('0' <= c && c <= '9') || c == '.' || c == '_' || c == '-'
}

fn is_version_char(c: char) -> (r: bool)
    ensures
        r == version_char(c),
{
    ('a' <= c && c <= 'z') || ('A' <= c && c <= 'Z') || ('0' <= c && c <= '9') || c == '.' || c
        == '+' || c == '_' || c == '-'
}

fn validate_name(name: &str) -> (r: Result<(), AgentRefParseError>)
    ensures
        r is Ok <==> valid_agent_name(name@),
        r matches Err(e) ==> e@ == AgentRefParseErrorView::InvalidName(name@),
{
    let chars = chars_of(name);
    if chars.len() == 0 {
        return Err(AgentRefParseError::InvalidName(name.to_owned()));
    }
    if !is_name_head(chars[0]) {
        return Err(AgentRefParseError::InvalidName(name.to_owned()));
    }
    let mut i: usize = 1;
    while i < chars.len()
        invariant
            chars@ == name@,
            1 <= i <= chars.len(),
            forall|j: int| 1 <= j < i ==> name_tail_char(#[trigger] chars@[j]),
        decreases chars.len() - i,
    {
        if !is_name_tail(chars[i]) {
            return Err(AgentRefParseError::InvalidName(name.to_owned()));
        }
        i = i + 1;
    }
    Ok(())
}

fn validate_version(version: &str) -> (r: Result<(), AgentRefParseError>)
    ensures
        r is Ok <==> valid_agent_version(version@),
        r matches Err(e) ==> e@ == AgentRefParseErrorView::InvalidVersion(version@),
{
    let chars = chars_of(version);
    if chars.len() == 0 {
        return Err(AgentRefParseError::InvalidVersion(version.to_owned()));
    }
    let mut i: usize = 0;
    while i < chars.len()
        invariant
            chars@ == version@,
            i <= chars.len(),
            forall|j: int| 0 <= j < i ==> version_char(#[trigger] chars@[j]),
        decreases chars.len() - i,
    {
        if !is_version_char(chars[i]) {
            return Err(AgentRefParseError::InvalidVersion(version.to_owned()));
        }
        i = i + 1;
    }
    Ok(())
}

/// Position of the first `@` in `chars`.
fn find_at(chars: &Vec<char>) -> (r: Option<usize>)
    ensures
        r matches Some(k) ==> is_first_at(chars@, k as int),
        r is None ==> forall|j: int| 0 <= j < chars@.len() ==> chars@[j] != '@',
{
    let mut i: usize = 0;
    while i < chars.len()
        invariant
            i <= chars.len(),
            forall|j: int| 0 <= j < i ==> chars@[j] != '@',
        decreases chars.len() - i,
    {
        if chars[i] == '@' {
            return Some(i);
        }
        i = i + 1;
    }
    None
}

impl AgentRef {
    /// Parse an agent identifier: `name` or `name@version`.
    pub fn parse(input: &str) -> (r: Result<Self, AgentRefParseError>)
        ensures
            match r {
                Ok(a) => agent_ref_parse_spec(input@) == Ok::<
                    AgentRefView,
                    AgentRefParseErrorView,
                >(a@),
                Err(e) => agent_ref_parse_spec(input@) == Err::<AgentRefView, AgentRefParseErrorView>(
                    e@,
                ),
            },
    {
        let chars = chars_of(input);
        let n = chars.len();
        match find_at(&chars) {
            Some(at) => {
                proof {
                    lemma_first_at_unique(input@, at as int);
                }
                let name = input.substring_char(0, at);
                let version = input.substring_char(at + 1, n);
                validate_name(name)?;
                validate_version(version)?;
                Ok(AgentRef { name: name.to_owned(), version: Some(version.to_owned()) })
            },
            None => {
                assert(first_at(input@) is None);
                validate_name(input)?;
                Ok(AgentRef { name: input.to_owned(), version: None })
            },
        }
    }

    /// Format back to the wire `name` or `name@version` string.
    pub fn format(&self) -> (s: String)
        ensures
            s@ == agent_ref_format_spec(self@),
    {
        match &self.version {
            Some(v) => {
                let mut s = self.name.clone();
                s.append("@");
                proof {
                    reveal_strlit("@");
                }
                s.append(v.as_str());
                assert(s@ =~= self.name@.push('@') + v@);
                s
            },
            None => self.name.clone(),
        }
    }
}

/// Parsing the text of a reference gives back a reference whose text is
/// the input: `format(parse(s)) == s`.
pub proof fn lemma_agent_ref_parse_format(s: Seq<char>)
    requires
        agent_ref_parse_spec(s) is Ok,
    ensures
        agent_ref_format_spec(agent_ref_parse_spec(s)->Ok_0) == s,
        agent_ref_valid(agent_ref_parse_spec(s)->Ok_0),
{
    match first_at(s) {
        Some(k) => {
            assert(is_first_at(s, k));
            assert(s.subrange(0, k).push('@') + s.subrange(k + 1, s.len() as int) =~= s);
        },
        None => {},
    }
}

/// Every reference that satisfies the grammar parses back from its text:
/// `parse(format(r)) == r`.
pub proof fn lemma_agent_ref_format_parse(r: AgentRefView)
    requires
        agent_ref_valid(r),
    ensures
        agent_ref_parse_spec(agent_ref_format_spec(r)) == Ok::<
            AgentRefView,
            AgentRefParseErrorView,
        >(r),
{
    let s = agent_ref_format_spec(r);
    match r.version {
        Some(v) => {
            let k = r.name.len() as int;
            assert forall|j: int| 0 <= j < k implies s[j] != '@' by {
                assert(s[j] == r.name[j]);
                if j == 0 {
                    assert(name_head_char(r.name[0]));
                } else {
                    assert(name_tail_char(r.name[j]));
                }
            }
            assert(is_first_at(s, k));
            lemma_first_at_unique(s, k);
            assert(s.subrange(0, k) =~= r.name);
            assert(s.subrange(k + 1, s.len() as int) =~= v);
        },
        None => {
            assert forall|k: int| !is_first_at(s, k) by {
                if 0 <= k < s.len() {
                    if k == 0 {
                        assert(name_head_char(s[0]));
                    } else {
                        assert(name_tail_char(s[k]));
                    }
                }
            }
        },
    }
}

/// Job state.
#[derive(Debug, Clone, Copy, PartialEq, Eq, Hash)]
pub enum JobState {
    /// `accepted` — the runtime accepted the command but has not started work.
    Accepted,
    /// `queued` — work is waiting for capacity.
    Queued,
    /// `running` — work is actively executing.
    Running,
    /// `blocked` — work is waiting on permission or human input.
    Blocked,
    /// `paused` — work was intentionally suspended.
    Paused,
    /// `completed` — work finished successfully.
    Completed,
    /// `failed` — work reached a terminal error.
    Failed,
    /// `cancelled` — work was cancelled.
    Cancelled,
}

/// Terminal job states.
pub open spec fn job_state_terminal(s: JobState) -> bool {
    s is Completed || s is Failed || s is Cancelled
}

impl JobState {
    /// True if this state is a terminal state.
    pub fn is_terminal(self) -> (r: bool)
        ensures
            r == job_state_terminal(self),
    {
        match self {
            JobState::Completed | JobState::Failed | JobState::Cancelled => true,
            _ => false,
        }
    }

    /// Wire-level string (e.g. `"running"`).
    pub fn wire_str(self) -> (s: &'static str)
        ensures
            s == job_state_wire(self),
    {
        match self {
            JobState::Accepted => "accepted",
            JobState::Queued => "queued",
            JobState::Running => "running",
            JobState::Blocked => "blocked",
            JobState::Paused => "paused",
            JobState::Completed => "completed",
            JobState::Failed => "failed",
            JobState::Cancelled => "cancelled",
        }
    }
}

/// Wire-level text of each job state.
pub open spec fn job_state_wire(s: JobState) -> &'static str {
    match s {
        JobState::Accepted => "accepted",
        JobState::Queued => "queued",
        JobState::Running => "running",
        JobState::Blocked => "blocked",
        JobState::Paused => "paused",
        JobState::Completed => "completed",
        JobState::Failed => "failed",
        JobState::Cancelled => "cancelled",
    }
}

/// Payload for `tool.invoke`.
#[derive(Debug, Clone, PartialEq)]
pub struct ToolInvokePayload {
    /// Tool identifier (`name` or `name@version`).
    pub tool: String,
    /// Tool-specific arguments.
    pub arguments: serde_json::Value,
    /// `cost.budget` lease capability for this job.
    pub cost_budget: Option<CostBudget>,
    /// Full lease request; takes precedence over `cost_budget`.
    pub lease_request: Option<LeaseRequest>,
}

impl ToolInvokePayload {
    /// New `tool.invoke` payload with no budget and no lease.
    pub fn new(tool: &str, arguments: serde_json::Value) -> (r: Self)
        ensures
            r.tool@ == tool@,
            r.arguments == arguments,
            r.cost_budget is None,
            r.lease_request is None,
    {
        ToolInvokePayload {
            tool: tool.to_owned(),
            arguments,
            cost_budget: None,
            lease_request: None,
        }
    }
}

/// Payload for `tool.result`.
#[derive(Debug, Clone, PartialEq)]
pub struct ToolResultPayload {
    /// Tool result, inline.
    pub value: Option<serde_json::Value>,
    /// Tool result stored as an artifact.
    pub result_ref: Option<ArtifactRef>,
}

/// Payload for `tool.error`.
#[derive(Debug, Clone, PartialEq)]
pub struct ToolErrorPayload {
    /// Canonical error code.
    pub code: ErrorCode,
    /// Whether a retry may succeed.
    pub retryable: Option<bool>,
    /// Human-readable message.
    pub message: String,
    /// Structured details.
    pub details: Option<serde_json::Value>,
}

/// Payload for `job.accepted`. It has no `Debug`: the credentials carry
/// secrets that must not reach logs.
#[derive(Clone, PartialEq)]
pub struct JobAcceptedPayload {
    /// The job the runtime created.
    pub job_id: JobId,
    /// Credentials provisioned for the job's lease.
    pub credentials: Vec<ProvisionedCredential>,
    /// The lease the job runs under.
    pub lease: Option<LeaseRequest>,
}

impl JobAcceptedPayload {
    /// A copy naming the same job under the same lease.
    pub fn clone_accepted(&self) -> (r: Self)
        ensures
            r.job_id@ == self.job_id@,
            match (r.lease, self.lease) {
                (Some(a), Some(b)) => a@ == b@,
                (None, None) => true,
                _ => false,
            },
            r.credentials@.map_values(|c: ProvisionedCredential| credential_view(c))
                == self.credentials@.map_values(|c: ProvisionedCredential| credential_view(c)),
    {
        let mut credentials: Vec<ProvisionedCredential> = Vec::new();
        let mut i: usize = 0;
        while i < self.credentials.len()
            invariant
                i <= self.credentials.len(),
                credentials.len() == i,
                forall|k: int|
                    0 <= k < i ==> #[trigger] credential_view(credentials@[k]) == credential_view(
                        self.credentials@[k],
                    ),
            decreases self.credentials.len() - i,
        {
            credentials.push(self.credentials[i].clone_credential());
            i = i + 1;
        }
        assert(credentials@.map_values(|c: ProvisionedCredential| credential_view(c))
            =~= self.credentials@.map_values(|c: ProvisionedCredential| credential_view(c)));
        JobAcceptedPayload {
            job_id: self.job_id.clone(),
            credentials,
            lease: match &self.lease {
                Some(l) => Some(l.clone_lease()),
                None => None,
            },
        }
    }
}

/// Payload for `job.started`.
#[derive(Debug, Clone, PartialEq, Eq)]
pub struct JobStartedPayload {
    /// Optional description of the work.
    pub description: Option<String>,
}

/// Payload for `job.progress`: `{ current, total?, units?, message? }`.
///
/// The numbers are IEEE-754 `f64` values carried by their bit patterns
/// (`f64::to_bits`); numeric validation happens where floats are handled.
#[derive(Debug, Clone, PartialEq, Eq)]
pub struct JobProgressPayload {
    /// Bits of the units of work completed so far.
    pub current_bits: u64,
    /// Bits of the total units of work, if known.
    pub total_bits: Option<u64>,
    /// Optional unit label.
    pub units: Option<String>,
    /// Optional human-readable message.
    pub message: Option<String>,
}

impl JobProgressPayload {
    /// Progress of `current` (as bits) against an indeterminate total.
    pub fn new(current_bits: u64) -> (r: Self)
        ensures
            r.current_bits == current_bits,
            r.total_bits is None,
            r.units is None,
            r.message is None,
    {
        JobProgressPayload { current_bits, total_bits: None, units: None, message: None }
    }

    /// Attach a unit label.
    pub fn with_units(self, units: &str) -> (r: Self)
        ensures
            r.current_bits == self.current_bits,
            r.total_bits == self.total_bits,
            r.units matches Some(u) && u@ == units@,
            r.message == self.message,
    {
        JobProgressPayload { units: Some(units.to_owned()), ..self }
    }

    /// Attach a human-readable message.
    pub fn with_message(self, message: &str) -> (r: Self)
        ensures
            r.current_bits == self.current_bits,
            r.total_bits == self.total_bits,
            r.units == self.units,
            r.message matches Some(m) && m@ == message@,
    {
        JobProgressPayload { message: Some(message.to_owned()), ..self }
    }
}

/// Payload for `job.heartbeat`.
#[derive(Debug, Clone, PartialEq, Eq)]
pub struct JobHeartbeatPayload {
    /// Monotonic heartbeat counter.
    pub sequence: u64,
    /// Optional deadline for the next heartbeat.
    pub deadline_ms: Option<u64>,
    /// Current job state.
    pub state: JobState,
}

/// Payload for `job.checkpoint`.
#[derive(Debug, Clone, PartialEq)]
pub struct JobCheckpointPayload {
    /// Checkpoint identifier.
    pub checkpoint_id: String,
    /// Opaque checkpoint data.
    pub data: serde_json::Value,
}

/// Payload for `job.completed`.
#[derive(Debug, Clone, PartialEq)]
pub struct JobCompletedPayload {
    /// Inline result value.
    pub value: Option<serde_json::Value>,
    /// Result stored as an artifact.
    pub result_ref: Option<ArtifactRef>,
    /// Streamed result reference (matches the `job.result_chunk` stream).
    pub result_id: Option<String>,
    /// Total size of the streamed result, if known.
    pub result_size: Option<u64>,
    /// Short summary of the streamed result.
    pub summary: Option<String>,
}

/// Payload for `job.failed`.
#[derive(Debug, Clone, PartialEq)]
pub struct JobFailedPayload {
    /// Canonical error code.
    pub code: ErrorCode,
    /// Whether a retry may succeed.
    pub retryable: Option<bool>,
    /// Human-readable message.
    pub message: String,
    /// Structured details.
    pub details: Option<serde_json::Value>,
}

/// Payload for `job.cancelled`.
#[derive(Debug, Clone, PartialEq, Eq)]
pub struct JobCancelledPayload {
    /// Optional reason.
    pub reason: Option<String>,
}

/// Encoding of a `job.result_chunk` `data` field.
#[derive(Debug, Clone, Copy, PartialEq, Eq, Hash)]
pub enum ResultChunkEncoding {
    /// UTF-8 text.
    Utf8,
    /// Base64-encoded bytes.
    Base64,
}

/// Payload for `job.result_chunk`: one fragment of a streamed result.
#[derive(Debug, Clone, PartialEq, Eq)]
pub struct JobResultChunkPayload {
    /// Stream identifier, repeated on the terminal `job.completed`.
    pub result_id: String,
    /// Position of this chunk (0-based, strictly increasing).
    pub chunk_seq: u64,
    /// Chunk data.
    pub data: String,
    /// Encoding of `data`.
    pub encoding: ResultChunkEncoding,
    /// `false` on the terminal chunk.
    pub more: bool,
}

/// Payload for `job.schedule`.
#[derive(Debug, Clone, PartialEq)]
pub struct JobSchedulePayload {
    /// Job description.
    pub job: serde_json::Value,
    /// Schedule description.
    pub when: serde_json::Value,
}

/// Payload for `agent.delegate`.
#[derive(Debug, Clone, PartialEq)]
pub struct AgentDelegatePayload {
    /// Target agent.
    pub target: String,
    /// Task description.
    pub task: String,
    /// Optional context.
    pub context: Option<serde_json::Value>,
}

/// Payload for `agent.handoff`.
#[derive(Debug, Clone, PartialEq)]
pub struct AgentHandoffPayload {
    /// Target runtime description.
    pub runtime: serde_json::Value,
    /// Optional reason.
    pub reason: Option<String>,
}

/// Payload for `workflow.start`.
#[derive(Debug, Clone, PartialEq)]
pub struct WorkflowStartPayload {
    /// Workflow identifier.
    pub workflow: String,
    /// Optional arguments.
    pub arguments: Option<serde_json::Value>,
}

/// Payload for `workflow.complete`.
#[derive(Debug, Clone, PartialEq)]
pub struct WorkflowCompletePayload {
    /// Optional result value.
    pub value: Option<serde_json::Value>,
}

} // verus!
