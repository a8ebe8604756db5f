//! Session handshake decisions: capability negotiation, the outcome of
//! `session.open` and of a challenge response, and resume tokens.

use vstd::prelude::*;

use crate::auth::AuthOutcome;
use crate::error::ErrorCode;
use crate::ids::{minted_form, MessageId, SessionId};
use crate::messages::{
    capability_flag, entry_view, AgentInventory, AgentInventoryEntry, Capabilities, CapabilityName,
};
use crate::table::{lemma_table_entry, lemma_table_push, lemma_table_remove, table_view, table_wf};
use crate::text::str_eq;

verus! {

broadcast use vstd::string::group_string_axioms;

/// Where a session stands in the handshake.
#[derive(Debug, Clone, Copy, PartialEq, Eq, Hash, Structural)]
pub enum HandshakePhase {
    /// `session.open` received, not yet decided.
    Pending,
    /// A challenge was sent; waiting for `session.authenticate`.
    Challenged,
    /// `session.accepted` was sent.
    Accepted,
    /// The handshake was refused.
    Closed,
}

/// Per-connection session bookkeeping.
#[derive(Debug, Clone)]
pub struct SessionState {
    /// The session id minted at `session.open`.
    pub session_id: SessionId,
    /// Authenticated principal, once accepted.
    pub principal: Option<String>,
    /// Negotiated capabilities.
    pub capabilities: Capabilities,
    /// Handshake phase.
    pub phase: HandshakePhase,
    /// Challenge awaiting a response.
    pub active_challenge: Option<String>,
}

impl SessionState {
    /// A session that has not finished its handshake.
    pub fn new(session_id: SessionId, capabilities: Capabilities) -> (s: Self)
        ensures
            s.session_id == session_id,
            s.capabilities == capabilities,
            s.principal is None,
            s.phase == HandshakePhase::Pending,
            s.active_challenge is None,
    {
        SessionState {
            session_id,
            principal: None,
            capabilities,
            phase: HandshakePhase::Pending,
            active_challenge: None,
        }
    }

    /// True once `session.accepted` was sent.
    pub fn is_accepted(&self) -> (r: bool)
        ensures
            r == (self.phase == HandshakePhase::Accepted),
    {
        match self.phase {
            HandshakePhase::Accepted => true,
            _ => false,
        }
    }
}

/// Intersection of two advertised boolean capabilities: absent only when
/// neither side advertised it; otherwise set exactly when both set it.
pub open spec fn intersect_spec(a: Option<bool>, b: Option<bool>) -> Option<bool> {
    if a is None && b is None {
        None
    } else {
        Some(a == Some(true) && b == Some(true))
    }
}

/// Intersect two boolean capability slots (see [`intersect_spec`]).
pub fn intersect_bool(a: Option<bool>, b: Option<bool>) -> (r: Option<bool>)
    ensures
        r == intersect_spec(a, b),
{
    match (a, b) {
        (Some(true), Some(true)) => Some(true),
        (Some(_), _) | (_, Some(_)) => Some(false),
        (None, None) => None,
    }
}

/// Whether `s` is among `list`.
pub open spec fn text_listed(list: Seq<String>, s: Seq<char>) -> bool {
    exists|i: int| 0 <= i < list.len() && #[trigger] list[i]@ == s
}

/// The runtime's extensions that the client also advertised, in the
/// runtime's order.
pub open spec fn shared_extensions(runtime: Seq<String>, client: Seq<String>) -> Seq<Seq<char>> {
    runtime.map_values(|e: String| e@).filter(|e: Seq<char>| text_listed(client, e))
}

fn strings_contain(v: &Vec<String>, s: &String) -> (r: bool)
    ensures
        r == text_listed(v@, s@),
{
    let mut i: usize = 0;
    while i < v.len()
        invariant
            i <= v.len(),
            forall|k: int| 0 <= k < i ==> v@[k]@ != s@,
        decreases v.len() - i,
    {
        if str_eq(v[i].as_str(), s.as_str()) {
            return true;
        }
        i = i + 1;
    }
    false
}

fn clone_strings(v: &Vec<String>) -> (r: Vec<String>)
    ensures
        r@.map_values(|t: String| t@) == v@.map_values(|t: String| t@),
{
    let mut out: Vec<String> = Vec::new();
    let mut i: usize = 0;
    while i < v.len()
        invariant
            i <= v.len(),
            out.len() == i,
            forall|k: int| 0 <= k < i ==> #[trigger] out@[k]@ == v@[k]@,
        decreases v.len() - i,
    {
        out.push(v[i].clone());
        i = i + 1;
    }
    assert(out@.map_values(|t: String| t@) =~= v@.map_values(|t: String| t@));
    out
}

fn opt_string_clone(s: &Option<String>) -> (r: Option<String>)
    ensures
        match (r, *s) {
            (Some(a), Some(b)) => a@ == b@,
            (None, None) => true,
            _ => false,
        },
{
    match s {
        Some(x) => Some(x.clone()),
        None => None,
    }
}

/// Capabilities of a session: every boolean slot intersected, the
/// runtime's extensions that the client also advertised, and the
/// runtime's own settings (heartbeat policy, encodings, retention, agent
/// inventory) passed through. Unknown fields are not carried over.
pub fn negotiate_capabilities(runtime: &Capabilities, client: &Capabilities) -> (c: Capabilities)
    ensures
        forall|name: CapabilityName|
            #[trigger] capability_flag(c, name) == intersect_spec(
                capability_flag(*runtime, name),
                capability_flag(*client, name),
            ),
        c.extensions@.map_values(|e: String| e@) == shared_extensions(
            runtime.extensions@,
            client.extensions@,
        ),
        c.binary_encoding@.map_values(|e: String| e@) == runtime.binary_encoding@.map_values(
            |e: String| e@,
        ),
        c.artifact_retention == runtime.artifact_retention,
        c.extra@ == Map::<String, serde_json::Value>::empty(),
        inventory_same(c.agents, runtime.agents),
        match (c.heartbeat_recovery, runtime.heartbeat_recovery) {
            (Some(a), Some(b)) => a@ == b@,
            (None, None) => true,
            _ => false,
        },
{
    let mut extensions: Vec<String> = Vec::new();
    let ghost pred = |e: Seq<char>| text_listed(client.extensions@, e);
    let ghost src = runtime.extensions@.map_values(|e: String| e@);
    let mut i: usize = 0;
    assert(src.take(0).filter(pred) =~= Seq::<Seq<char>>::empty()) by {
        reveal(Seq::filter);
    }
    while i < runtime.extensions.len()
        invariant
            i <= runtime.extensions.len(),
            src == runtime.extensions@.map_values(|e: String| e@),
            pred == (|e: Seq<char>| text_listed(client.extensions@, e)),
            extensions@.map_values(|e: String| e@) == src.take(i as int).filter(pred),
        decreases runtime.extensions.len() - i,
    {
        assert(src.take(i + 1) =~= src.take(i as int).push(src[i as int]));
        proof {
            src.take(i as int).lemma_filter_push(src[i as int], pred);
        }
        if strings_contain(&client.extensions, &runtime.extensions[i]) {
            let ghost before = extensions@;
            extensions.push(runtime.extensions[i].clone());
            assert(extensions@.map_values(|e: String| e@) =~= before.map_values(|e: String| e@).push(
                src[i as int],
            ));
        }
        i = i + 1;
    }
    assert(src.take(runtime.extensions.len() as int) =~= src);
    let c = Capabilities {
        streaming: intersect_bool(runtime.streaming, client.streaming),
        durable_jobs: intersect_bool(runtime.durable_jobs, client.durable_jobs),
        checkpoints: intersect_bool(runtime.checkpoints, client.checkpoints),
        binary_streams: intersect_bool(runtime.binary_streams, client.binary_streams),
        agent_handoff: intersect_bool(runtime.agent_handoff, client.agent_handoff),
        model_use: intersect_bool(runtime.model_use, client.model_use),
        provisioned_credentials: intersect_bool(
            runtime.provisioned_credentials,
            client.provisioned_credentials,
        ),
        artifacts: intersect_bool(runtime.artifacts, client.artifacts),
        subscriptions: intersect_bool(runtime.subscriptions, client.subscriptions),
        scheduled_jobs: intersect_bool(runtime.scheduled_jobs, client.scheduled_jobs),
        interrupt: intersect_bool(runtime.interrupt, client.interrupt),
        anonymous: intersect_bool(runtime.anonymous, client.anonymous),
        heartbeat_recovery: opt_string_clone(&runtime.heartbeat_recovery),
        binary_encoding: clone_strings(&runtime.binary_encoding),
        extensions,
        artifact_retention: runtime.artifact_retention,
        agents: clone_inventory(&runtime.agents),
        extra: std::collections::BTreeMap::new(),
    };
    assert forall|name: CapabilityName| #[trigger] capability_flag(c, name) == intersect_spec(
        capability_flag(*runtime, name),
        capability_flag(*client, name),
    ) by {
        match name {
            _ => {},
        }
    }
    c
}

/// Two optional inventories list the same agents in the same shape.
pub open spec fn inventory_same(a: Option<AgentInventory>, b: Option<AgentInventory>) -> bool {
    match (a, b) {
        (None, None) => true,
        (Some(AgentInventory::Flat(x)), Some(AgentInventory::Flat(y))) => x@.map_values(
            |n: String| n@,
        ) == y@.map_values(|n: String| n@),
        (Some(AgentInventory::Rich(x)), Some(AgentInventory::Rich(y))) => x@.map_values(
            |e: AgentInventoryEntry| entry_view(e),
        ) == y@.map_values(|e: AgentInventoryEntry| entry_view(e)),
        _ => false,
    }
}

fn clone_inventory(a: &Option<AgentInventory>) -> (r: Option<AgentInventory>)
    ensures
        inventory_same(r, *a),
{
    match a {
        None => None,
        Some(AgentInventory::Flat(names)) => Some(AgentInventory::Flat(clone_strings(names))),
        Some(AgentInventory::Rich(entries)) => {
            let mut out: Vec<AgentInventoryEntry> = Vec::new();
            let mut i: usize = 0;
            while i < entries.len()
                invariant
                    i <= entries.len(),
                    out.len() == i,
                    forall|k: int| 0 <= k < i ==> #[trigger] entry_view(out@[k]) == entry_view(entries@[k]),
                decreases entries.len() - i,
            {
                let e = &entries[i];
                let copy = AgentInventoryEntry {
                    name: e.name.clone(),
                    versions: clone_strings(&e.versions),
                    default: opt_string_clone(&e.default),
                };
                out.push(copy);
                i = i + 1;
            }
            assert(out@.map_values(|e: AgentInventoryEntry| entry_view(e)) =~= entries@.map_values(
                |e: AgentInventoryEntry| entry_view(e),
            ));
            Some(AgentInventory::Rich(out))
        },
    }
}

/// A capability is on for a session exactly when both the runtime and the
/// client turned it on.
pub proof fn lemma_negotiated_on_iff_both_on(runtime: Capabilities, client: Capabilities, negotiated: Capabilities, name: CapabilityName)
    requires
        forall|n: CapabilityName|
            #[trigger] capability_flag(negotiated, n) == intersect_spec(
                capability_flag(runtime, n),
                capability_flag(client, n),
            ),
    ensures
        (capability_flag(negotiated, name) == Some(true)) <==> (capability_flag(runtime, name)
            == Some(true) && capability_flag(client, name) == Some(true)),
{
    assert(capability_flag(negotiated, name) == intersect_spec(
        capability_flag(runtime, name),
        capability_flag(client, name),
    ));
}

/// Negotiation does not depend on which side is which.
pub proof fn lemma_intersect_commutes(a: Option<bool>, b: Option<bool>)
    ensures
        intersect_spec(a, b) == intersect_spec(b, a),
{
}

// ---------------------------------------------------------------------
// Handshake outcomes
// ---------------------------------------------------------------------

/// What the runtime answers to `session.open` or `session.authenticate`.
#[derive(Debug, Clone, PartialEq, Eq)]
pub enum HandshakeReply {
    /// Send `session.accepted`.
    Accepted,
    /// Send `session.challenge` with this challenge.
    Challenge(String),
    /// Send `session.rejected` with this code.
    Rejected(ErrorCode),
    /// Send `session.unauthenticated`.
    Unauthenticated,
    /// Send nothing.
    Ignored,
}

/// The session after `session.open`, given what the authenticator of the
/// requested scheme said (`None`: no authenticator for that scheme).
///
/// Accept: accepted as the principal. Challenge: waiting for the response.
/// Reject, or an unconfigured scheme: refused with `UNAUTHENTICATED`.
pub fn open_session(session_id: SessionId, negotiated: Capabilities, outcome: Option<AuthOutcome>) -> (r: (
    SessionState,
    HandshakeReply,
))
    ensures
        r.0.session_id == session_id,
        r.0.capabilities == negotiated,
        match outcome {
            Some(AuthOutcome::Accept { principal }) => {
                &&& r.0.phase == HandshakePhase::Accepted
                &&& r.0.principal == Some(principal)
                &&& r.0.active_challenge is None
                &&& r.1 == HandshakeReply::Accepted
            },
            Some(AuthOutcome::Challenge { challenge }) => {
                &&& r.0.phase == HandshakePhase::Challenged
                &&& r.0.principal is None
                &&& r.0.active_challenge == Some(challenge)
                &&& r.1 matches HandshakeReply::Challenge(c) && c@ == challenge@
            },
            _ => {
                &&& r.0.phase == HandshakePhase::Closed
                &&& r.0.principal is None
                &&& r.1 == HandshakeReply::Rejected(ErrorCode::Unauthenticated)
            },
        },
{
    let mut state = SessionState::new(session_id, negotiated);
    match outcome {
        Some(AuthOutcome::Accept { principal }) => {
            state.principal = Some(principal);
            state.phase = HandshakePhase::Accepted;
            (state, HandshakeReply::Accepted)
        },
        Some(AuthOutcome::Challenge { challenge }) => {
            let reply = HandshakeReply::Challenge(challenge.clone());
            state.active_challenge = Some(challenge);
            state.phase = HandshakePhase::Challenged;
            (state, reply)
        },
        _ => {
            state.phase = HandshakePhase::Closed;
            (state, HandshakeReply::Rejected(ErrorCode::Unauthenticated))
        },
    }
}

/// The first principal accepted among challenge-response outcomes (taken
/// in scheme order: `bearer`, then `signed_jwt`).
pub open spec fn first_accepted(outcomes: Seq<AuthOutcome>) -> Option<String>
    decreases outcomes.len(),
{
    if outcomes.len() == 0 {
        None
    } else {
        match outcomes[0] {
            AuthOutcome::Accept { principal } => Some(principal),
            _ => first_accepted(outcomes.drop_first()),
        }
    }
}

/// Apply the outcomes of verifying a `session.authenticate` response.
///
/// Without an outstanding challenge the message is ignored. Otherwise the
/// first accepting outcome accepts the session as its principal (and
/// clears the challenge); when none accepts, the client is told it is
/// unauthenticated and the session stays as it was.
pub fn answer_challenge(state: &mut SessionState, outcomes: &Vec<AuthOutcome>) -> (reply: HandshakeReply)
    ensures
        final(state).session_id == old(state).session_id,
        final(state).capabilities == old(state).capabilities,
        old(state).active_challenge is None ==> (reply == HandshakeReply::Ignored && *final(state)
            == *old(state)),
        old(state).active_challenge is Some ==> match first_accepted(outcomes@) {
            Some(p) => {
                &&& reply == HandshakeReply::Accepted
                &&& final(state).principal == Some(p)
                &&& final(state).phase == HandshakePhase::Accepted
                &&& final(state).active_challenge is None
            },
            None => reply == HandshakeReply::Unauthenticated && *final(state) == *old(state),
        },
{
    if state.active_challenge.is_none() {
        return HandshakeReply::Ignored;
    }
    let mut i: usize = 0;
    assert(outcomes@.skip(0) =~= outcomes@);
    while i < outcomes.len()
        invariant
            i <= outcomes.len(),
            *state == *old(state),
            old(state).active_challenge is Some,
            first_accepted(outcomes@) == first_accepted(outcomes@.skip(i as int)),
        decreases outcomes.len() - i,
    {
        assert(outcomes@.skip(i as int).drop_first() =~= outcomes@.skip(i + 1));
        match &outcomes[i] {
            AuthOutcome::Accept { principal } => {
                state.principal = Some(principal.clone());
                state.phase = HandshakePhase::Accepted;
                state.active_challenge = None;
                return HandshakeReply::Accepted;
            },
            _ => {},
        }
        i = i + 1;
    }
    assert(outcomes@.skip(outcomes.len() as int) =~= Seq::<AuthOutcome>::empty());
    HandshakeReply::Unauthenticated
}

// ---------------------------------------------------------------------
// Resume tokens
// ---------------------------------------------------------------------

/// What a resume token reattaches to.
#[derive(Debug, Clone)]
pub struct ResumeEntry {
    /// The session to resume.
    pub session_id: SessionId,
    /// Its authenticated principal.
    pub principal: Option<String>,
    /// Its negotiated capabilities.
    pub capabilities: Capabilities,
}

/// The most recently issued resume token of each session, each mapped to
/// what it resumes. A token is rotated on every welcome and resume, so a
/// stale token no longer resolves.
#[derive(Debug, Clone)]
pub struct ResumeRegistry {
    entries: Vec<(String, ResumeEntry)>,
}

/// Two capability sets that say the same: every field's value (texts by
/// their views).
pub open spec fn caps_same(a: Capabilities, b: Capabilities) -> bool {
    &&& a.streaming == b.streaming
    &&& a.durable_jobs == b.durable_jobs
    &&& a.checkpoints == b.checkpoints
    &&& a.binary_streams == b.binary_streams
    &&& a.agent_handoff == b.agent_handoff
    &&& a.model_use == b.model_use
    &&& a.provisioned_credentials == b.provisioned_credentials
    &&& a.artifacts == b.artifacts
    &&& a.subscriptions == b.subscriptions
    &&& a.scheduled_jobs == b.scheduled_jobs
    &&& a.interrupt == b.interrupt
    &&& a.anonymous == b.anonymous
    &&& match (a.heartbeat_recovery, b.heartbeat_recovery) {
        (Some(x), Some(y)) => x@ == y@,
        (None, None) => true,
        _ => false,
    }
    &&& a.binary_encoding@.map_values(|e: String| e@) == b.binary_encoding@.map_values(|e: String| e@)
    &&& a.extensions@.map_values(|e: String| e@) == b.extensions@.map_values(|e: String| e@)
    &&& a.artifact_retention == b.artifact_retention
    &&& inventory_same(a.agents, b.agents)
    &&& a.extra@ == b.extra@
}

/// A copy of a capability set.
fn clone_capabilities(c: &Capabilities) -> (r: Capabilities)
    ensures
        caps_same(r, *c),
{
    Capabilities {
        streaming: c.streaming,
        durable_jobs: c.durable_jobs,
        checkpoints: c.checkpoints,
        binary_streams: c.binary_streams,
        agent_handoff: c.agent_handoff,
        model_use: c.model_use,
        provisioned_credentials: c.provisioned_credentials,
        artifacts: c.artifacts,
        subscriptions: c.subscriptions,
        scheduled_jobs: c.scheduled_jobs,
        interrupt: c.interrupt,
        anonymous: c.anonymous,
        heartbeat_recovery: opt_string_clone(&c.heartbeat_recovery),
        binary_encoding: clone_strings(&c.binary_encoding),
        extensions: clone_strings(&c.extensions),
        artifact_retention: c.artifact_retention,
        agents: clone_inventory(&c.agents),
        extra: c.extra.clone(),
    }
}

/// What a resume token stands for: the session, its principal and its
/// negotiated capabilities.
pub type ResumeView = (Seq<char>, Option<Seq<char>>, Capabilities);

/// View of a resume entry: session id and principal.
pub open spec fn resume_entry_view(e: ResumeEntry) -> ResumeView {
    (
        e.session_id@,
        match e.principal {
            Some(p) => Some(p@),
            None => None,
        },
        e.capabilities,
    )
}

impl ResumeRegistry {
    spec fn rows(&self) -> Seq<(Seq<char>, ResumeView)> {
        self.entries@.map_values(|r: (String, ResumeEntry)| (r.0@, resume_entry_view(r.1)))
    }

    /// Token to (session id, principal).
    pub closed spec fn view(&self) -> Map<Seq<char>, ResumeView> {
        table_view(self.rows())
    }

    /// Invariant: one entry per token.
    pub closed spec fn wf(&self) -> bool {
        table_wf(self.rows())
    }

    /// An empty registry.
    pub fn new() -> (r: Self)
        ensures
            r.wf(),
            r.view() == Map::<Seq<char>, ResumeView>::empty(),
    {
        let r = ResumeRegistry { entries: Vec::new() };
        assert(r.view() =~= Map::<Seq<char>, ResumeView>::empty());
        r
    }

    fn find(&self, token: &str) -> (r: Option<usize>)
        requires
            self.wf(),
        ensures
            match r {
                Some(i) => i < self.rows().len() && self.rows()[i as int].0 == token@,
                None => !self.view().contains_key(token@),
            },
    {
        let mut i: usize = 0;
        while i < self.entries.len()
            invariant
                i <= self.entries.len(),
                forall|k: int| 0 <= k < i ==> self.rows()[k].0 != token@,
            decreases self.entries.len() - i,
        {
            if str_eq(self.entries[i].0.as_str(), token) {
                return Some(i);
            }
            i = i + 1;
        }
        proof {
            if self.view().contains_key(token@) {
                let k = choose|k: int| 0 <= k < self.rows().len() && #[trigger] self.rows()[k].0 == token@;
                assert(self.rows()[k].0 != token@);
            }
        }
        None
    }

    /// What `token` resumes, if it is current.
    pub fn lookup(&self, token: &str) -> (r: Option<&ResumeEntry>)
        requires
            self.wf(),
        ensures
            match r {
                Some(e) => self.view().contains_key(token@) && self.view()[token@] == resume_entry_view(*e),
                None => !self.view().contains_key(token@),
            },
    {
        match self.find(token) {
            Some(i) => {
                proof {
                    lemma_table_entry(self.rows(), i as int);
                }
                Some(&self.entries[i].1)
            },
            None => None,
        }
    }

    /// Forget `token`.
    pub fn remove(&mut self, token: &str)
        requires
            old(self).wf(),
        ensures
            final(self).wf(),
            final(self).view() == old(self).view().remove(token@),
    {
        match self.find(token) {
            Some(i) => {
                let ghost before = self.rows();
                let _ = self.entries.remove(i);
                assert(self.rows() =~= before.remove(i as int));
                proof {
                    lemma_table_remove(before, i as int);
                }
            },
            None => {
                assert(self.view().remove(token@) =~= self.view());
            },
        }
    }

    /// Register `entry` under `token` (replacing what it held).
    fn put_token(&mut self, token: String, entry: ResumeEntry)
        requires
            old(self).wf(),
        ensures
            final(self).wf(),
            final(self).view() == old(self).view().insert(token@, resume_entry_view(entry)),
    {
        self.remove(token.as_str());
        let ghost before = self.rows();
        let ghost key = token@;
        self.entries.push((token, entry));
        assert(self.rows() =~= before.push((key, resume_entry_view(entry))));
        proof {
            lemma_table_push(before, key, resume_entry_view(entry));
            assert(table_view(before).insert(key, resume_entry_view(entry)) =~= old(self).view().remove(
                key,
            ).insert(key, resume_entry_view(entry)));
        }
    }

    /// Mint a fresh token (`rt_` followed by a fresh message id) for
    /// `entry` and register it.
    pub fn register(&mut self, entry: ResumeEntry) -> (token: String)
        requires
            old(self).wf(),
        ensures
            final(self).wf(),
            final(self).view() == old(self).view().insert(token@, resume_entry_view(entry)),
            token@.len() > 3,
            token@.take(3) == "rt_"@,
            minted_form(MessageId::spec_prefix(), token@.skip(3)),
    {
        let token = mint_resume_token();
        self.put_token(token.clone(), entry);
        token
    }

    /// Resume with `token` after event `last_event_seq`, when the session's
    /// buffer holds events up to `max_seq`.
    ///
    /// An unknown (or rotated) token, or a sequence beyond what was ever
    /// emitted, is refused with `RESUME_WINDOW_EXPIRED` and changes
    /// nothing. Otherwise the token is rotated: the presented one stops
    /// resolving, a fresh one resolves to the same session, and the
    /// accepted session state is returned with the new token.
    pub fn resume(&mut self, token: &str, last_event_seq: u64, max_seq: u64) -> (r: Result<
        (SessionState, String),
        ErrorCode,
    >)
        requires
            old(self).wf(),
        ensures
            final(self).wf(),
            !old(self).view().contains_key(token@) ==> r == Err::<(SessionState, String), ErrorCode>(
                ErrorCode::ResumeWindowExpired,
            ) && final(self).view() == old(self).view(),
            old(self).view().contains_key(token@) && last_event_seq > max_seq ==> r == Err::<
                (SessionState, String),
                ErrorCode,
            >(ErrorCode::ResumeWindowExpired) && final(self).view() == old(self).view(),
            old(self).view().contains_key(token@) && last_event_seq <= max_seq ==> (r matches Ok(
                (state, fresh),
            ) && {
                let e = old(self).view()[token@];
                let n = final(self).view()[fresh@];
                &&& resume_token_form(fresh@)
                &&& fresh@ != token@
                &&& !final(self).view().contains_key(token@)
                &&& final(self).view() == old(self).view().remove(token@).insert(fresh@, n)
                &&& n.0 == e.0 && n.1 == e.1 && caps_same(n.2, e.2)
                &&& state.session_id@ == e.0
                &&& state.phase == HandshakePhase::Accepted
                &&& state.active_challenge is None
                &&& match state.principal {
                    Some(p) => e.1 == Some(p@),
                    None => e.1 is None,
                }
                &&& caps_same(state.capabilities, e.2)
            }),
    {
        let entry = match self.lookup(token) {
            Some(e) => ResumeEntry {
                session_id: e.session_id.clone(),
                principal: opt_string_clone(&e.principal),
                capabilities: clone_capabilities(&e.capabilities),
            },
            None => {
                return Err(ErrorCode::ResumeWindowExpired);
            },
        };
        if last_event_seq > max_seq {
            return Err(ErrorCode::ResumeWindowExpired);
        }
        self.remove(token);
        let mut fresh = mint_resume_token();
        let ghost minted = fresh@;
        if str_eq(fresh.as_str(), token) {
            // A fresh token equal to the presented one would keep it
            // resolving; lengthen it so the presented one is retired.
            fresh.append("0");
            proof {
                reveal_strlit("0");
                assert(fresh@ =~= minted.push('0'));
                assert(fresh@.take(3) =~= minted.take(3));
                assert(fresh@.skip(3).drop_last() =~= minted.skip(3));
                assert(fresh@.len() != token@.len());
            }
        }
        assert(resume_token_form(fresh@));
        assert(fresh@ != token@);
        self.put_token(
            fresh.clone(),
            ResumeEntry {
                session_id: entry.session_id.clone(),
                principal: opt_string_clone(&entry.principal),
                capabilities: clone_capabilities(&entry.capabilities),
            },
        );
        let mut state = SessionState::new(entry.session_id, entry.capabilities);
        state.principal = entry.principal;
        state.phase = HandshakePhase::Accepted;
        Ok((state, fresh))
    }
}

/// `rt_` followed by a fresh message id.
fn mint_resume_token() -> (token: String)
    ensures
        token@.len() > 3,
        token@.take(3) == "rt_"@,
        minted_form(MessageId::spec_prefix(), token@.skip(3)),
{
    let mut token = "rt_".to_owned();
    let id = MessageId::new();
    token.append(id.as_str());
    proof {
        reveal_strlit("rt_");
        assert(token@.take(3) =~= "rt_"@);
        assert(token@.skip(3) =~= id@);
    }
    token
}

/// Shape of a rotated resume token: `rt_` and a fresh message id, with a
/// trailing `0` in the one case where that id would repeat the presented
/// token.
pub open spec fn resume_token_form(t: Seq<char>) -> bool {
    &&& t.len() > 3
    &&& t.take(3) == "rt_"@
    &&& (minted_form(MessageId::spec_prefix(), t.skip(3)) || (t.last() == '0' && minted_form(
        MessageId::spec_prefix(),
        t.skip(3).drop_last(),
    )))
}

} // verus!
