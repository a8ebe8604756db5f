//! Wire-level message payload types and the message enum.

use vstd::prelude::*;

use std::collections::BTreeMap;

use crate::messages::artifacts::{ArtifactFetchPayload, ArtifactPutPayload, ArtifactRefPayload, ArtifactReleasePayload};
use crate::messages::control::{AckPayload, BackpressurePayload, CancelAcceptedPayload, CancelPayload, CancelRefusedPayload, InterruptPayload, NackPayload, ResumePayload};
use crate::messages::execution::{AgentRef, AgentRefView, JobAcceptedPayload, JobCancelledPayload, JobCompletedPayload, JobFailedPayload, JobHeartbeatPayload, JobProgressPayload, JobResultChunkPayload, JobStartedPayload, ToolErrorPayload, ToolInvokePayload, ToolResultPayload};
use crate::messages::permissions::{LeaseExtendedPayload, LeaseGrantedPayload, LeaseRefreshPayload, LeaseRevokedPayload, PermissionDenyPayload, PermissionGrantPayload, PermissionRequestPayload};
use crate::messages::session::{SessionAcceptedPayload, SessionAckPayload, SessionAuthenticatePayload, SessionChallengePayload, SessionClosePayload, SessionClosedPayload, SessionEvictedPayload, SessionJobsPayload, SessionListJobsPayload, SessionOpenPayload, SessionPingPayload, SessionPongPayload, SessionRefreshPayload, SessionRejectedPayload, SessionResumePayload, SessionResumedPayload, SessionUnauthenticatedPayload};
use crate::messages::streaming::{StreamChunkPayload, StreamClosePayload, StreamErrorPayload, StreamOpenPayload};
use crate::messages::subscriptions::{JobSubscribePayload, JobSubscribedPayload, JobUnsubscribePayload, SubscribeAcceptedPayload, SubscribeClosedPayload, SubscribeEventPayload, SubscribePayload, UnsubscribePayload};
use crate::messages::telemetry::{TraceSpanPayload};

pub mod artifacts;
pub mod control;
pub mod credentials;
pub mod execution;
pub mod permissions;
pub mod session;
pub mod standard_names;
pub mod streaming;
pub mod subscriptions;
pub mod telemetry;

verus! {

/// Negotiated capability set.
///
/// Absent booleans are read as `false`; the fields are `Option<bool>` so
/// the wire can tell "false" from "not advertised".
#[derive(Debug, Clone, PartialEq)]
pub struct Capabilities {
    /// Streaming support.
    pub streaming: Option<bool>,
    /// Durable jobs.
    pub durable_jobs: Option<bool>,
    /// Checkpoints.
    pub checkpoints: Option<bool>,
    /// Binary streams.
    pub binary_streams: Option<bool>,
    /// Agent handoff.
    pub agent_handoff: Option<bool>,
    /// `model.use` lease enforcement.
    pub model_use: Option<bool>,
    /// Provisioned credentials.
    pub provisioned_credentials: Option<bool>,
    /// Artifacts.
    pub artifacts: Option<bool>,
    /// Subscriptions.
    pub subscriptions: Option<bool>,
    /// Scheduled jobs.
    pub scheduled_jobs: Option<bool>,
    /// Interrupts.
    pub interrupt: Option<bool>,
    /// Anonymous authentication gate.
    pub anonymous: Option<bool>,
    /// Heartbeat recovery policy (`"fail"` or `"block"`).
    pub heartbeat_recovery: Option<String>,
    /// Supported binary encodings.
    pub binary_encoding: Vec<String>,
    /// Advertised extension namespaces.
    pub extensions: Vec<String>,
    /// Artifact retention policy.
    pub artifact_retention: Option<ArtifactRetention>,
    /// Runtime-side advertisement of available agents.
    pub agents: Option<AgentInventory>,
    /// Unknown fields advertised by the peer, kept verbatim.
    pub extra: BTreeMap<String, serde_json::Value>,
}

impl Default for Capabilities {
    /// Nothing advertised.
    fn default() -> (c: Self)
        ensures
            c.streaming is None && c.durable_jobs is None && c.checkpoints is None
                && c.binary_streams is None && c.agent_handoff is None && c.model_use is None
                && c.provisioned_credentials is None && c.artifacts is None && c.subscriptions is None
                && c.scheduled_jobs is None && c.interrupt is None && c.anonymous is None,
            c.heartbeat_recovery is None,
            c.binary_encoding@.len() == 0,
            c.extensions@.len() == 0,
            c.artifact_retention is None,
            c.agents is None,
            c.extra@ == Map::<String, serde_json::Value>::empty(),
    {
        Capabilities {
            streaming: None,
            durable_jobs: None,
            checkpoints: None,
            binary_streams: None,
            agent_handoff: None,
            model_use: None,
            provisioned_credentials: None,
            artifacts: None,
            subscriptions: None,
            scheduled_jobs: None,
            interrupt: None,
            anonymous: None,
            heartbeat_recovery: None,
            binary_encoding: Vec::new(),
            extensions: Vec::new(),
            artifact_retention: None,
            agents: None,
            extra: BTreeMap::new(),
        }
    }
}

/// Artifact retention policy advertised in [`Capabilities`].
#[derive(Debug, Clone, Copy, PartialEq, Eq)]
pub struct ArtifactRetention {
    /// Default retention in seconds.
    pub default_seconds: u64,
    /// Maximum retention in seconds.
    pub max_seconds: u64,
}

/// One entry of the rich form of `capabilities.agents`.
#[derive(Debug, Clone, PartialEq, Eq)]
pub struct AgentInventoryEntry {
    /// Agent name.
    pub name: String,
    /// Available versions (possibly not enumerated).
    pub versions: Vec<String>,
    /// Version a bare-name reference resolves to.
    pub default: Option<String>,
}

/// Runtime-side agent inventory: a flat list of names, or rich entries
/// with versions and a default.
#[derive(Debug, Clone, PartialEq, Eq)]
pub enum AgentInventory {
    /// Flat list of bare agent names.
    Flat(Vec<String>),
    /// Rich list with versions and defaults.
    Rich(Vec<AgentInventoryEntry>),
}

/// Mathematical form of an inventory entry: name, versions, default.
pub open spec fn entry_view(e: AgentInventoryEntry) -> (Seq<char>, Seq<Seq<char>>, Option<Seq<char>>) {
    (
        e.name@,
        e.versions@.map_values(|v: String| v@),
        match e.default {
            Some(d) => Some(d@),
            None => None,
        },
    )
}

/// The rich entries an inventory stands for: flat names become entries
/// with no versions and no default.
pub open spec fn inventory_rich(inv: AgentInventory) -> Seq<(Seq<char>, Seq<Seq<char>>, Option<Seq<char>>)> {
    match inv {
        AgentInventory::Flat(names) => names@.map_values(
            |n: String| (n@, Seq::<Seq<char>>::empty(), None::<Seq<char>>),
        ),
        AgentInventory::Rich(entries) => entries@.map_values(|e: AgentInventoryEntry| entry_view(e)),
    }
}

/// Whether one inventory entry admits an agent reference: same name, and
/// a pinned version must be among the entry's versions.
pub open spec fn entry_admits(e: AgentInventoryEntry, r: AgentRefView) -> bool {
    &&& e.name@ == r.name
    &&& match r.version {
        None => true,
        Some(v) => exists|j: int| 0 <= j < e.versions.len() && #[trigger] e.versions@[j]@ == v,
    }
}

/// Resolution rule: a bare name matches an entry with that name; a pinned
/// `name@version` must appear among that entry's versions. Flat entries
/// match any version, since the runtime does not enumerate them.
pub open spec fn inventory_satisfies(inv: AgentInventory, r: AgentRefView) -> bool {
    match inv {
        AgentInventory::Flat(names) => exists|i: int| 0 <= i < names.len() && #[trigger] names@[i]@ == r.name,
        AgentInventory::Rich(entries) => exists|i: int|
            0 <= i < entries.len() && #[trigger] entry_admits(entries@[i], r),
    }
}

/// Rewriting an inventory in its rich form keeps what it satisfies for
/// unversioned references: any entries that stand for `inv` (as
/// [`AgentInventory::into_rich`] returns them) satisfy a bare name exactly
/// when `inv` does.
pub proof fn lemma_into_rich_keeps_satisfies(inv: AgentInventory, entries: Vec<AgentInventoryEntry>, r: AgentRefView)
    requires
        entries@.map_values(|e: AgentInventoryEntry| entry_view(e)) == inventory_rich(inv),
        r.version is None,
    ensures
        inventory_satisfies(AgentInventory::Rich(entries), r) == inventory_satisfies(inv, r),
{
    let views = entries@.map_values(|e: AgentInventoryEntry| entry_view(e));
    assert forall|i: int| 0 <= i < entries.len() implies #[trigger] entry_admits(entries@[i], r)
        == (views[i].0 == r.name) by {
        assert(views[i] == entry_view(entries@[i]));
    }
    assert(views.len() == entries@.len());
    match inv {
        AgentInventory::Flat(names) => {
            assert(inventory_rich(inv).len() == names@.len());
            if inventory_satisfies(inv, r) {
                let i = choose|i: int| 0 <= i < names.len() && #[trigger] names@[i]@ == r.name;
                assert(inventory_rich(inv)[i] == (names@[i]@, Seq::<Seq<char>>::empty(), None::<Seq<char>>));
                assert(views[i] == inventory_rich(inv)[i]);
                assert(entry_admits(entries@[i], r));
                assert(0 <= i < entries.len());
                assert(exists|k: int| 0 <= k < entries.len() && #[trigger] entry_admits(entries@[k], r));
                let ri = AgentInventory::Rich(entries);
                assert(ri matches AgentInventory::Rich(es) && es == entries);
                assert(inventory_satisfies(ri, r));
            }
            if inventory_satisfies(AgentInventory::Rich(entries), r) {
                let i = choose|i: int| 0 <= i < entries.len() && #[trigger] entry_admits(entries@[i], r);
                assert(inventory_rich(inv)[i] == (names@[i]@, Seq::<Seq<char>>::empty(), None::<Seq<char>>));
                assert(views[i] == inventory_rich(inv)[i]);
                assert(names@[i]@ == r.name);
                assert(inventory_satisfies(inv, r));
            }
            assert(inventory_satisfies(inv, r) ==> inventory_satisfies(AgentInventory::Rich(entries), r));
            assert(inventory_satisfies(AgentInventory::Rich(entries), r) ==> inventory_satisfies(inv, r));
        },
        AgentInventory::Rich(orig) => {
            let ov = orig@.map_values(|e: AgentInventoryEntry| entry_view(e));
            assert(ov == inventory_rich(inv));
            assert(ov.len() == orig@.len());
            if inventory_satisfies(inv, r) {
                let i = choose|i: int| 0 <= i < orig.len() && #[trigger] entry_admits(orig@[i], r);
                assert(ov[i] == entry_view(orig@[i]));
                assert(views[i] == ov[i]);
                assert(entry_admits(entries@[i], r));
                let ri = AgentInventory::Rich(entries);
                assert(ri matches AgentInventory::Rich(es) && es == entries);
                assert(inventory_satisfies(ri, r));
            }
            if inventory_satisfies(AgentInventory::Rich(entries), r) {
                let i = choose|i: int| 0 <= i < entries.len() && #[trigger] entry_admits(entries@[i], r);
                assert(ov[i] == entry_view(orig@[i]));
                assert(views[i] == ov[i]);
                assert(entry_admits(orig@[i], r));
                assert(inv matches AgentInventory::Rich(es) && es == orig);
                assert(inventory_satisfies(inv, r));
            }
        },
    }
}

/// Whether some string of `v` has the text `s`.
fn strings_contain(v: &Vec<String>, s: &String) -> (r: bool)
    ensures
        r == exists|i: int| 0 <= i < v.len() && #[trigger] v@[i]@ == s@,
{
    let mut i: usize = 0;
    while i < v.len()
        invariant
            i <= v.len(),
            forall|k: int| 0 <= k < i ==> #[trigger] v@[k]@ != s@,
        decreases v.len() - i,
    {
        if v[i] == *s {
            return true;
        }
        i = i + 1;
    }
    false
}

/// Whether some entry admits `agent`.
fn rich_satisfies(entries: &Vec<AgentInventoryEntry>, agent: &AgentRef) -> (r: bool)
    ensures
        r == exists|i: int| 0 <= i < entries.len() && #[trigger] entry_admits(entries@[i], agent@),
{
    let mut i: usize = 0;
    while i < entries.len()
        invariant
            i <= entries.len(),
            forall|k: int| 0 <= k < i ==> !#[trigger] entry_admits(entries@[k], agent@),
        decreases entries.len() - i,
    {
        let e = &entries[i];
        if e.name == agent.name {
            let ok = match &agent.version {
                None => true,
                Some(v) => strings_contain(&e.versions, v),
            };
            if ok {
                assert(entry_admits(entries@[i as int], agent@));
                return true;
            }
        }
        i = i + 1;
    }
    false
}

impl AgentInventory {
    /// Normalise into the rich shape; flat entries become rich entries
    /// with no versions and no default.
    pub fn into_rich(self) -> (r: Vec<AgentInventoryEntry>)
        ensures
            r@.map_values(|e: AgentInventoryEntry| entry_view(e)) == inventory_rich(self),
    {
        match self {
            AgentInventory::Flat(names) => {
                let mut out: Vec<AgentInventoryEntry> = Vec::new();
                let mut i: usize = 0;
                while i < names.len()
                    invariant
                        i <= names.len(),
                        out.len() == i,
                        forall|k: int| 0 <= k < i ==> #[trigger] entry_view(out@[k]) == (
                            names@[k]@,
                            Seq::<Seq<char>>::empty(),
                            None::<Seq<char>>,
                        ),
                    decreases names.len() - i,
                {
                    let entry = AgentInventoryEntry {
                        name: names[i].clone(),
                        versions: Vec::new(),
                        default: None,
                    };
                    assert(entry.versions@.map_values(|v: String| v@) =~= Seq::<Seq<char>>::empty());
                    out.push(entry);
                    i = i + 1;
                }
                assert(out@.map_values(|e: AgentInventoryEntry| entry_view(e)) =~= names@.map_values(
                    |n: String| (n@, Seq::<Seq<char>>::empty(), None::<Seq<char>>),
                ));
                out
            },
            AgentInventory::Rich(entries) => entries,
        }
    }

    /// True if `agent` is satisfied by this inventory (see
    /// [`inventory_satisfies`]).
    pub fn satisfies(&self, agent: &AgentRef) -> (r: bool)
        ensures
            r == inventory_satisfies(*self, agent@),
    {
        match self {
            AgentInventory::Flat(names) => strings_contain(names, &agent.name),
            AgentInventory::Rich(entries) => rich_satisfies(entries, agent),
        }
    }
}

/// Named boolean capability slots, used by [`Capabilities::has`].
#[derive(Debug, Clone, Copy, PartialEq, Eq, Hash)]
pub enum CapabilityName {
    /// `streaming`
    Streaming,
    /// `durable_jobs`
    DurableJobs,
    /// `checkpoints`
    Checkpoints,
    /// `binary_streams`
    BinaryStreams,
    /// `agent_handoff`
    AgentHandoff,
    /// `model_use`
    ModelUse,
    /// `provisioned_credentials`
    ProvisionedCredentials,
    /// `artifacts`
    Artifacts,
    /// `subscriptions`
    Subscriptions,
    /// `scheduled_jobs`
    ScheduledJobs,
    /// `interrupt`
    Interrupt,
    /// `anonymous`
    Anonymous,
}

/// The flag that backs each named capability.
pub open spec fn capability_flag(c: Capabilities, name: CapabilityName) -> Option<bool> {
    match name {
        CapabilityName::Streaming => c.streaming,
        CapabilityName::DurableJobs => c.durable_jobs,
        CapabilityName::Checkpoints => c.checkpoints,
        CapabilityName::BinaryStreams => c.binary_streams,
        CapabilityName::AgentHandoff => c.agent_handoff,
        CapabilityName::ModelUse => c.model_use,
        CapabilityName::ProvisionedCredentials => c.provisioned_credentials,
        CapabilityName::Artifacts => c.artifacts,
        CapabilityName::Subscriptions => c.subscriptions,
        CapabilityName::ScheduledJobs => c.scheduled_jobs,
        CapabilityName::Interrupt => c.interrupt,
        CapabilityName::Anonymous => c.anonymous,
    }
}

/// Each capability name reads its own flag, and nothing else:
/// `has(DurableJobs)` is the `durable_jobs` flag, `has(Checkpoints)` the
/// `checkpoints` flag, and likewise for every name.
pub proof fn lemma_capability_reads_own_flag(c: Capabilities)
    ensures
        capability_flag(c, CapabilityName::Streaming) == c.streaming,
        capability_flag(c, CapabilityName::DurableJobs) == c.durable_jobs,
        capability_flag(c, CapabilityName::Checkpoints) == c.checkpoints,
        capability_flag(c, CapabilityName::BinaryStreams) == c.binary_streams,
        capability_flag(c, CapabilityName::AgentHandoff) == c.agent_handoff,
        capability_flag(c, CapabilityName::ModelUse) == c.model_use,
        capability_flag(c, CapabilityName::ProvisionedCredentials) == c.provisioned_credentials,
        capability_flag(c, CapabilityName::Artifacts) == c.artifacts,
        capability_flag(c, CapabilityName::Subscriptions) == c.subscriptions,
        capability_flag(c, CapabilityName::ScheduledJobs) == c.scheduled_jobs,
        capability_flag(c, CapabilityName::Interrupt) == c.interrupt,
        capability_flag(c, CapabilityName::Anonymous) == c.anonymous,
{
}

impl Capabilities {
    /// True when `name` is a boolean capability set to `true` (absent
    /// reads as `false`).
    pub fn has(&self, name: CapabilityName) -> (r: bool)
        ensures
            r == (capability_flag(*self, name) == Some(true)),
    {
        let flag = match name {
            CapabilityName::Streaming => self.streaming,
            CapabilityName::DurableJobs => self.durable_jobs,
            CapabilityName::Checkpoints => self.checkpoints,
            CapabilityName::BinaryStreams => self.binary_streams,
            CapabilityName::AgentHandoff => self.agent_handoff,
            CapabilityName::ModelUse => self.model_use,
            CapabilityName::ProvisionedCredentials => self.provisioned_credentials,
            CapabilityName::Artifacts => self.artifacts,
            CapabilityName::Subscriptions => self.subscriptions,
            CapabilityName::ScheduledJobs => self.scheduled_jobs,
            CapabilityName::Interrupt => self.interrupt,
            CapabilityName::Anonymous => self.anonymous,
        };
        match flag {
            Some(b) => b,
            None => false,
        }
    }
}

/// Every protocol message payload, tagged by its wire `type`.
#[derive(Clone, PartialEq)]
pub enum MessageType {
    /// `session.open`
    SessionOpen(SessionOpenPayload),
    /// `session.challenge`
    SessionChallenge(SessionChallengePayload),
    /// `session.authenticate`
    SessionAuthenticate(SessionAuthenticatePayload),
    /// `session.accepted`
    SessionAccepted(SessionAcceptedPayload),
    /// `session.unauthenticated`
    SessionUnauthenticated(SessionUnauthenticatedPayload),
    /// `session.rejected`
    SessionRejected(SessionRejectedPayload),
    /// `session.refresh`
    SessionRefresh(SessionRefreshPayload),
    /// `session.evicted`
    SessionEvicted(SessionEvictedPayload),
    /// `session.close`
    SessionClose(SessionClosePayload),
    /// `session.closed`
    SessionClosed(SessionClosedPayload),
    /// `session.resume`
    SessionResume(SessionResumePayload),
    /// `session.resumed`
    SessionResumed(SessionResumedPayload),
    /// `session.ping`
    SessionPing(SessionPingPayload),
    /// `session.pong`
    SessionPong(SessionPongPayload),
    /// `session.ack`
    SessionAck(SessionAckPayload),
    /// `session.list_jobs`
    SessionListJobs(SessionListJobsPayload),
    /// `session.jobs`
    SessionJobs(SessionJobsPayload),
    /// `ping`
    Ping(PingPayload),
    /// `pong`
    Pong(PongPayload),
    /// `ack`
    Ack(AckPayload),
    /// `nack`
    Nack(NackPayload),
    /// `cancel`
    Cancel(CancelPayload),
    /// `cancel.accepted`
    CancelAccepted(CancelAcceptedPayload),
    /// `cancel.refused`
    CancelRefused(CancelRefusedPayload),
    /// `interrupt`
    Interrupt(InterruptPayload),
    /// `resume`
    Resume(ResumePayload),
    /// `backpressure`
    Backpressure(BackpressurePayload),
    /// `tool.invoke`
    ToolInvoke(ToolInvokePayload),
    /// `tool.result`
    ToolResult(ToolResultPayload),
    /// `tool.error`
    ToolError(ToolErrorPayload),
    /// `job.accepted`
    JobAccepted(JobAcceptedPayload),
    /// `job.started`
    JobStarted(JobStartedPayload),
    /// `job.progress`
    JobProgress(JobProgressPayload),
    /// `job.heartbeat`
    JobHeartbeat(JobHeartbeatPayload),
    /// `job.completed`
    JobCompleted(JobCompletedPayload),
    /// `job.failed`
    JobFailed(JobFailedPayload),
    /// `job.cancelled`
    JobCancelled(JobCancelledPayload),
    /// `job.result_chunk`
    JobResultChunk(JobResultChunkPayload),
    /// `stream.open`
    StreamOpen(StreamOpenPayload),
    /// `stream.chunk`
    StreamChunk(StreamChunkPayload),
    /// `stream.close`
    StreamClose(StreamClosePayload),
    /// `stream.error`
    StreamError(StreamErrorPayload),
    /// `permission.request`
    PermissionRequest(PermissionRequestPayload),
    /// `permission.grant`
    PermissionGrant(PermissionGrantPayload),
    /// `permission.deny`
    PermissionDeny(PermissionDenyPayload),
    /// `lease.granted`
    LeaseGranted(LeaseGrantedPayload),
    /// `lease.extended`
    LeaseExtended(LeaseExtendedPayload),
    /// `lease.revoked`
    LeaseRevoked(LeaseRevokedPayload),
    /// `lease.refresh`
    LeaseRefresh(LeaseRefreshPayload),
    /// `subscribe`
    Subscribe(SubscribePayload),
    /// `subscribe.accepted`
    SubscribeAccepted(SubscribeAcceptedPayload),
    /// `subscribe.event`
    SubscribeEvent(SubscribeEventPayload),
    /// `unsubscribe`
    Unsubscribe(UnsubscribePayload),
    /// `subscribe.closed`
    SubscribeClosed(SubscribeClosedPayload),
    /// `job.subscribe`
    JobSubscribe(JobSubscribePayload),
    /// `job.subscribed`
    JobSubscribed(JobSubscribedPayload),
    /// `job.unsubscribe`
    JobUnsubscribe(JobUnsubscribePayload),
    /// `artifact.put`
    ArtifactPut(ArtifactPutPayload),
    /// `artifact.fetch`
    ArtifactFetch(ArtifactFetchPayload),
    /// `artifact.ref`
    ArtifactRef(ArtifactRefPayload),
    /// `artifact.release`
    ArtifactRelease(ArtifactReleasePayload),
    /// `event.emit`
    EventEmit(EventEmitPayload),
    /// `log`
    Log(LogPayload),
    /// `metric`
    Metric(MetricPayload),
    /// `trace.span`
    TraceSpan(TraceSpanPayload),
}

/// Wire-level discriminator of each message.
pub open spec fn message_type_name(m: MessageType) -> &'static str {
    match m {
        MessageType::SessionOpen(_) => "session.open",
        MessageType::SessionChallenge(_) => "session.challenge",
        MessageType::SessionAuthenticate(_) => "session.authenticate",
        MessageType::SessionAccepted(_) => "session.accepted",
        MessageType::SessionUnauthenticated(_) => "session.unauthenticated",
        MessageType::SessionRejected(_) => "session.rejected",
        MessageType::SessionRefresh(_) => "session.refresh",
        MessageType::SessionEvicted(_) => "session.evicted",
        MessageType::SessionClose(_) => "session.close",
        MessageType::SessionClosed(_) => "session.closed",
        MessageType::SessionResume(_) => "session.resume",
        MessageType::SessionResumed(_) => "session.resumed",
        MessageType::SessionPing(_) => "session.ping",
        MessageType::SessionPong(_) => "session.pong",
        MessageType::SessionAck(_) => "session.ack",
        MessageType::SessionListJobs(_) => "session.list_jobs",
        MessageType::SessionJobs(_) => "session.jobs",
        MessageType::Ping(_) => "ping",
        MessageType::Pong(_) => "pong",
        MessageType::Ack(_) => "ack",
        MessageType::Nack(_) => "nack",
        MessageType::Cancel(_) => "cancel",
        MessageType::CancelAccepted(_) => "cancel.accepted",
        MessageType::CancelRefused(_) => "cancel.refused",
        MessageType::Interrupt(_) => "interrupt",
        MessageType::Resume(_) => "resume",
        MessageType::Backpressure(_) => "backpressure",
        MessageType::ToolInvoke(_) => "tool.invoke",
        MessageType::ToolResult(_) => "tool.result",
        MessageType::ToolError(_) => "tool.error",
        MessageType::JobAccepted(_) => "job.accepted",
        MessageType::JobStarted(_) => "job.started",
        MessageType::JobProgress(_) => "job.progress",
        MessageType::JobHeartbeat(_) => "job.heartbeat",
        MessageType::JobCompleted(_) => "job.completed",
        MessageType::JobFailed(_) => "job.failed",
        MessageType::JobCancelled(_) => "job.cancelled",
        MessageType::JobResultChunk(_) => "job.result_chunk",
        MessageType::StreamOpen(_) => "stream.open",
        MessageType::StreamChunk(_) => "stream.chunk",
        MessageType::StreamClose(_) => "stream.close",
        MessageType::StreamError(_) => "stream.error",
        MessageType::PermissionRequest(_) => "permission.request",
        MessageType::PermissionGrant(_) => "permission.grant",
        MessageType::PermissionDeny(_) => "permission.deny",
        MessageType::LeaseGranted(_) => "lease.granted",
        MessageType::LeaseExtended(_) => "lease.extended",
        MessageType::LeaseRevoked(_) => "lease.revoked",
        MessageType::LeaseRefresh(_) => "lease.refresh",
        MessageType::Subscribe(_) => "subscribe",
        MessageType::SubscribeAccepted(_) => "subscribe.accepted",
        MessageType::SubscribeEvent(_) => "subscribe.event",
        MessageType::Unsubscribe(_) => "unsubscribe",
        MessageType::SubscribeClosed(_) => "subscribe.closed",
        MessageType::JobSubscribe(_) => "job.subscribe",
        MessageType::JobSubscribed(_) => "job.subscribed",
        MessageType::JobUnsubscribe(_) => "job.unsubscribe",
        MessageType::ArtifactPut(_) => "artifact.put",
        MessageType::ArtifactFetch(_) => "artifact.fetch",
        MessageType::ArtifactRef(_) => "artifact.ref",
        MessageType::ArtifactRelease(_) => "artifact.release",
        MessageType::EventEmit(_) => "event.emit",
        MessageType::Log(_) => "log",
        MessageType::Metric(_) => "metric",
        MessageType::TraceSpan(_) => "trace.span",
    }
}

/// Position of a message's variant among the variants.
pub open spec fn message_kind(m: MessageType) -> int {
    match m {
        MessageType::SessionOpen(_) => 0,
        MessageType::SessionChallenge(_) => 1,
        MessageType::SessionAuthenticate(_) => 2,
        MessageType::SessionAccepted(_) => 3,
        MessageType::SessionUnauthenticated(_) => 4,
        MessageType::SessionRejected(_) => 5,
        MessageType::SessionRefresh(_) => 6,
        MessageType::SessionEvicted(_) => 7,
        MessageType::SessionClose(_) => 8,
        MessageType::SessionClosed(_) => 9,
        MessageType::SessionResume(_) => 10,
        MessageType::SessionResumed(_) => 11,
        MessageType::SessionPing(_) => 12,
        MessageType::SessionPong(_) => 13,
        MessageType::SessionAck(_) => 14,
        MessageType::SessionListJobs(_) => 15,
        MessageType::SessionJobs(_) => 16,
        MessageType::Ping(_) => 17,
        MessageType::Pong(_) => 18,
        MessageType::Ack(_) => 19,
        MessageType::Nack(_) => 20,
        MessageType::Cancel(_) => 21,
        MessageType::CancelAccepted(_) => 22,
        MessageType::CancelRefused(_) => 23,
        MessageType::Interrupt(_) => 24,
        MessageType::Resume(_) => 25,
        MessageType::Backpressure(_) => 26,
        MessageType::ToolInvoke(_) => 27,
        MessageType::ToolResult(_) => 28,
        MessageType::ToolError(_) => 29,
        MessageType::JobAccepted(_) => 30,
        MessageType::JobStarted(_) => 31,
        MessageType::JobProgress(_) => 32,
        MessageType::JobHeartbeat(_) => 33,
        MessageType::JobCompleted(_) => 34,
        MessageType::JobFailed(_) => 35,
        MessageType::JobCancelled(_) => 36,
        MessageType::JobResultChunk(_) => 37,
        MessageType::StreamOpen(_) => 38,
        MessageType::StreamChunk(_) => 39,
        MessageType::StreamClose(_) => 40,
        MessageType::StreamError(_) => 41,
        MessageType::PermissionRequest(_) => 42,
        MessageType::PermissionGrant(_) => 43,
        MessageType::PermissionDeny(_) => 44,
        MessageType::LeaseGranted(_) => 45,
        MessageType::LeaseExtended(_) => 46,
        MessageType::LeaseRevoked(_) => 47,
        MessageType::LeaseRefresh(_) => 48,
        MessageType::Subscribe(_) => 49,
        MessageType::SubscribeAccepted(_) => 50,
        MessageType::SubscribeEvent(_) => 51,
        MessageType::Unsubscribe(_) => 52,
        MessageType::SubscribeClosed(_) => 53,
        MessageType::JobSubscribe(_) => 54,
        MessageType::JobSubscribed(_) => 55,
        MessageType::JobUnsubscribe(_) => 56,
        MessageType::ArtifactPut(_) => 57,
        MessageType::ArtifactFetch(_) => 58,
        MessageType::ArtifactRef(_) => 59,
        MessageType::ArtifactRelease(_) => 60,
        MessageType::EventEmit(_) => 61,
        MessageType::Log(_) => 62,
        MessageType::Metric(_) => 63,
        MessageType::TraceSpan(_) => 64,
    }
}

/// The character positions that tell apart the wire names of one length.
spec fn first_probe(len: nat) -> int {
    if len == 4 {
        1
    } else if len == 10 {
        2
    } else if len == 11 {
        5
    } else if len == 12 {
        8
    } else if len == 14 {
        10
    } else if len == 16 {
        8
    } else if len == 17 {
        8
    } else {
        0
    }
}

/// A second position, where one does not suffice.
spec fn second_probe(len: nat) -> int {
    if len == 12 {
        9
    } else if len == 13 {
        8
    } else if len == 15 {
        10
    } else {
        0
    }
}

/// Length and two probed characters of a name.
spec fn name_key(n: Seq<char>) -> (nat, char, char) {
    (n.len(), n[first_probe(n.len())], n[second_probe(n.len())])
}

/// The variant position a name key belongs to (`-1` for none).
spec fn kind_of_key(t: (nat, char, char)) -> int {
    if false {
        -1
    } else if t == (12nat, 'o', 'p') {
        0
    } else if t == (17nat, 'c', 's') {
        1
    } else if t == (20nat, 's', 's') {
        2
    } else if t == (16nat, 'a', 's') {
        3
    } else if t == (23nat, 's', 's') {
        4
    } else if t == (16nat, 'r', 's') {
        5
    } else if t == (15nat, 's', 'f') {
        6
    } else if t == (15nat, 's', 'i') {
        7
    } else if t == (13nat, 's', 'c') {
        8
    } else if t == (14nat, 'o', 's') {
        9
    } else if t == (14nat, 's', 's') {
        10
    } else if t == (15nat, 's', 's') {
        11
    } else if t == (12nat, 'p', 'i') {
        12
    } else if t == (12nat, 'p', 'o') {
        13
    } else if t == (11nat, 'o', 's') {
        14
    } else if t == (17nat, 'l', 's') {
        15
    } else if t == (12nat, 'j', 'o') {
        16
    } else if t == (4nat, 'i', 'p') {
        17
    } else if t == (4nat, 'o', 'p') {
        18
    } else if t == (3nat, 'a', 'a') {
        19
    } else if t == (4nat, 'a', 'n') {
        20
    } else if t == (6nat, 'c', 'c') {
        21
    } else if t == (15nat, 'c', 'e') {
        22
    } else if t == (14nat, 'u', 'c') {
        23
    } else if t == (9nat, 'i', 'i') {
        24
    } else if t == (6nat, 'r', 'r') {
        25
    } else if t == (12nat, 's', 'u') {
        26
    } else if t == (11nat, 'i', 't') {
        27
    } else if t == (11nat, 'r', 't') {
        28
    } else if t == (10nat, 'o', 't') {
        29
    } else if t == (12nat, 'p', 't') {
        30
    } else if t == (11nat, 't', 'j') {
        31
    } else if t == (12nat, 'r', 'e') {
        32
    } else if t == (13nat, 'j', 't') {
        33
    } else if t == (13nat, 'j', 'l') {
        34
    } else if t == (10nat, 'b', 'j') {
        35
    } else if t == (13nat, 'j', 'e') {
        36
    } else if t == (16nat, 'l', 'j') {
        37
    } else if t == (11nat, 'm', 's') {
        38
    } else if t == (12nat, 'h', 'u') {
        39
    } else if t == (12nat, 'l', 'o') {
        40
    } else if t == (12nat, 'r', 'r') {
        41
    } else if t == (18nat, 'p', 'p') {
        42
    } else if t == (16nat, 'o', 'p') {
        43
    } else if t == (15nat, 'p', '.') {
        44
    } else if t == (13nat, 'l', 'a') {
        45
    } else if t == (14nat, 'n', 'l') {
        46
    } else if t == (13nat, 'l', 'v') {
        47
    } else if t == (13nat, 'l', 'f') {
        48
    } else if t == (9nat, 's', 's') {
        49
    } else if t == (18nat, 's', 's') {
        50
    } else if t == (15nat, 's', 'e') {
        51
    } else if t == (11nat, 's', 'u') {
        52
    } else if t == (16nat, 'e', 's') {
        53
    } else if t == (13nat, 'j', 'c') {
        54
    } else if t == (14nat, 'i', 'j') {
        55
    } else if t == (15nat, 'j', 'c') {
        56
    } else if t == (12nat, '.', 'p') {
        57
    } else if t == (14nat, 'e', 'a') {
        58
    } else if t == (12nat, '.', 'r') {
        59
    } else if t == (16nat, '.', 'a') {
        60
    } else if t == (10nat, 'e', 'e') {
        61
    } else if t == (3nat, 'l', 'l') {
        62
    } else if t == (6nat, 'm', 'm') {
        63
    } else if t == (10nat, 'a', 't') {
        64
    } else {
        -1
    }
}

/// The key of a variant's wire name leads back to the variant.
proof fn lemma_name_key_kind(m: MessageType)
    ensures
        kind_of_key(name_key(message_type_name(m)@)) == message_kind(m),
{
    match m {
        MessageType::SessionOpen(_) => {
            reveal_strlit("session.open");
        },
        MessageType::SessionChallenge(_) => {
            reveal_strlit("session.challenge");
        },
        MessageType::SessionAuthenticate(_) => {
            reveal_strlit("session.authenticate");
        },
        MessageType::SessionAccepted(_) => {
            reveal_strlit("session.accepted");
        },
        MessageType::SessionUnauthenticated(_) => {
            reveal_strlit("session.unauthenticated");
        },
        MessageType::SessionRejected(_) => {
            reveal_strlit("session.rejected");
        },
        MessageType::SessionRefresh(_) => {
            reveal_strlit("session.refresh");
        },
        MessageType::SessionEvicted(_) => {
            reveal_strlit("session.evicted");
        },
        MessageType::SessionClose(_) => {
            reveal_strlit("session.close");
        },
        MessageType::SessionClosed(_) => {
            reveal_strlit("session.closed");
        },
        MessageType::SessionResume(_) => {
            reveal_strlit("session.resume");
        },
        MessageType::SessionResumed(_) => {
            reveal_strlit("session.resumed");
        },
        MessageType::SessionPing(_) => {
            reveal_strlit("session.ping");
        },
        MessageType::SessionPong(_) => {
            reveal_strlit("session.pong");
        },
        MessageType::SessionAck(_) => {
            reveal_strlit("session.ack");
        },
        MessageType::SessionListJobs(_) => {
            reveal_strlit("session.list_jobs");
        },
        MessageType::SessionJobs(_) => {
            reveal_strlit("session.jobs");
        },
        MessageType::Ping(_) => {
            reveal_strlit("ping");
        },
        MessageType::Pong(_) => {
            reveal_strlit("pong");
        },
        MessageType::Ack(_) => {
            reveal_strlit("ack");
        },
        MessageType::Nack(_) => {
            reveal_strlit("nack");
        },
        MessageType::Cancel(_) => {
            reveal_strlit("cancel");
        },
        MessageType::CancelAccepted(_) => {
            reveal_strlit("cancel.accepted");
        },
        MessageType::CancelRefused(_) => {
            reveal_strlit("cancel.refused");
        },
        MessageType::Interrupt(_) => {
            reveal_strlit("interrupt");
        },
        MessageType::Resume(_) => {
            reveal_strlit("resume");
        },
        MessageType::Backpressure(_) => {
            reveal_strlit("backpressure");
        },
        MessageType::ToolInvoke(_) => {
            reveal_strlit("tool.invoke");
        },
        MessageType::ToolResult(_) => {
            reveal_strlit("tool.result");
        },
        MessageType::ToolError(_) => {
            reveal_strlit("tool.error");
        },
        MessageType::JobAccepted(_) => {
            reveal_strlit("job.accepted");
        },
        MessageType::JobStarted(_) => {
            reveal_strlit("job.started");
        },
        MessageType::JobProgress(_) => {
            reveal_strlit("job.progress");
        },
        MessageType::JobHeartbeat(_) => {
            reveal_strlit("job.heartbeat");
        },
        MessageType::JobCompleted(_) => {
            reveal_strlit("job.completed");
        },
        MessageType::JobFailed(_) => {
            reveal_strlit("job.failed");
        },
        MessageType::JobCancelled(_) => {
            reveal_strlit("job.cancelled");
        },
        MessageType::JobResultChunk(_) => {
            reveal_strlit("job.result_chunk");
        },
        MessageType::StreamOpen(_) => {
            reveal_strlit("stream.open");
        },
        MessageType::StreamChunk(_) => {
            reveal_strlit("stream.chunk");
        },
        MessageType::StreamClose(_) => {
            reveal_strlit("stream.close");
        },
        MessageType::StreamError(_) => {
            reveal_strlit("stream.error");
        },
        MessageType::PermissionRequest(_) => {
            reveal_strlit("permission.request");
        },
        MessageType::PermissionGrant(_) => {
            reveal_strlit("permission.grant");
        },
        MessageType::PermissionDeny(_) => {
            reveal_strlit("permission.deny");
        },
        MessageType::LeaseGranted(_) => {
            reveal_strlit("lease.granted");
        },
        MessageType::LeaseExtended(_) => {
            reveal_strlit("lease.extended");
        },
        MessageType::LeaseRevoked(_) => {
            reveal_strlit("lease.revoked");
        },
        MessageType::LeaseRefresh(_) => {
            reveal_strlit("lease.refresh");
        },
        MessageType::Subscribe(_) => {
            reveal_strlit("subscribe");
        },
        MessageType::SubscribeAccepted(_) => {
            reveal_strlit("subscribe.accepted");
        },
        MessageType::SubscribeEvent(_) => {
            reveal_strlit("subscribe.event");
        },
        MessageType::Unsubscribe(_) => {
            reveal_strlit("unsubscribe");
        },
        MessageType::SubscribeClosed(_) => {
            reveal_strlit("subscribe.closed");
        },
        MessageType::JobSubscribe(_) => {
            reveal_strlit("job.subscribe");
        },
        MessageType::JobSubscribed(_) => {
            reveal_strlit("job.subscribed");
        },
        MessageType::JobUnsubscribe(_) => {
            reveal_strlit("job.unsubscribe");
        },
        MessageType::ArtifactPut(_) => {
            reveal_strlit("artifact.put");
        },
        MessageType::ArtifactFetch(_) => {
            reveal_strlit("artifact.fetch");
        },
        MessageType::ArtifactRef(_) => {
            reveal_strlit("artifact.ref");
        },
        MessageType::ArtifactRelease(_) => {
            reveal_strlit("artifact.release");
        },
        MessageType::EventEmit(_) => {
            reveal_strlit("event.emit");
        },
        MessageType::Log(_) => {
            reveal_strlit("log");
        },
        MessageType::Metric(_) => {
            reveal_strlit("metric");
        },
        MessageType::TraceSpan(_) => {
            reveal_strlit("trace.span");
        },
    }
}

/// Distinct variants have distinct wire names: the name of a message
/// tells its variant.
pub proof fn lemma_message_type_names_distinct(a: MessageType, b: MessageType)
    requires
        message_type_name(a)@ == message_type_name(b)@,
    ensures
        message_kind(a) == message_kind(b),
{
    lemma_name_key_kind(a);
    lemma_name_key_kind(b);
}

/// Handshake messages: the only ones allowed before `session.accepted`.
pub open spec fn message_is_handshake(m: MessageType) -> bool {
    m is SessionOpen
        || m is SessionChallenge
        || m is SessionAuthenticate
        || m is SessionAccepted
        || m is SessionUnauthenticated
        || m is SessionRejected
        || m is SessionResume
        || m is SessionResumed
}

/// Countable events: those stamped with `event_seq` and subject to
/// `session.ack` flow control. Session-control envelopes are not counted.
pub open spec fn message_is_countable(m: MessageType) -> bool {
    !(m is SessionOpen
        || m is SessionChallenge
        || m is SessionAuthenticate
        || m is SessionAccepted
        || m is SessionUnauthenticated
        || m is SessionRejected
        || m is SessionRefresh
        || m is SessionEvicted
        || m is SessionClose
        || m is SessionClosed
        || m is SessionResume
        || m is SessionResumed
        || m is SessionPing
        || m is SessionPong
        || m is SessionAck
        || m is SessionListJobs
        || m is SessionJobs
        || m is Ping
        || m is Pong)
}

/// Job events, tool results, stream traffic, telemetry, artifacts and
/// subscription traffic are counted for `event_seq`; session control
/// (handshake, heartbeats, acks, close, evict, refresh, resume, job
/// listings) is not.
pub proof fn lemma_countable_classes(m: MessageType)
    ensures
        (m is JobAccepted || m is JobStarted || m is JobProgress || m is JobHeartbeat || m is JobCompleted
            || m is JobFailed || m is JobCancelled || m is JobResultChunk) ==> message_is_countable(m),
        (m is ToolInvoke || m is ToolResult || m is ToolError || m is StreamOpen || m is StreamChunk
            || m is StreamClose || m is StreamError) ==> message_is_countable(m),
        (m is Log || m is Metric || m is ArtifactPut || m is ArtifactFetch || m is ArtifactRef || m is Subscribe
            || m is SubscribeAccepted || m is SubscribeEvent || m is Unsubscribe || m is SubscribeClosed)
            ==> message_is_countable(m),
        (m is SessionOpen || m is SessionChallenge || m is SessionAuthenticate || m is SessionAccepted
            || m is SessionUnauthenticated || m is SessionRejected) ==> !message_is_countable(m),
        (m is SessionPing || m is SessionPong || m is SessionAck || m is SessionClose || m is SessionEvicted
            || m is SessionRefresh || m is SessionListJobs || m is SessionJobs || m is Ping || m is Pong)
            ==> !message_is_countable(m),
        (m is SessionClosed || m is SessionResume || m is SessionResumed) ==> !message_is_countable(m),
{
}

impl MessageType {
    /// Wire-level discriminator string of this message.
    pub fn wire_name(&self) -> (s: &'static str)
        ensures
            s == message_type_name(*self),
    {
        match self {
            MessageType::SessionOpen(_) => "session.open",
            MessageType::SessionChallenge(_) => "session.challenge",
            MessageType::SessionAuthenticate(_) => "session.authenticate",
            MessageType::SessionAccepted(_) => "session.accepted",
            MessageType::SessionUnauthenticated(_) => "session.unauthenticated",
            MessageType::SessionRejected(_) => "session.rejected",
            MessageType::SessionRefresh(_) => "session.refresh",
            MessageType::SessionEvicted(_) => "session.evicted",
            MessageType::SessionClose(_) => "session.close",
            MessageType::SessionClosed(_) => "session.closed",
            MessageType::SessionResume(_) => "session.resume",
            MessageType::SessionResumed(_) => "session.resumed",
            MessageType::SessionPing(_) => "session.ping",
            MessageType::SessionPong(_) => "session.pong",
            MessageType::SessionAck(_) => "session.ack",
            MessageType::SessionListJobs(_) => "session.list_jobs",
            MessageType::SessionJobs(_) => "session.jobs",
            MessageType::Ping(_) => "ping",
            MessageType::Pong(_) => "pong",
            MessageType::Ack(_) => "ack",
            MessageType::Nack(_) => "nack",
            MessageType::Cancel(_) => "cancel",
            MessageType::CancelAccepted(_) => "cancel.accepted",
            MessageType::CancelRefused(_) => "cancel.refused",
            MessageType::Interrupt(_) => "interrupt",
            MessageType::Resume(_) => "resume",
            MessageType::Backpressure(_) => "backpressure",
            MessageType::ToolInvoke(_) => "tool.invoke",
            MessageType::ToolResult(_) => "tool.result",
            MessageType::ToolError(_) => "tool.error",
            MessageType::JobAccepted(_) => "job.accepted",
            MessageType::JobStarted(_) => "job.started",
            MessageType::JobProgress(_) => "job.progress",
            MessageType::JobHeartbeat(_) => "job.heartbeat",
            MessageType::JobCompleted(_) => "job.completed",
            MessageType::JobFailed(_) => "job.failed",
            MessageType::JobCancelled(_) => "job.cancelled",
            MessageType::JobResultChunk(_) => "job.result_chunk",
            MessageType::StreamOpen(_) => "stream.open",
            MessageType::StreamChunk(_) => "stream.chunk",
            MessageType::StreamClose(_) => "stream.close",
            MessageType::StreamError(_) => "stream.error",
            MessageType::PermissionRequest(_) => "permission.request",
            MessageType::PermissionGrant(_) => "permission.grant",
            MessageType::PermissionDeny(_) => "permission.deny",
            MessageType::LeaseGranted(_) => "lease.granted",
            MessageType::LeaseExtended(_) => "lease.extended",
            MessageType::LeaseRevoked(_) => "lease.revoked",
            MessageType::LeaseRefresh(_) => "lease.refresh",
            MessageType::Subscribe(_) => "subscribe",
            MessageType::SubscribeAccepted(_) => "subscribe.accepted",
            MessageType::SubscribeEvent(_) => "subscribe.event",
            MessageType::Unsubscribe(_) => "unsubscribe",
            MessageType::SubscribeClosed(_) => "subscribe.closed",
            MessageType::JobSubscribe(_) => "job.subscribe",
            MessageType::JobSubscribed(_) => "job.subscribed",
            MessageType::JobUnsubscribe(_) => "job.unsubscribe",
            MessageType::ArtifactPut(_) => "artifact.put",
            MessageType::ArtifactFetch(_) => "artifact.fetch",
            MessageType::ArtifactRef(_) => "artifact.ref",
            MessageType::ArtifactRelease(_) => "artifact.release",
            MessageType::EventEmit(_) => "event.emit",
            MessageType::Log(_) => "log",
            MessageType::Metric(_) => "metric",
            MessageType::TraceSpan(_) => "trace.span",
        }
    }

    /// True for the handshake messages allowed before `session.accepted`.
    pub fn is_handshake(&self) -> (r: bool)
        ensures
            r == message_is_handshake(*self),
    {
        match self {
            MessageType::SessionOpen(_)
            | MessageType::SessionChallenge(_)
            | MessageType::SessionAuthenticate(_)
            | MessageType::SessionAccepted(_)
            | MessageType::SessionUnauthenticated(_)
            | MessageType::SessionRejected(_)
            | MessageType::SessionResume(_)
            | MessageType::SessionResumed(_) => true,
            _ => false,
        }
    }

    /// True if this message participates in `event_seq` numbering and is
    /// therefore subject to `session.ack` flow control.
    pub fn is_countable_event(&self) -> (r: bool)
        ensures
            r == message_is_countable(*self),
    {
        match self {
            MessageType::SessionOpen(_)
            | MessageType::SessionChallenge(_)
            | MessageType::SessionAuthenticate(_)
            | MessageType::SessionAccepted(_)
            | MessageType::SessionUnauthenticated(_)
            | MessageType::SessionRejected(_)
            | MessageType::SessionRefresh(_)
            | MessageType::SessionEvicted(_)
            | MessageType::SessionClose(_)
            | MessageType::SessionClosed(_)
            | MessageType::SessionResume(_)
            | MessageType::SessionResumed(_)
            | MessageType::SessionPing(_)
            | MessageType::SessionPong(_)
            | MessageType::SessionAck(_)
            | MessageType::SessionListJobs(_)
            | MessageType::SessionJobs(_)
            | MessageType::Ping(_)
            | MessageType::Pong(_) => false,
            _ => true,
        }
    }
}

/// Payload for a `ping` message.
#[derive(Debug, Clone, Default, PartialEq, Eq)]
pub struct PingPayload {
    /// Optional nonce, echoed by the `pong`.
    pub nonce: Option<String>,
}

/// Payload for a `pong` message.
#[derive(Debug, Clone, Default, PartialEq, Eq)]
pub struct PongPayload {
    /// Echoed nonce, if the `ping` carried one.
    pub nonce: Option<String>,
}

/// Payload for an `event.emit` message: a named event with opaque data.
#[derive(Debug, Clone, PartialEq)]
pub struct EventEmitPayload {
    /// Event name (a dotted, namespaced identifier).
    pub name: String,
    /// Opaque event data.
    pub data: Option<serde_json::Value>,
}

/// Severity level of a [`LogPayload`].
#[derive(Debug, Clone, Copy, PartialEq, Eq, Hash)]
pub enum LogLevel {
    /// `trace`
    Trace,
    /// `debug`
    Debug,
    /// `info`
    Info,
    /// `warn`
    Warn,
    /// `error`
    Error,
    /// `critical`
    Critical,
}

/// Payload for a `log` message.
#[derive(Debug, Clone, PartialEq)]
pub struct LogPayload {
    /// Severity level.
    pub level: LogLevel,
    /// Human-readable message.
    pub message: String,
    /// Optional structured attributes.
    pub attributes: Option<serde_json::Value>,
}

/// Payload for a `metric` message. The value is an IEEE-754 `f64`
/// carried by its bit pattern (`f64::to_bits`).
#[derive(Debug, Clone, PartialEq)]
pub struct MetricPayload {
    /// Metric name; standard names are in [`standard_names`].
    pub name: String,
    /// Bits of the numeric value.
    pub value_bits: u64,
    /// Unit of measure.
    pub unit: String,
    /// Optional dimensions.
    pub dims: Option<serde_json::Value>,
}

/// Synthetic event name emitted between subscription backfill and the
/// live tail.
pub const SUBSCRIPTION_BACKFILL_COMPLETE: &'static str = "subscription.backfill_complete";

} // verus!
