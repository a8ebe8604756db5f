//! The runtime-wide registry of jobs: their state, the session that
//! submitted them, their event high-water mark, the job listing of
//! `session.list_jobs` and the retention sweep of terminal jobs.
//! Cancellation tokens and task handles belong to the code that runs jobs.

use vstd::prelude::*;

use crate::ids::{JobId, MessageId, SessionId};
use crate::messages::credentials::CredentialId;
use crate::messages::execution::{job_state_terminal, job_state_wire, JobState};
use crate::messages::permissions::LeaseRequest;
use crate::messages::session::{JobListEntry, SessionListJobsFilter};
use crate::runtime::session::text_listed;
use crate::table::{
    lemma_table_entry, lemma_table_filter, lemma_table_push, lemma_table_update, map_keep, table_view,
    table_wf,
};
use crate::text::str_eq;
use crate::time::{utc_lt, UtcTime};

verus! {

broadcast use vstd::string::group_string_axioms;

/// One registered job.
pub struct JobEntry {
    /// The job.
    pub job_id: JobId,
    /// The session that submitted it.
    pub session_id: SessionId,
    /// Id of its `tool.invoke`.
    pub correlation_id: MessageId,
    /// Current state.
    pub state: JobState,
    /// Resolved agent reference.
    pub agent: String,
    /// Submission time.
    pub created_at: UtcTime,
    /// Highest event sequence emitted for the job.
    pub last_event_seq: u64,
    /// Parent job, for delegated jobs.
    pub parent_job_id: Option<JobId>,
    /// Credentials issued for the job.
    pub credential_ids: Vec<CredentialId>,
    /// The lease it runs under.
    pub lease: Option<LeaseRequest>,
    /// When it reached a terminal state.
    pub terminal_at: Option<UtcTime>,
}

/// What the registry records of a job.
pub struct JobRecord {
    /// Submitting session.
    pub session: Seq<char>,
    /// Current state.
    pub state: JobState,
    /// Resolved agent reference.
    pub agent: Seq<char>,
    /// Submission time.
    pub created_at: UtcTime,
    /// Event high-water mark.
    pub last_event_seq: u64,
    /// When it reached a terminal state.
    pub terminal_at: Option<UtcTime>,
    /// Parent job, for delegated jobs.
    pub parent: Option<Seq<char>>,
}

/// The id behind an optional job id.
pub open spec fn opt_job_view(j: Option<JobId>) -> Option<Seq<char>> {
    match j {
        Some(p) => Some(p@),
        None => None,
    }
}

/// The record of an entry.
pub open spec fn record_of(e: JobEntry) -> JobRecord {
    JobRecord {
        session: e.session_id@,
        state: e.state,
        agent: e.agent@,
        created_at: e.created_at,
        last_event_seq: e.last_event_seq,
        terminal_at: e.terminal_at,
        parent: opt_job_view(e.parent_job_id),
    }
}

/// Public-facing state of a job.
#[derive(Debug, Clone)]
pub struct JobSnapshot {
    /// The job.
    pub job_id: JobId,
    /// The session that submitted it.
    pub session_id: SessionId,
    /// Current state.
    pub state: JobState,
    /// Resolved agent reference.
    pub agent: String,
    /// Parent job, for delegated jobs.
    pub parent_job_id: Option<JobId>,
    /// Highest event sequence emitted for the job.
    pub last_event_seq: u64,
    /// Submission time.
    pub created_at: UtcTime,
}

/// A record moved to `state` at `now`: the first terminal state stamps
/// when the job ended.
pub open spec fn with_state(rec: JobRecord, state: JobState, now: UtcTime) -> JobRecord {
    JobRecord {
        state,
        terminal_at: if job_state_terminal(state) && rec.terminal_at is None {
            Some(now)
        } else {
            rec.terminal_at
        },
        ..rec
    }
}

/// A job ends once: moving it to a terminal state stamps its end, and no
/// later move, terminal or not, changes that stamp.
pub proof fn lemma_end_stamped_once(rec: JobRecord, state: JobState, now: UtcTime)
    ensures
        job_state_terminal(state) ==> with_state(rec, state, now).terminal_at is Some,
        rec.terminal_at is Some ==> with_state(rec, state, now).terminal_at == rec.terminal_at,
        with_state(rec, state, now).state == state,
{
}

/// `t + secs` is not later than `now`: a job terminal since `t` has
/// outlived a retention of `secs` seconds.
pub open spec fn retention_elapsed(t: UtcTime, now: UtcTime, secs: u64) -> bool {
    t.secs + secs < now.secs || (t.secs + secs == now.secs && t.nanos <= now.nanos)
}

/// A job that the sweep evicts.
pub open spec fn sweepable(r: JobRecord, now: UtcTime, secs: u64) -> bool {
    r.terminal_at matches Some(t) && retention_elapsed(t, now, secs)
}

/// Whether a job is listed for `session` under `filter`.
pub open spec fn listed(r: JobRecord, session: Seq<char>, filter: Option<SessionListJobsFilter>) -> bool {
    &&& r.session == session
    &&& match filter {
        None => true,
        Some(f) => {
            &&& (f.status.len() == 0 || text_listed(f.status@, job_state_wire(r.state)@))
            &&& (f.agent matches Some(a) ==> a@ == r.agent)
            &&& (f.created_after matches Some(t) ==> utc_lt(t, r.created_at))
            &&& (f.created_before matches Some(t) ==> utc_lt(r.created_at, t))
        },
    }
}

/// The filter behind an optional reference.
pub open spec fn deref_filter(f: Option<&SessionListJobsFilter>) -> Option<SessionListJobsFilter> {
    match f {
        Some(x) => Some(*x),
        None => None,
    }
}

/// The jobs of the runtime.
pub struct JobRegistry {
    entries: Vec<JobEntry>,
}

impl JobRegistry {
    spec fn rows(&self) -> Seq<(Seq<char>, JobRecord)> {
        self.entries@.map_values(|e: JobEntry| (e.job_id@, record_of(e)))
    }

    /// Job id to record.
    pub closed spec fn view(&self) -> Map<Seq<char>, JobRecord> {
        table_view(self.rows())
    }

    /// Invariant: one entry per job id.
    pub closed spec fn wf(&self) -> bool {
        table_wf(self.rows())
    }

    /// No jobs.
    pub fn new() -> (r: Self)
        ensures
            r.wf(),
            r.view() == Map::<Seq<char>, JobRecord>::empty(),
    {
        let r = JobRegistry { entries: Vec::new() };
        assert(r.view() =~= Map::<Seq<char>, JobRecord>::empty());
        r
    }

    /// Number of registered jobs.
    pub fn len(&self) -> (n: usize)
        requires
            self.wf(),
        ensures
            n == self.view().len(),
    {
        proof {
            crate::table::lemma_table_len(self.rows());
        }
        self.entries.len()
    }

    fn find(&self, job_id: &JobId) -> (r: Option<usize>)
        requires
            self.wf(),
        ensures
            match r {
                Some(i) => i < self.rows().len() && self.rows()[i as int].0 == job_id@,
                None => !self.view().contains_key(job_id@),
            },
    {
        let mut i: usize = 0;
        while i < self.entries.len()
            invariant
                i <= self.entries.len(),
                forall|k: int| 0 <= k < i ==> self.rows()[k].0 != job_id@,
            decreases self.entries.len() - i,
        {
            if str_eq(self.entries[i].job_id.as_str(), job_id.as_str()) {
                return Some(i);
            }
            i = i + 1;
        }
        proof {
            if self.view().contains_key(job_id@) {
                let k = choose|k: int| 0 <= k < self.rows().len() && #[trigger] self.rows()[k].0 == job_id@;
                assert(self.rows()[k].0 != job_id@);
            }
        }
        None
    }

    /// Register a job (replacing an entry of the same id).
    pub fn insert(&mut self, entry: JobEntry)
        requires
            old(self).wf(),
        ensures
            final(self).wf(),
            final(self).view() == old(self).view().insert(entry.job_id@, record_of(entry)),
    {
        let ghost key = entry.job_id@;
        let ghost rec = record_of(entry);
        let ghost before = self.rows();
        match self.find(&entry.job_id) {
            Some(i) => {
                self.entries.set(i, entry);
                assert(self.rows() =~= before.update(i as int, (before[i as int].0, rec)));
                proof {
                    lemma_table_update(before, i as int, rec);
                }
            },
            None => {
                self.entries.push(entry);
                assert(self.rows() =~= before.push((key, rec)));
                proof {
                    lemma_table_push(before, key, rec);
                }
            },
        }
    }

    /// Public-facing state of `job_id`, if registered.
    pub fn snapshot(&self, job_id: &JobId) -> (r: Option<JobSnapshot>)
        requires
            self.wf(),
        ensures
            match r {
                Some(s) => self.view().contains_key(job_id@) && {
                    let rec = self.view()[job_id@];
                    &&& s.job_id@ == job_id@
                    &&& s.session_id@ == rec.session
                    &&& s.state == rec.state
                    &&& s.agent@ == rec.agent
                    &&& s.last_event_seq == rec.last_event_seq
                    &&& s.created_at == rec.created_at
                    &&& opt_job_view(s.parent_job_id) == rec.parent
                },
                None => !self.view().contains_key(job_id@),
            },
    {
        match self.find(job_id) {
            Some(i) => {
                proof {
                    lemma_table_entry(self.rows(), i as int);
                }
                let e = &self.entries[i];
                Some(
                    JobSnapshot {
                        job_id: e.job_id.clone(),
                        session_id: e.session_id.clone(),
                        state: e.state,
                        agent: e.agent.clone(),
                        parent_job_id: match &e.parent_job_id {
                            Some(p) => Some(p.clone()),
                            None => None,
                        },
                        last_event_seq: e.last_event_seq,
                        created_at: e.created_at,
                    },
                )
            },
            None => None,
        }
    }

    /// End `job_id` in the terminal `state` at `now` (see [`Self::set_state`])
    /// and say whether this is the job's first end: only then is its
    /// terminal message sent, so a job gets at most one.
    pub fn end_job(&mut self, job_id: &JobId, state: JobState, now: UtcTime) -> (first: bool)
        requires
            old(self).wf(),
            job_state_terminal(state),
        ensures
            final(self).wf(),
            !old(self).view().contains_key(job_id@) ==> final(self).view() == old(self).view(),
            old(self).view().contains_key(job_id@) ==> final(self).view() == old(self).view().insert(
                job_id@,
                with_state(old(self).view()[job_id@], state, now),
            ),
            first == (old(self).view().contains_key(job_id@) && old(self).view()[job_id@].terminal_at is None),
            final(self).view().contains_key(job_id@) ==> final(self).view()[job_id@].terminal_at is Some,
    {
        let first = match self.find(job_id) {
            Some(i) => {
                proof {
                    lemma_table_entry(self.rows(), i as int);
                }
                self.entries[i].terminal_at.is_none()
            },
            None => false,
        };
        self.set_state(job_id, state, now);
        first
    }

    /// Move `job_id` to `state` at `now`; the first terminal state also
    /// stamps when the job ended. An unknown job is ignored.
    pub fn set_state(&mut self, job_id: &JobId, state: JobState, now: UtcTime)
        requires
            old(self).wf(),
        ensures
            final(self).wf(),
            !old(self).view().contains_key(job_id@) ==> final(self).view() == old(self).view(),
            old(self).view().contains_key(job_id@) ==> final(self).view() == old(self).view().insert(
                job_id@,
                with_state(old(self).view()[job_id@], state, now),
            ),
    {
        match self.find(job_id) {
            None => {},
            Some(i) => {
                let ghost before = self.rows();
                proof {
                    lemma_table_entry(before, i as int);
                }
                let mut e = self.entries.remove(i);
                e.state = state;
                if state.is_terminal() && e.terminal_at.is_none() {
                    e.terminal_at = Some(now);
                }
                let ghost rec = record_of(e);
                self.entries.insert(i, e);
                assert(self.rows() =~= before.update(i as int, (before[i as int].0, rec)));
                proof {
                    lemma_table_update(before, i as int, rec);
                }
            },
        }
    }

    /// Whether `job_id` can still be cancelled: it is registered and not
    /// in a terminal state.
    pub fn cancel(&self, job_id: &JobId) -> (in_flight: bool)
        requires
            self.wf(),
        ensures
            in_flight == (self.view().contains_key(job_id@) && !job_state_terminal(
                self.view()[job_id@].state,
            )),
    {
        match self.find(job_id) {
            None => false,
            Some(i) => {
                proof {
                    lemma_table_entry(self.rows(), i as int);
                }
                !self.entries[i].state.is_terminal()
            },
        }
    }

    /// Raise the event high-water mark of `job_id` to `seq` (it never
    /// goes down). An unknown job is ignored.
    pub fn record_event_seq(&mut self, job_id: &JobId, seq: u64)
        requires
            old(self).wf(),
        ensures
            final(self).wf(),
            !old(self).view().contains_key(job_id@) ==> final(self).view() == old(self).view(),
            old(self).view().contains_key(job_id@) ==> {
                let rec = old(self).view()[job_id@];
                final(self).view() == old(self).view().insert(
                    job_id@,
                    JobRecord {
                        last_event_seq: if seq > rec.last_event_seq {
                            seq
                        } else {
                            rec.last_event_seq
                        },
                        ..rec
                    },
                )
            },
    {
        match self.find(job_id) {
            None => {},
            Some(i) => {
                let ghost before = self.rows();
                proof {
                    lemma_table_entry(before, i as int);
                }
                let mut e = self.entries.remove(i);
                if seq > e.last_event_seq {
                    e.last_event_seq = seq;
                }
                let ghost rec = record_of(e);
                self.entries.insert(i, e);
                assert(self.rows() =~= before.update(i as int, (before[i as int].0, rec)));
                proof {
                    lemma_table_update(before, i as int, rec);
                }
            },
        }
    }

    /// The jobs, in registration order.
    pub closed spec fn ordered(&self) -> Seq<(Seq<char>, JobRecord)> {
        self.rows()
    }

    /// The map view is the ordered rows read as a map, one row per job.
    pub proof fn lemma_ordered_is_view(&self)
        requires
            self.wf(),
        ensures
            table_wf(self.ordered()),
            table_view(self.ordered()) == self.view(),
    {
    }

    /// The jobs of `session` that pass `filter`, as `session.jobs`
    /// entries, in registration order.
    pub fn list_for_session(&self, session: &SessionId, filter: Option<&SessionListJobsFilter>) -> (r: Vec<
        JobListEntry,
    >)
        requires
            self.wf(),
        ensures
            r@.map_values(|e: JobListEntry| list_entry_view(e)) == self.ordered().filter(
                listed_row(session@, deref_filter(filter)),
            ).map_values(|row: (Seq<char>, JobRecord)| row_list_view(row)),
    {
        let ghost p = listed_row(session@, deref_filter(filter));
        let ghost rows = self.rows();
        let mut out: Vec<JobListEntry> = Vec::new();
        let mut i: usize = 0;
        assert(rows.take(0).filter(p) =~= Seq::<(Seq<char>, JobRecord)>::empty()) by {
            reveal(Seq::filter);
        }
        while i < self.entries.len()
            invariant
                i <= self.entries.len(),
                rows == self.rows(),
                p == listed_row(session@, deref_filter(filter)),
                out@.map_values(|e: JobListEntry| list_entry_view(e)) == rows.take(i as int).filter(
                    p,
                ).map_values(|row: (Seq<char>, JobRecord)| row_list_view(row)),
            decreases self.entries.len() - i,
        {
            let e = &self.entries[i];
            assert(rows[i as int] == (e.job_id@, record_of(*e)));
            assert(rows.take(i + 1) =~= rows.take(i as int).push(rows[i as int]));
            proof {
                rows.take(i as int).lemma_filter_push(rows[i as int], p);
            }
            if job_listed(e, session, filter) {
                let status = e.state.wire_str();
                let entry = JobListEntry {
                    job_id: e.job_id.clone(),
                    agent: e.agent.clone(),
                    status: status.to_owned(),
                    parent_job_id: match &e.parent_job_id {
                        Some(q) => Some(q.clone()),
                        None => None,
                    },
                    created_at: e.created_at,
                    trace_id: None,
                    last_event_seq: e.last_event_seq,
                };
                let ghost before = out@;
                out.push(entry);
                assert(out@.map_values(|e: JobListEntry| list_entry_view(e)) =~= before.map_values(
                    |e: JobListEntry| list_entry_view(e),
                ).push(row_list_view(rows[i as int])));
                assert(rows.take(i as int).filter(p).push(rows[i as int]).map_values(
                    |row: (Seq<char>, JobRecord)| row_list_view(row),
                ) =~= rows.take(i as int).filter(p).map_values(
                    |row: (Seq<char>, JobRecord)| row_list_view(row),
                ).push(row_list_view(rows[i as int])));
            }
            i = i + 1;
        }
        assert(rows.take(self.entries.len() as int) =~= rows);
        out
    }

    /// Evict the jobs that ended at least `retention_secs` seconds before
    /// `now`; returns their ids, in registration order.
    pub fn sweep_terminals_older_than(&mut self, now: UtcTime, retention_secs: u64) -> (swept: Vec<JobId>)
        requires
            old(self).wf(),
        ensures
            final(self).wf(),
            final(self).view() == map_keep(old(self).view(), kept_row(now, retention_secs)),
            swept@.map_values(|j: JobId| j@) == old(self).ordered().filter(
                swept_row(now, retention_secs),
            ).map_values(|row: (Seq<char>, JobRecord)| row.0),
    {
        let ghost keep = kept_row(now, retention_secs);
        let ghost gone = swept_row(now, retention_secs);
        let ghost rows = self.rows();
        let mut kept: Vec<JobEntry> = Vec::new();
        let mut swept: Vec<JobId> = Vec::new();
        let mut i: usize = 0;
        assert(rows.take(0).filter(keep) =~= Seq::<(Seq<char>, JobRecord)>::empty()) by {
            reveal(Seq::filter);
        }
        assert(rows.take(0).filter(gone) =~= Seq::<(Seq<char>, JobRecord)>::empty()) by {
            reveal(Seq::filter);
        }
        while i < self.entries.len()
            invariant
                i <= self.entries.len(),
                rows == self.rows(),
                keep == kept_row(now, retention_secs),
                gone == swept_row(now, retention_secs),
                kept@.map_values(|e: JobEntry| (e.job_id@, record_of(e))) == rows.take(i as int).filter(
                    keep,
                ),
                swept@.map_values(|j: JobId| j@) == rows.take(i as int).filter(gone).map_values(
                    |row: (Seq<char>, JobRecord)| row.0,
                ),
            decreases self.entries.len() - i,
        {
            let e = &self.entries[i];
            assert(rows[i as int] == (e.job_id@, record_of(*e)));
            assert(rows.take(i + 1) =~= rows.take(i as int).push(rows[i as int]));
            proof {
                rows.take(i as int).lemma_filter_push(rows[i as int], keep);
                rows.take(i as int).lemma_filter_push(rows[i as int], gone);
            }
            let expired = match e.terminal_at {
                Some(t) => retention_over(t, now, retention_secs),
                None => false,
            };
            if expired {
                let ghost sw = swept@;
                swept.push(e.job_id.clone());
                assert(swept@.map_values(|j: JobId| j@) =~= sw.map_values(|j: JobId| j@).push(e.job_id@));
                assert(rows.take(i as int).filter(gone).push(rows[i as int]).map_values(
                    |row: (Seq<char>, JobRecord)| row.0,
                ) =~= rows.take(i as int).filter(gone).map_values(|row: (Seq<char>, JobRecord)| row.0).push(
                    rows[i as int].0,
                ));
            } else {
                let ghost kp = kept@;
                kept.push(clone_entry(e));
                assert(kept@.map_values(|e: JobEntry| (e.job_id@, record_of(e))) =~= kp.map_values(
                    |e: JobEntry| (e.job_id@, record_of(e)),
                ).push(rows[i as int]));
            }
            i = i + 1;
        }
        assert(rows.take(self.entries.len() as int) =~= rows);
        self.entries = kept;
        proof {
            lemma_table_filter(rows, keep);
        }
        swept
    }
}

/// `session.list_jobs` lists exactly the registered jobs of the session
/// that pass the filter.
pub proof fn lemma_listing_exact(
    rows: Seq<(Seq<char>, JobRecord)>,
    session: Seq<char>,
    filter: Option<SessionListJobsFilter>,
    k: Seq<char>,
)
    requires
        table_wf(rows),
    ensures
        (table_view(rows).contains_key(k) && listed(table_view(rows)[k], session, filter)) <==> exists|i: int|
            0 <= i < rows.filter(listed_row(session, filter)).len() && #[trigger] rows.filter(
                listed_row(session, filter),
            )[i].0 == k,
{
    let p = listed_row(session, filter);
    let f = rows.filter(p);
    broadcast use vstd::seq_lib::group_filter_ensures;
    crate::table::lemma_filter_subset(rows, p);
    if table_view(rows).contains_key(k) && listed(table_view(rows)[k], session, filter) {
        let j = choose|j: int| 0 <= j < rows.len() && #[trigger] rows[j].0 == k;
        lemma_table_entry(rows, j);
        assert(f.contains(rows[j]));
        let i = choose|i: int| 0 <= i < f.len() && f[i] == rows[j];
        assert(f[i].0 == k);
    }
    if exists|i: int| 0 <= i < f.len() && #[trigger] f[i].0 == k {
        let i = choose|i: int| 0 <= i < f.len() && #[trigger] f[i].0 == k;
        assert(f.contains(f[i]));
        let j = choose|j: int| 0 <= j < rows.len() && rows[j] == f[i];
        lemma_table_entry(rows, j);
    }
}

/// The `session.jobs` entry view: job id, agent, status, creation time
/// and event high-water mark.
pub open spec fn list_entry_view(e: JobListEntry) -> (
    Seq<char>,
    Seq<char>,
    Seq<char>,
    UtcTime,
    u64,
    Option<Seq<char>>,
    bool,
) {
    (e.job_id@, e.agent@, e.status@, e.created_at, e.last_event_seq, opt_job_view(e.parent_job_id), e.trace_id is None)
}

/// The listing entry a registered job gives.
pub open spec fn row_list_view(row: (Seq<char>, JobRecord)) -> (
    Seq<char>,
    Seq<char>,
    Seq<char>,
    UtcTime,
    u64,
    Option<Seq<char>>,
    bool,
) {
    (row.0, row.1.agent, job_state_wire(row.1.state)@, row.1.created_at, row.1.last_event_seq, row.1.parent, true)
}

/// The test "listed for `session` under `filter`" on a row.
pub open spec fn listed_row(session: Seq<char>, filter: Option<SessionListJobsFilter>) -> spec_fn(
    (Seq<char>, JobRecord),
) -> bool {
    |row: (Seq<char>, JobRecord)| listed(row.1, session, filter)
}

/// The test "survives the sweep" on a row.
pub open spec fn kept_row(now: UtcTime, secs: u64) -> spec_fn((Seq<char>, JobRecord)) -> bool {
    |row: (Seq<char>, JobRecord)| !sweepable(row.1, now, secs)
}

/// The test "evicted by the sweep" on a row.
pub open spec fn swept_row(now: UtcTime, secs: u64) -> spec_fn((Seq<char>, JobRecord)) -> bool {
    |row: (Seq<char>, JobRecord)| sweepable(row.1, now, secs)
}

/// A copy of a job entry with the same record.
fn clone_entry(e: &JobEntry) -> (r: JobEntry)
    ensures
        r.job_id@ == e.job_id@,
        record_of(r) == record_of(*e),
{
    JobEntry {
        job_id: e.job_id.clone(),
        session_id: e.session_id.clone(),
        correlation_id: e.correlation_id.clone(),
        state: e.state,
        agent: e.agent.clone(),
        created_at: e.created_at,
        last_event_seq: e.last_event_seq,
        parent_job_id: match &e.parent_job_id {
            Some(q) => Some(q.clone()),
            None => None,
        },
        credential_ids: clone_cred_ids(&e.credential_ids),
        lease: match &e.lease {
            Some(l) => Some(l.clone_lease()),
            None => None,
        },
        terminal_at: e.terminal_at,
    }
}

fn clone_cred_ids(v: &Vec<CredentialId>) -> (r: Vec<CredentialId>)
    ensures
        r@.len() == v@.len(),
        forall|k: int| 0 <= k < v@.len() ==> #[trigger] r@[k]@ == v@[k]@,
{
    let mut out: Vec<CredentialId> = Vec::new();
    let mut i: usize = 0;
    while i < v.len()
        invariant
            i <= v.len(),
            out.len() == i,
            forall|k: int| 0 <= k < i ==> #[trigger] out@[k]@ == v@[k]@,
        decreases v.len() - i,
    {
        out.push(v[i].clone());
        i = i + 1;
    }
    out
}

/// Whether entry `e` is listed for `session` under `filter`.
fn job_listed(e: &JobEntry, session: &SessionId, filter: Option<&SessionListJobsFilter>) -> (r: bool)
    ensures
        r == listed(record_of(*e), session@, deref_filter(filter)),
{
    if !str_eq(e.session_id.as_str(), session.as_str()) {
        return false;
    }
    let f = match filter {
        None => {
            return true;
        },
        Some(f) => f,
    };
    if f.status.len() > 0 {
        let wire = e.state.wire_str();
        let mut found = false;
        let mut i: usize = 0;
        while i < f.status.len()
            invariant
                i <= f.status.len(),
                found == exists|k: int| 0 <= k < i && #[trigger] f.status@[k]@ == wire@,
            decreases f.status.len() - i,
        {
            if str_eq(f.status[i].as_str(), wire) {
                found = true;
            }
            i = i + 1;
        }
        if !found {
            return false;
        }
    }
    match &f.agent {
        Some(a) => if !str_eq(a.as_str(), e.agent.as_str()) {
            return false;
        },
        None => {},
    }
    match &f.created_after {
        Some(t) => if !t.lt(&e.created_at) {
            return false;
        },
        None => {},
    }
    match &f.created_before {
        Some(t) => if !e.created_at.lt(t) {
            return false;
        },
        None => {},
    }
    true
}

/// Whether a job terminal since `t` has outlived `secs` seconds at `now`.
pub fn retention_over(t: UtcTime, now: UtcTime, secs: u64) -> (r: bool)
    ensures
        r == retention_elapsed(t, now, secs),
{
    let end: i128 = t.secs as i128 + secs as i128;
    let n: i128 = now.secs as i128;
    end < n || (end == n && t.nanos <= now.nanos)
}

/// The sweep keeps every job that has not ended, and every job that ended
/// less than the retention ago, and drops every other one.
pub proof fn lemma_sweep_keeps_live_jobs(m: Map<Seq<char>, JobRecord>, now: UtcTime, secs: u64, k: Seq<char>)
    requires
        m.contains_key(k),
    ensures
        map_keep(m, kept_row(now, secs)).contains_key(k) <==> (m[k].terminal_at is None
            || !retention_elapsed(m[k].terminal_at->0, now, secs)),
{
}

} // verus!
