//! Subscription filters and the registry of active subscriptions.
//!
//! A filter is AND across its clauses and OR within a list-valued clause;
//! an empty list places no condition.

use vstd::prelude::*;

use crate::envelope::{Envelope, Priority};
use crate::ids::{JobId, SessionId, StreamId, SubscriptionId, TraceId};
use crate::messages::subscriptions::SubscriptionFilter;
use crate::messages::message_type_name;
use crate::table::lemma_filter_subset;
use crate::text::str_eq;

verus! {

broadcast use vstd::string::group_string_axioms;

/// Rank of a priority: `low < normal < high < critical`.
pub open spec fn priority_rank_spec(p: Priority) -> u8 {
    match p {
        Priority::Low => 0,
        Priority::Normal => 1,
        Priority::High => 2,
        Priority::Critical => 3,
    }
}

/// Rank of a priority, for `min_priority` comparisons.
pub fn priority_rank(p: Priority) -> (r: u8)
    ensures
        r == priority_rank_spec(p),
{
    match p {
        Priority::Low => 0,
        Priority::Normal => 1,
        Priority::High => 2,
        Priority::Critical => 3,
    }
}

/// A list-valued clause holds: the list is empty, or the envelope carries
/// a value that is in it.
pub open spec fn clause_holds(list: Seq<Seq<char>>, value: Option<Seq<char>>) -> bool {
    list.len() == 0 || (value matches Some(v) && list.contains(v))
}

/// Views of the session ids of a list.
pub open spec fn session_ids(v: Seq<SessionId>) -> Seq<Seq<char>> {
    v.map_values(|x: SessionId| x@)
}

/// Views of the trace ids of a list.
pub open spec fn trace_ids(v: Seq<TraceId>) -> Seq<Seq<char>> {
    v.map_values(|x: TraceId| x@)
}

/// Views of the job ids of a list.
pub open spec fn job_ids(v: Seq<JobId>) -> Seq<Seq<char>> {
    v.map_values(|x: JobId| x@)
}

/// Views of the stream ids of a list.
pub open spec fn stream_ids(v: Seq<StreamId>) -> Seq<Seq<char>> {
    v.map_values(|x: StreamId| x@)
}

/// View of an optional session id.
pub open spec fn opt_session(x: Option<SessionId>) -> Option<Seq<char>> {
    match x {
        Some(s) => Some(s@),
        None => None,
    }
}

/// View of an optional trace id.
pub open spec fn opt_trace(x: Option<TraceId>) -> Option<Seq<char>> {
    match x {
        Some(s) => Some(s@),
        None => None,
    }
}

/// View of an optional job id.
pub open spec fn opt_job(x: Option<JobId>) -> Option<Seq<char>> {
    match x {
        Some(s) => Some(s@),
        None => None,
    }
}

/// View of an optional stream id.
pub open spec fn opt_stream(x: Option<StreamId>) -> Option<Seq<char>> {
    match x {
        Some(s) => Some(s@),
        None => None,
    }
}

/// `envelope` satisfies `filter`.
pub open spec fn filter_matches(filter: SubscriptionFilter, envelope: Envelope) -> bool {
    &&& clause_holds(session_ids(filter.session_id@), opt_session(envelope.session_id))
    &&& clause_holds(trace_ids(filter.trace_id@), opt_trace(envelope.trace_id))
    &&& clause_holds(job_ids(filter.job_id@), opt_job(envelope.job_id))
    &&& clause_holds(stream_ids(filter.stream_id@), opt_stream(envelope.stream_id))
    &&& clause_holds(
        filter.types@.map_values(|t: String| t@),
        Some(message_type_name(envelope.payload)@),
    )
    &&& match filter.min_priority {
        Some(min) => priority_rank_spec(envelope.priority) >= priority_rank_spec(min),
        None => true,
    }
}

fn session_clause(list: &Vec<SessionId>, value: &Option<SessionId>) -> (r: bool)
    ensures
        r == clause_holds(session_ids(list@), opt_session(*value)),
{
    if list.len() == 0 {
        return true;
    }
    match value {
        None => false,
        Some(v) => {
            let mut i: usize = 0;
            while i < list.len()
                invariant
                    i <= list.len(),
                    opt_session(*value) == Some(v@),
                    forall|k: int| 0 <= k < i ==> list@[k]@ != v@,
                decreases list.len() - i,
            {
                if str_eq(list[i].as_str(), v.as_str()) {
                    assert(session_ids(list@)[i as int] == v@);
                    assert(session_ids(list@).contains(v@));
                    return true;
                }
                i = i + 1;
            }
            assert(!session_ids(list@).contains(v@));
            false
        },
    }
}

fn trace_clause(list: &Vec<TraceId>, value: &Option<TraceId>) -> (r: bool)
    ensures
        r == clause_holds(trace_ids(list@), opt_trace(*value)),
{
    if list.len() == 0 {
        return true;
    }
    match value {
        None => false,
        Some(v) => {
            let mut i: usize = 0;
            while i < list.len()
                invariant
                    i <= list.len(),
                    opt_trace(*value) == Some(v@),
                    forall|k: int| 0 <= k < i ==> list@[k]@ != v@,
                decreases list.len() - i,
            {
                if str_eq(list[i].as_str(), v.as_str()) {
                    assert(trace_ids(list@)[i as int] == v@);
                    assert(trace_ids(list@).contains(v@));
                    return true;
                }
                i = i + 1;
            }
            assert(!trace_ids(list@).contains(v@));
            false
        },
    }
}

fn job_clause(list: &Vec<JobId>, value: &Option<JobId>) -> (r: bool)
    ensures
        r == clause_holds(job_ids(list@), opt_job(*value)),
{
    if list.len() == 0 {
        return true;
    }
    match value {
        None => false,
        Some(v) => {
            let mut i: usize = 0;
            while i < list.len()
                invariant
                    i <= list.len(),
                    opt_job(*value) == Some(v@),
                    forall|k: int| 0 <= k < i ==> list@[k]@ != v@,
                decreases list.len() - i,
            {
                if str_eq(list[i].as_str(), v.as_str()) {
                    assert(job_ids(list@)[i as int] == v@);
                    assert(job_ids(list@).contains(v@));
                    return true;
                }
                i = i + 1;
            }
            assert(!job_ids(list@).contains(v@));
            false
        },
    }
}

fn stream_clause(list: &Vec<StreamId>, value: &Option<StreamId>) -> (r: bool)
    ensures
        r == clause_holds(stream_ids(list@), opt_stream(*value)),
{
    if list.len() == 0 {
        return true;
    }
    match value {
        None => false,
        Some(v) => {
            let mut i: usize = 0;
            while i < list.len()
                invariant
                    i <= list.len(),
                    opt_stream(*value) == Some(v@),
                    forall|k: int| 0 <= k < i ==> list@[k]@ != v@,
                decreases list.len() - i,
            {
                if str_eq(list[i].as_str(), v.as_str()) {
                    assert(stream_ids(list@)[i as int] == v@);
                    assert(stream_ids(list@).contains(v@));
                    return true;
                }
                i = i + 1;
            }
            assert(!stream_ids(list@).contains(v@));
            false
        },
    }
}

fn type_clause(list: &Vec<String>, name: &str) -> (r: bool)
    ensures
        r == clause_holds(list@.map_values(|t: String| t@), Some(name@)),
{
    if list.len() == 0 {
        return true;
    }
    let mut i: usize = 0;
    while i < list.len()
        invariant
            i <= list.len(),
            forall|k: int| 0 <= k < i ==> list@[k]@ != name@,
        decreases list.len() - i,
    {
        if str_eq(list[i].as_str(), name) {
            assert(list@.map_values(|t: String| t@)[i as int] == name@);
            assert(list@.map_values(|t: String| t@).contains(name@));
            return true;
        }
        i = i + 1;
    }
    assert(!list@.map_values(|t: String| t@).contains(name@));
    false
}

/// True if `envelope` satisfies `filter` (AND across clauses, OR within
/// a list-valued clause).
pub fn matches(filter: &SubscriptionFilter, envelope: &Envelope) -> (r: bool)
    ensures
        r == filter_matches(*filter, *envelope),
{
    if !session_clause(&filter.session_id, &envelope.session_id) {
        return false;
    }
    if !trace_clause(&filter.trace_id, &envelope.trace_id) {
        return false;
    }
    if !job_clause(&filter.job_id, &envelope.job_id) {
        return false;
    }
    if !stream_clause(&filter.stream_id, &envelope.stream_id) {
        return false;
    }
    if !type_clause(&filter.types, envelope.payload.wire_name()) {
        return false;
    }
    match filter.min_priority {
        Some(min) => priority_rank(envelope.priority) >= priority_rank(min),
        None => true,
    }
}

/// Priorities are ranked strictly `low < normal < high < critical`.
pub proof fn lemma_priority_order()
    ensures
        priority_rank_spec(Priority::Low) < priority_rank_spec(Priority::Normal),
        priority_rank_spec(Priority::Normal) < priority_rank_spec(Priority::High),
        priority_rank_spec(Priority::High) < priority_rank_spec(Priority::Critical),
{
}

/// A `min_priority` floor filters out every envelope ranked below it and
/// lets through, as far as priority goes, one at the floor or above: such
/// an envelope matches exactly when it matches the same filter without a
/// floor.
pub proof fn lemma_priority_floor(filter: SubscriptionFilter, envelope: Envelope, min: Priority)
    requires
        filter.min_priority == Some(min),
    ensures
        ((min is Normal && envelope.priority is Low) || (min is High && (envelope.priority is Low
            || envelope.priority is Normal)) || (min is Critical && !(envelope.priority is Critical)))
            ==> !filter_matches(filter, envelope),
        (envelope.priority == min || envelope.priority is Critical || min is Low) ==> (filter_matches(
            filter,
            envelope,
        ) == filter_matches(SubscriptionFilter { min_priority: None, ..filter }, envelope)),
        (min is Normal && envelope.priority is High) ==> (filter_matches(filter, envelope) == filter_matches(
            SubscriptionFilter { min_priority: None, ..filter },
            envelope,
        )),
{
}

/// A subscription filter prepared once at registration and applied to
/// every envelope of the live tail.
#[derive(Debug, Clone)]
pub struct CompiledFilter {
    filter: SubscriptionFilter,
}

impl CompiledFilter {
    /// The wire filter this one applies.
    pub closed spec fn source(&self) -> SubscriptionFilter {
        self.filter
    }

    /// Prepare `filter`.
    pub fn from_wire(filter: &SubscriptionFilter) -> (c: Self)
        ensures
            session_ids(c.source().session_id@) == session_ids(filter.session_id@),
            trace_ids(c.source().trace_id@) == trace_ids(filter.trace_id@),
            job_ids(c.source().job_id@) == job_ids(filter.job_id@),
            stream_ids(c.source().stream_id@) == stream_ids(filter.stream_id@),
            c.source().types@.map_values(|t: String| t@) == filter.types@.map_values(|t: String| t@),
            c.source().min_priority == filter.min_priority,
    {
        CompiledFilter {
            filter: SubscriptionFilter {
                session_id: clone_session_ids(&filter.session_id),
                trace_id: clone_trace_ids(&filter.trace_id),
                job_id: clone_job_ids(&filter.job_id),
                stream_id: clone_stream_ids(&filter.stream_id),
                types: clone_strings(&filter.types),
                min_priority: filter.min_priority,
            },
        }
    }

    /// True if `envelope` satisfies the filter.
    pub fn matches(&self, envelope: &Envelope) -> (r: bool)
        ensures
            r == filter_matches(self.source(), *envelope),
    {
        matches(&self.filter, envelope)
    }
}

/// A prepared filter decides exactly as the wire filter it came from.
pub proof fn lemma_compiled_filter_agrees(filter: SubscriptionFilter, compiled: CompiledFilter, envelope: Envelope)
    requires
        session_ids(compiled.source().session_id@) == session_ids(filter.session_id@),
        trace_ids(compiled.source().trace_id@) == trace_ids(filter.trace_id@),
        job_ids(compiled.source().job_id@) == job_ids(filter.job_id@),
        stream_ids(compiled.source().stream_id@) == stream_ids(filter.stream_id@),
        compiled.source().types@.map_values(|t: String| t@) == filter.types@.map_values(
            |t: String| t@,
        ),
        compiled.source().min_priority == filter.min_priority,
    ensures
        filter_matches(compiled.source(), envelope) == filter_matches(filter, envelope),
{
}

/// The empty filter lets every envelope through.
pub proof fn lemma_empty_filter_matches_all(filter: SubscriptionFilter, envelope: Envelope)
    requires
        filter.session_id.len() == 0,
        filter.trace_id.len() == 0,
        filter.job_id.len() == 0,
        filter.stream_id.len() == 0,
        filter.types.len() == 0,
        filter.min_priority is None,
    ensures
        filter_matches(filter, envelope),
{
}

fn clone_session_ids(v: &Vec<SessionId>) -> (r: Vec<SessionId>)
    ensures
        session_ids(r@) == session_ids(v@),
{
    let mut out: Vec<SessionId> = Vec::new();
    let mut i: usize = 0;
    while i < v.len()
        invariant
            i <= v.len(),
            out.len() == i,
            forall|k: int| 0 <= k < i ==> #[trigger] out@[k]@ == v@[k]@,
        decreases v.len() - i,
    {
        out.push(v[i].clone());
        i = i + 1;
    }
    assert(session_ids(out@) =~= session_ids(v@));
    out
}

fn clone_trace_ids(v: &Vec<TraceId>) -> (r: Vec<TraceId>)
    ensures
        trace_ids(r@) == trace_ids(v@),
{
    let mut out: Vec<TraceId> = Vec::new();
    let mut i: usize = 0;
    while i < v.len()
        invariant
            i <= v.len(),
            out.len() == i,
            forall|k: int| 0 <= k < i ==> #[trigger] out@[k]@ == v@[k]@,
        decreases v.len() - i,
    {
        out.push(v[i].clone());
        i = i + 1;
    }
    assert(trace_ids(out@) =~= trace_ids(v@));
    out
}

fn clone_job_ids(v: &Vec<JobId>) -> (r: Vec<JobId>)
    ensures
        job_ids(r@) == job_ids(v@),
{
    let mut out: Vec<JobId> = Vec::new();
    let mut i: usize = 0;
    while i < v.len()
        invariant
            i <= v.len(),
            out.len() == i,
            forall|k: int| 0 <= k < i ==> #[trigger] out@[k]@ == v@[k]@,
        decreases v.len() - i,
    {
        out.push(v[i].clone());
        i = i + 1;
    }
    assert(job_ids(out@) =~= job_ids(v@));
    out
}

fn clone_stream_ids(v: &Vec<StreamId>) -> (r: Vec<StreamId>)
    ensures
        stream_ids(r@) == stream_ids(v@),
{
    let mut out: Vec<StreamId> = Vec::new();
    let mut i: usize = 0;
    while i < v.len()
        invariant
            i <= v.len(),
            out.len() == i,
            forall|k: int| 0 <= k < i ==> #[trigger] out@[k]@ == v@[k]@,
        decreases v.len() - i,
    {
        out.push(v[i].clone());
        i = i + 1;
    }
    assert(stream_ids(out@) =~= stream_ids(v@));
    out
}

fn clone_strings(v: &Vec<String>) -> (r: Vec<String>)
    ensures
        r@.map_values(|t: String| t@) == v@.map_values(|t: String| t@),
{
    let mut out: Vec<String> = Vec::new();
    let mut i: usize = 0;
    while i < v.len()
        invariant
            i <= v.len(),
            out.len() == i,
            forall|k: int| 0 <= k < i ==> #[trigger] out@[k]@ == v@[k]@,
        decreases v.len() - i,
    {
        out.push(v[i].clone());
        i = i + 1;
    }
    assert(out@.map_values(|t: String| t@) =~= v@.map_values(|t: String| t@));
    out
}

// ---------------------------------------------------------------------
// The registry of active subscriptions
// ---------------------------------------------------------------------

/// One active subscription.
#[derive(Debug, Clone)]
struct ActiveSubscription {
    id: SubscriptionId,
    filter: SubscriptionFilter,
    session_id: SessionId,
}

/// The active subscriptions, each with the session that owns it. Envelope
/// delivery (the broadcast bus) belongs to the code that runs connections;
/// this registry decides which subscriptions exist.
#[derive(Debug, Clone)]
pub struct SubscriptionManager {
    subs: Vec<ActiveSubscription>,
}

/// The test "is not subscription `id`".
pub open spec fn other_id(id: Seq<char>) -> spec_fn((Seq<char>, Seq<char>)) -> bool {
    |e: (Seq<char>, Seq<char>)| e.0 != id
}

/// The test "is not owned by `session`".
pub open spec fn other_session(session: Seq<char>) -> spec_fn((Seq<char>, Seq<char>)) -> bool {
    |e: (Seq<char>, Seq<char>)| e.1 != session
}

/// The subscriptions without those of id `id`.
pub open spec fn without_id(s: Seq<(Seq<char>, Seq<char>)>, id: Seq<char>) -> Seq<(Seq<char>, Seq<char>)> {
    s.filter(other_id(id))
}

/// The subscriptions without those owned by `session`.
pub open spec fn without_session(s: Seq<(Seq<char>, Seq<char>)>, session: Seq<char>) -> Seq<
    (Seq<char>, Seq<char>),
> {
    s.filter(other_session(session))
}

/// Whether a subscription of id `id` exists.
pub open spec fn has_id(s: Seq<(Seq<char>, Seq<char>)>, id: Seq<char>) -> bool {
    exists|i: int| 0 <= i < s.len() && #[trigger] s[i].0 == id
}

impl SubscriptionManager {
    /// The active subscriptions as `(subscription id, owning session)`
    /// pairs, oldest first.
    pub closed spec fn view(&self) -> Seq<(Seq<char>, Seq<char>)> {
        self.subs@.map_values(|a: ActiveSubscription| (a.id@, a.session_id@))
    }

    /// An empty registry.
    pub fn new() -> (m: Self)
        ensures
            m.view() == Seq::<(Seq<char>, Seq<char>)>::empty(),
    {
        let m = SubscriptionManager { subs: Vec::new() };
        assert(m.view() =~= Seq::<(Seq<char>, Seq<char>)>::empty());
        m
    }

    /// Keep the subscriptions whose id differs from `id`; says whether one
    /// was dropped.
    fn remove_id(&mut self, id: &str) -> (removed: bool)
        ensures
            final(self).view() == without_id(old(self).view(), id@),
            removed == has_id(old(self).view(), id@),
    {
        let mut old_subs: Vec<ActiveSubscription> = Vec::new();
        std::mem::swap(&mut old_subs, &mut self.subs);
        let ghost before = old_subs@.map_values(|a: ActiveSubscription| (a.id@, a.session_id@));
        let ghost pred = other_id(id@);
        let mut kept: Vec<ActiveSubscription> = Vec::new();
        let mut removed = false;
        let mut i: usize = 0;
        assert(before.take(0).filter(pred) =~= Seq::<(Seq<char>, Seq<char>)>::empty()) by {
            reveal(Seq::filter);
        }
        while i < old_subs.len()
            invariant
                i <= old_subs.len(),
                before == old_subs@.map_values(|a: ActiveSubscription| (a.id@, a.session_id@)),
                pred == other_id(id@),
                kept@.map_values(|a: ActiveSubscription| (a.id@, a.session_id@)) == before.take(
                    i as int,
                ).filter(pred),
                removed == has_id(before.take(i as int), id@),
            decreases old_subs.len() - i,
        {
            let a = old_subs[i].clone_entry();
            assert(before.take(i + 1) =~= before.take(i as int).push(before[i as int]));
            proof {
                before.take(i as int).lemma_filter_push(before[i as int], pred);
            }
            if str_eq(a.id.as_str(), id) {
                removed = true;
                assert(before.take(i + 1)[i as int].0 == id@);
                proof {
                    assert(before.take(i + 1)[i as int].0 == id@);
                }
            } else {
                let ghost kept_before = kept@;
                kept.push(a);
                assert(kept@.map_values(|a: ActiveSubscription| (a.id@, a.session_id@)) =~= kept_before.map_values(
                    |a: ActiveSubscription| (a.id@, a.session_id@),
                ).push(before[i as int]));
                proof {
                    if !removed {
                        assert forall|k: int| 0 <= k < i + 1 implies #[trigger] before.take(i + 1)[k].0
                            != id@ by {
                            if k < i {
                                assert(before.take(i as int)[k] == before.take(i + 1)[k]);
                            }
                        }
                    } else {
                        let k = choose|k: int| 0 <= k < i && #[trigger] before.take(i as int)[k].0 == id@;
                        assert(before.take(i + 1)[k].0 == id@);
                    }
                }
            }
            i = i + 1;
        }
        assert(before.take(old_subs.len() as int) =~= before);
        self.subs = kept;
        removed
    }

    /// Register a subscription of `session_id` with a fresh id; returns the
    /// id and the prepared filter for its receiver. (A fresh id that
    /// happened to equal an existing one replaces that subscription.)
    pub fn register(&mut self, filter: SubscriptionFilter, session_id: SessionId) -> (r: (
        SubscriptionId,
        CompiledFilter,
    ))
        ensures
            final(self).view() == without_id(old(self).view(), r.0@).push((r.0@, session_id@)),
            session_ids(r.1.source().session_id@) == session_ids(filter.session_id@),
            trace_ids(r.1.source().trace_id@) == trace_ids(filter.trace_id@),
            job_ids(r.1.source().job_id@) == job_ids(filter.job_id@),
            stream_ids(r.1.source().stream_id@) == stream_ids(filter.stream_id@),
            r.1.source().types@.map_values(|t: String| t@) == filter.types@.map_values(
                |t: String| t@,
            ),
            r.1.source().min_priority == filter.min_priority,
    {
        let id = SubscriptionId::new();
        let compiled = CompiledFilter::from_wire(&filter);
        let _ = self.remove_id(id.as_str());
        let ghost before = self.subs@;
        let entry = ActiveSubscription { id: id.clone(), filter, session_id };
        self.subs.push(entry);
        assert(self.view() =~= before.map_values(|a: ActiveSubscription| (a.id@, a.session_id@)).push(
            (id@, session_id@),
        ));
        (id, compiled)
    }

    /// Tear down subscription `id`; says whether it existed.
    pub fn unsubscribe(&mut self, id: &SubscriptionId) -> (existed: bool)
        ensures
            existed == has_id(old(self).view(), id@),
            final(self).view() == without_id(old(self).view(), id@),
    {
        self.remove_id(id.as_str())
    }

    /// Drop every subscription owned by `session_id`.
    pub fn drop_session(&mut self, session_id: &SessionId)
        ensures
            final(self).view() == without_session(old(self).view(), session_id@),
    {
        let mut old_subs: Vec<ActiveSubscription> = Vec::new();
        std::mem::swap(&mut old_subs, &mut self.subs);
        let ghost before = old_subs@.map_values(|a: ActiveSubscription| (a.id@, a.session_id@));
        let ghost pred = other_session(session_id@);
        let mut kept: Vec<ActiveSubscription> = Vec::new();
        let mut i: usize = 0;
        assert(before.take(0).filter(pred) =~= Seq::<(Seq<char>, Seq<char>)>::empty()) by {
            reveal(Seq::filter);
        }
        while i < old_subs.len()
            invariant
                i <= old_subs.len(),
                before == old_subs@.map_values(|a: ActiveSubscription| (a.id@, a.session_id@)),
                pred == other_session(session_id@),
                kept@.map_values(|a: ActiveSubscription| (a.id@, a.session_id@)) == before.take(
                    i as int,
                ).filter(pred),
            decreases old_subs.len() - i,
        {
            let a = old_subs[i].clone_entry();
            assert(before.take(i + 1) =~= before.take(i as int).push(before[i as int]));
            proof {
                before.take(i as int).lemma_filter_push(before[i as int], pred);
            }
            if !str_eq(a.session_id.as_str(), session_id.as_str()) {
                let ghost kept_before = kept@;
                kept.push(a);
                assert(kept@.map_values(|a: ActiveSubscription| (a.id@, a.session_id@)) =~= kept_before.map_values(
                    |a: ActiveSubscription| (a.id@, a.session_id@),
                ).push(before[i as int]));
            }
            i = i + 1;
        }
        assert(before.take(old_subs.len() as int) =~= before);
        self.subs = kept;
    }

    /// Number of active subscriptions.
    pub fn len(&self) -> (n: usize)
        ensures
            n == self.view().len(),
    {
        self.subs.len()
    }

    /// True if no subscription is active.
    pub fn is_empty(&self) -> (r: bool)
        ensures
            r == (self.view().len() == 0),
    {
        self.subs.len() == 0
    }
}

impl ActiveSubscription {
    fn clone_entry(&self) -> (r: Self)
        ensures
            r.id@ == self.id@,
            r.session_id@ == self.session_id@,
    {
        ActiveSubscription {
            id: self.id.clone(),
            filter: self.filter.clone(),
            session_id: self.session_id.clone(),
        }
    }
}

/// Unsubscribing undoes a registration: right after `register` returned
/// `id`, `unsubscribe(id)` finds it and leaves exactly the subscriptions
/// that were there before, except any that shared that id.
pub proof fn lemma_unsubscribe_undoes_register(
    before: Seq<(Seq<char>, Seq<char>)>,
    id: Seq<char>,
    session: Seq<char>,
)
    ensures
        has_id(without_id(before, id).push((id, session)), id),
        without_id(without_id(before, id).push((id, session)), id) == without_id(before, id),
{
    let mid = without_id(before, id);
    let pred = other_id(id);
    assert(mid.push((id, session))[mid.len() as int].0 == id);
    mid.lemma_filter_push((id, session), pred);
    lemma_filter_idempotent(before, pred);
}

/// Dropping a session keeps every subscription of the other sessions and
/// none of its own.
pub proof fn lemma_drop_session_exact(before: Seq<(Seq<char>, Seq<char>)>, session: Seq<char>)
    ensures
        forall|e: (Seq<char>, Seq<char>)|
            #[trigger] without_session(before, session).contains(e) <==> (before.contains(e) && e.1
                != session),
{
    let pred = other_session(session);
    broadcast use vstd::seq_lib::group_filter_ensures;
    lemma_filter_subset(before, pred);
    assert forall|e: (Seq<char>, Seq<char>)|
        #[trigger] without_session(before, session).contains(e) <==> (before.contains(e) && e.1
            != session) by {
        if before.contains(e) && e.1 != session {
            let i = choose|i: int| 0 <= i < before.len() && before[i] == e;
            assert(before.filter(pred).contains(before[i]));
        }
        if before.filter(pred).contains(e) {
            let j = choose|j: int| 0 <= j < before.filter(pred).len() && before.filter(pred)[j] == e;
            assert(pred(before.filter(pred)[j]));
        }
    }
}


proof fn lemma_filter_idempotent(s: Seq<(Seq<char>, Seq<char>)>, pred: spec_fn((Seq<char>, Seq<char>)) -> bool)
    ensures
        s.filter(pred).filter(pred) == s.filter(pred),
    decreases s.len(),
{
    reveal(Seq::filter);
    if s.len() > 0 {
        lemma_filter_idempotent(s.drop_last(), pred);
        if pred(s.last()) {
            s.drop_last().filter(pred).lemma_filter_push(s.last(), pred);
        }
    }
}

} // verus!
