//! Decisions of one connection: replay detection over a window of recent
//! message ids, the `session.ack` flow-control window and the order in
//! which an incoming envelope is screened.

use vstd::prelude::*;

use std::collections::VecDeque;

use crate::envelope::Envelope;
use crate::ids::SessionId;
use crate::messages::session::SessionClosedPayload;
use crate::messages::MessageType;
use crate::runtime::principals::SessionPrincipals;
use crate::runtime::subscription::{without_session, SubscriptionManager};
use crate::ids::MessageId;
use crate::messages::message_is_countable;
use crate::text::str_eq;

verus! {

broadcast use vstd::string::group_string_axioms;

/// Size of the per-connection replay-detection window.
pub const DEDUP_WINDOW: usize = 8192;

/// Bounded set of recently seen message ids with oldest-first eviction.
#[derive(Debug)]
pub struct RecentIdSet {
    order: VecDeque<MessageId>,
    cap: usize,
}

/// The window after recording a new id: the oldest id leaves first when
/// the window is full.
pub open spec fn window_after(window: Seq<Seq<char>>, cap: nat, id: Seq<char>) -> Seq<Seq<char>> {
    if window.len() >= cap {
        window.drop_first().push(id)
    } else {
        window.push(id)
    }
}

impl RecentIdSet {
    /// The ids in the window, oldest first.
    pub closed spec fn view(&self) -> Seq<Seq<char>> {
        self.order@.map_values(|m: MessageId| m@)
    }

    /// Capacity of the window (at least one).
    pub closed spec fn capacity(&self) -> nat {
        self.cap as nat
    }

    /// Invariant: no id twice, and never more ids than the capacity.
    pub closed spec fn wf(&self) -> bool {
        &&& self.cap >= 1
        &&& self.order@.len() <= self.cap
        &&& forall|i: int, j: int| 0 <= i < j < self.order@.len() ==> #[trigger] self.order@[i]@
            != #[trigger] self.order@[j]@
    }

    /// An empty window of `cap` ids (a capacity of zero counts as one).
    pub fn new(cap: usize) -> (s: Self)
        ensures
            s.wf(),
            s.view() == Seq::<Seq<char>>::empty(),
            s.capacity() == if cap == 0 { 1 } else { cap },
    {
        let s = RecentIdSet { order: VecDeque::new(), cap: if cap == 0 { 1 } else { cap } };
        assert(s.view() =~= Seq::<Seq<char>>::empty());
        s
    }

    /// Number of ids in the window.
    pub fn len(&self) -> (n: usize)
        ensures
            n == self.view().len(),
    {
        self.order.len()
    }

    /// Whether `id` is in the window.
    pub fn contains(&self, id: &MessageId) -> (r: bool)
        ensures
            r == self.view().contains(id@),
    {
        let mut i: usize = 0;
        while i < self.order.len()
            invariant
                i <= self.order@.len(),
                forall|k: int| 0 <= k < i ==> self.order@[k]@ != id@,
            decreases self.order@.len() - i,
        {
            if str_eq(self.order[i].as_str(), id.as_str()) {
                assert(self.view()[i as int] == id@);
                return true;
            }
            i = i + 1;
        }
        assert(!self.view().contains(id@));
        false
    }

    /// Record `id`: `false` for a duplicate within the window (nothing
    /// changes), else `true` with the id added and, when the window was
    /// full, the oldest id evicted.
    pub fn insert(&mut self, id: MessageId) -> (fresh: bool)
        requires
            old(self).wf(),
        ensures
            final(self).wf(),
            final(self).capacity() == old(self).capacity(),
            fresh == !old(self).view().contains(id@),
            fresh ==> final(self).view() == window_after(old(self).view(), old(self).capacity(), id@),
            !fresh ==> final(self).view() == old(self).view(),
    {
        if self.contains(&id) {
            return false;
        }
        let ghost before = self.order@;
        if self.order.len() >= self.cap {
            let _ = self.order.pop_front();
            assert(self.order@ =~= before.drop_first());
        }
        let ghost mid = self.order@;
        self.order.push_back(id);
        assert forall|i: int, j: int| 0 <= i < j < self.order@.len() implies #[trigger] self.order@[i]@
            != #[trigger] self.order@[j]@ by {
            if j == self.order@.len() - 1 {
                assert(self.order@[j]@ == id@);
                if before.len() >= self.cap {
                    assert(self.order@[i] == before[i + 1]);
                    assert(self.view()[i] == old(self).view()[i + 1]);
                } else {
                    assert(self.order@[i] == before[i]);
                    assert(old(self).view()[i] == self.order@[i]@);
                }
            } else {
                if before.len() >= self.cap {
                    assert(self.order@[i] == before[i + 1] && self.order@[j] == before[j + 1]);
                } else {
                    assert(self.order@[i] == before[i] && self.order@[j] == before[j]);
                }
            }
        }
        assert(self.view() =~= window_after(old(self).view(), old(self).capacity(), id@));
        true
    }
}

/// A replay is caught: right after an id was recorded it is in the
/// window, so recording it again reports a duplicate.
pub proof fn lemma_replay_detected(window: Seq<Seq<char>>, cap: nat, id: Seq<char>)
    requires
        cap >= 1,
    ensures
        window_after(window, cap, id).contains(id),
{
    let w = window_after(window, cap, id);
    assert(w[w.len() - 1] == id);
}

/// The window keeps the most recent ids: of a full window only the oldest
/// id leaves, and every other one stays.
pub proof fn lemma_window_keeps_recent(window: Seq<Seq<char>>, cap: nat, id: Seq<char>, k: int)
    requires
        1 <= k < window.len(),
    ensures
        window_after(window, cap, id).contains(window[k]),
{
    let w = window_after(window, cap, id);
    if window.len() >= cap {
        assert(w[k - 1] == window[k]);
    } else {
        assert(w[k] == window[k]);
    }
}

/// The window after recording a run of ids one by one; an id already in
/// the window changes nothing.
pub open spec fn window_run(window: Seq<Seq<char>>, cap: nat, ids: Seq<Seq<char>>) -> Seq<Seq<char>>
    decreases ids.len(),
{
    if ids.len() == 0 {
        window
    } else {
        let v = window_run(window, cap, ids.drop_last());
        if v.contains(ids.last()) {
            v
        } else {
            window_after(v, cap, ids.last())
        }
    }
}

/// How many ids of a run were new to the window when they arrived.
pub open spec fn fresh_in_run(window: Seq<Seq<char>>, cap: nat, ids: Seq<Seq<char>>) -> nat
    decreases ids.len(),
{
    if ids.len() == 0 {
        0
    } else {
        let v = window_run(window, cap, ids.drop_last());
        fresh_in_run(window, cap, ids.drop_last()) + if v.contains(ids.last()) {
            0nat
        } else {
            1nat
        }
    }
}

/// Where `id` stands in the window after a run: as many places from the
/// newest end as new ids arrived after it.
proof fn lemma_position_after_run(window: Seq<Seq<char>>, cap: nat, id: Seq<char>, ids: Seq<Seq<char>>) -> (i: int)
    requires
        cap >= 1,
        0 < window.len() <= cap,
        window.last() == id,
        fresh_in_run(window, cap, ids) < cap,
    ensures
        0 <= i < window_run(window, cap, ids).len(),
        window_run(window, cap, ids)[i] == id,
        window_run(window, cap, ids).len() - 1 - i == fresh_in_run(window, cap, ids),
        window_run(window, cap, ids).len() <= cap,
    decreases ids.len(),
{
    if ids.len() == 0 {
        window.len() - 1
    } else {
        let pre = ids.drop_last();
        let j = lemma_position_after_run(window, cap, id, pre);
        let v = window_run(window, cap, pre);
        let x = ids.last();
        if v.contains(x) {
            j
        } else {
            assert(x != id) by {
                assert(v[j] == id);
            }
            if v.len() >= cap {
                let next = v.drop_first().push(x);
                assert(next[j - 1] == id);
                j - 1
            } else {
                let next = v.push(x);
                assert(next[j] == id);
                j
            }
        }
    }
}

/// A recorded id stays in the replay window, and so a repeat of it is
/// caught, until `cap` newer distinct ids have arrived after it: after
/// recording it, any run with fewer than `cap` ids new to the window
/// leaves it there.
pub proof fn lemma_id_survives_window(window: Seq<Seq<char>>, cap: nat, id: Seq<char>, ids: Seq<Seq<char>>)
    requires
        cap >= 1,
        window.len() <= cap,
        fresh_in_run(window_after(window, cap, id), cap, ids) < cap,
    ensures
        window_run(window_after(window, cap, id), cap, ids).contains(id),
{
    let w = window_after(window, cap, id);
    let i = lemma_position_after_run(w, cap, id, ids);
    assert(window_run(w, cap, ids)[i] == id);
}

// ---------------------------------------------------------------------
// Flow control
// ---------------------------------------------------------------------

/// The `session.ack` sliding window of a connection: how many countable
/// events were sent and the highest sequence the client acknowledged.
#[derive(Debug, Clone, Copy, PartialEq, Eq)]
pub struct FlowControl {
    /// Window size; `None` disables flow control.
    pub window: Option<u64>,
    /// Countable events sent so far (the last sequence number stamped).
    pub emitted: u64,
    /// Highest sequence the client acknowledged.
    pub last_ack: u64,
}

/// Events sent and not yet acknowledged.
pub open spec fn in_flight(f: FlowControl) -> int {
    if f.emitted >= f.last_ack {
        f.emitted - f.last_ack
    } else {
        0
    }
}

/// Whether another countable event may be sent now.
pub open spec fn may_send(f: FlowControl) -> bool {
    match f.window {
        None => true,
        Some(w) => in_flight(f) < w,
    }
}

impl FlowControl {
    /// A fresh connection: nothing sent, nothing acknowledged.
    pub fn new(window: Option<u64>) -> (f: Self)
        ensures
            f.window == window,
            f.emitted == 0,
            f.last_ack == 0,
    {
        FlowControl { window, emitted: 0, last_ack: 0 }
    }

    /// Whether another countable event may be sent now.
    pub fn can_emit(&self) -> (r: bool)
        ensures
            r == may_send(*self),
    {
        match self.window {
            None => true,
            Some(w) => self.emitted.saturating_sub(self.last_ack) < w,
        }
    }

    /// Stamp the next countable event: its session sequence number is one
    /// past the previous one.
    pub fn stamp(&mut self) -> (seq: u64)
        requires
            old(self).emitted < u64::MAX,
        ensures
            seq == old(self).emitted + 1,
            final(self).emitted == seq,
            final(self).last_ack == old(self).last_ack,
            final(self).window == old(self).window,
    {
        self.emitted = self.emitted + 1;
        self.emitted
    }

    /// Record a `session.ack`: the acknowledged sequence only moves
    /// forward. Says whether it moved (and a waiting sender may retry).
    pub fn record_ack(&mut self, last_processed_seq: u64) -> (advanced: bool)
        ensures
            advanced == (last_processed_seq > old(self).last_ack),
            final(self).last_ack == if advanced { last_processed_seq } else { old(self).last_ack },
            final(self).emitted == old(self).emitted,
            final(self).window == old(self).window,
    {
        if last_processed_seq > self.last_ack {
            self.last_ack = last_processed_seq;
            true
        } else {
            false
        }
    }
}

impl FlowControl {
    /// Stamp an outbound envelope: a countable event gets the next session
    /// sequence number, anything else goes out as it was built.
    pub fn stamp_outbound(&mut self, env: Envelope) -> (r: Envelope)
        requires
            old(self).emitted < u64::MAX,
        ensures
            final(self).window == old(self).window,
            final(self).last_ack == old(self).last_ack,
            message_is_countable(env.payload) ==> r == (Envelope {
                event_seq: Some((old(self).emitted + 1) as u64),
                ..env
            }) && final(self).emitted == old(self).emitted + 1,
            !message_is_countable(env.payload) ==> r == env && final(self).emitted == old(self).emitted,
            r == stamped(old(self).emitted as int, env),
    {
        let mut env = env;
        if env.payload.is_countable_event() {
            let seq = self.stamp();
            env.event_seq = Some(seq);
        }
        env
    }
}

/// How many of `flags` are set: the countable envelopes among a run.
pub open spec fn count_true(flags: Seq<bool>) -> nat
    decreases flags.len(),
{
    if flags.len() == 0 {
        0
    } else {
        count_true(flags.drop_last()) + if flags.last() {
            1nat
        } else {
            0nat
        }
    }
}

/// Among a run of outbound envelopes (`flags[k]`: the one at `k` is
/// countable), one more countable envelope precedes a countable one than
/// the countable one before it with none between. [`FlowControl::stamp_outbound`]
/// gives each countable envelope one past the count stamped before it, so
/// from a fresh counter they carry 1, 2, ... without gap or repeat.
pub proof fn lemma_stamps_consecutive(flags: Seq<bool>, i: int, j: int)
    requires
        0 <= i < j <= flags.len(),
        flags[i],
        forall|k: int| i < k < j ==> !#[trigger] flags[k],
    ensures
        count_true(flags.take(j)) == count_true(flags.take(i)) + 1,
    decreases j - i,
{
    if j == i + 1 {
        assert(flags.take(j).drop_last() =~= flags.take(i));
    } else {
        lemma_stamps_consecutive(flags, i, j - 1);
        assert(flags.take(j).drop_last() =~= flags.take(j - 1));
        assert(!flags[j - 1]);
    }
}

/// The first countable envelope of a run gets number one past the start:
/// nothing countable precedes it.
pub proof fn lemma_first_stamp(flags: Seq<bool>, i: int)
    requires
        0 <= i <= flags.len(),
        forall|k: int| 0 <= k < i ==> !#[trigger] flags[k],
    ensures
        count_true(flags.take(i)) == 0,
    decreases i,
{
    if i > 0 {
        lemma_first_stamp(flags, i - 1);
        assert(flags.take(i).drop_last() =~= flags.take(i - 1));
        assert(!flags[i - 1]);
    }
}

/// An outbound envelope as the writer sends it when `emitted` events were
/// stamped before it: a countable one carries the next number.
pub open spec fn stamped(emitted: int, env: Envelope) -> Envelope {
    if message_is_countable(env.payload) {
        Envelope { event_seq: Some((emitted + 1) as u64), ..env }
    } else {
        env
    }
}

/// Which envelopes of a run are countable events.
pub open spec fn countable_flags(envs: Seq<Envelope>) -> Seq<bool> {
    Seq::new(envs.len(), |k: int| message_is_countable(envs[k].payload))
}

/// A run of envelopes sent in order through [`FlowControl::stamp_outbound`],
/// starting from a counter that stood at `emitted`.
pub open spec fn stamp_run(emitted: int, envs: Seq<Envelope>) -> Seq<Envelope>
    decreases envs.len(),
{
    if envs.len() == 0 {
        Seq::empty()
    } else {
        let next = if message_is_countable(envs[0].payload) {
            emitted + 1
        } else {
            emitted
        };
        seq![stamped(emitted, envs[0])] + stamp_run(next, envs.drop_first())
    }
}

proof fn lemma_count_true_front(flags: Seq<bool>)
    requires
        flags.len() > 0,
    ensures
        count_true(flags) == (if flags[0] {
            1int
        } else {
            0int
        }) + count_true(flags.drop_first()),
    decreases flags.len(),
{
    if flags.len() == 1 {
        assert(flags.drop_last() =~= Seq::<bool>::empty());
        assert(flags.drop_first() =~= Seq::<bool>::empty());
    } else {
        lemma_count_true_front(flags.drop_last());
        assert(flags.drop_last().drop_first() =~= flags.drop_first().drop_last());
    }
}

proof fn lemma_count_true_prefix(flags: Seq<bool>, n: int)
    requires
        0 <= n <= flags.len(),
    ensures
        count_true(flags.take(n)) <= count_true(flags),
    decreases flags.len() - n,
{
    if n == flags.len() {
        assert(flags.take(n) =~= flags);
    } else {
        lemma_count_true_prefix(flags, n + 1);
        assert(flags.take(n + 1).drop_last() =~= flags.take(n));
    }
}

proof fn lemma_stamp_run_at(emitted: int, envs: Seq<Envelope>, k: int)
    requires
        0 <= k < envs.len(),
    ensures
        stamp_run(emitted, envs).len() == envs.len(),
        stamp_run(emitted, envs)[k] == stamped(emitted + count_true(countable_flags(envs).take(k)), envs[k]),
    decreases envs.len(),
{
    let next = if message_is_countable(envs[0].payload) {
        emitted + 1
    } else {
        emitted
    };
    let rest = envs.drop_first();
    if envs.len() > 1 {
        lemma_stamp_run_at(next, rest, if k > 0 { k - 1 } else { 0 });
    } else {
        assert(stamp_run(next, rest) =~= Seq::<Envelope>::empty());
    }
    if k == 0 {
        assert(countable_flags(envs).take(0) =~= Seq::<bool>::empty());
    } else {
        let pre = countable_flags(envs).take(k);
        lemma_count_true_front(pre);
        assert(pre.drop_first() =~= countable_flags(rest).take(k - 1));
        assert(rest[k - 1] == envs[k]);
    }
}

/// Over any run of outbound envelopes sent through
/// [`FlowControl::stamp_outbound`] from a counter at `start`, the countable
/// envelope at `k` carries one more than the countable envelopes sent
/// before it, and anything else goes out as built; the first countable
/// envelope carries `start + 1`. The run must fit the counter.
pub proof fn lemma_run_numbering(start: u64, envs: Seq<Envelope>, k: int)
    requires
        0 <= k < envs.len(),
        start + count_true(countable_flags(envs)) <= u64::MAX,
    ensures
        stamp_run(start as int, envs).len() == envs.len(),
        !message_is_countable(envs[k].payload) ==> stamp_run(start as int, envs)[k] == envs[k],
        message_is_countable(envs[k].payload) ==> stamp_run(start as int, envs)[k] == (Envelope {
            event_seq: Some((start + count_true(countable_flags(envs).take(k)) + 1) as u64),
            ..envs[k]
        }),
        (message_is_countable(envs[k].payload) && forall|m: int|
            0 <= m < k ==> !message_is_countable(#[trigger] envs[m].payload)) ==> stamp_run(start as int, envs)[k].event_seq
            == Some((start + 1) as u64),
{
    let flags = countable_flags(envs);
    lemma_stamp_run_at(start as int, envs, k);
    if flags[k] && forall|m: int| 0 <= m < k ==> !message_is_countable(#[trigger] envs[m].payload) {
        assert forall|m: int| 0 <= m < k implies !#[trigger] flags[m] by {
            assert(!message_is_countable(envs[m].payload));
        }
        lemma_first_stamp(flags, k);
    }
}

/// In the same run, two countable envelopes with none between them carry
/// consecutive numbers: no gap and no repeat.
pub proof fn lemma_run_consecutive(start: u64, envs: Seq<Envelope>, i: int, j: int)
    requires
        0 <= i < j < envs.len(),
        start + count_true(countable_flags(envs)) <= u64::MAX,
        message_is_countable(envs[i].payload),
        message_is_countable(envs[j].payload),
        forall|k: int| i < k < j ==> !message_is_countable(#[trigger] envs[k].payload),
    ensures
        stamp_run(start as int, envs)[i].event_seq is Some,
        stamp_run(start as int, envs)[j].event_seq is Some,
        stamp_run(start as int, envs)[j].event_seq->0 == stamp_run(start as int, envs)[i].event_seq->0 + 1,
{
    let flags = countable_flags(envs);
    lemma_stamp_run_at(start as int, envs, i);
    lemma_stamp_run_at(start as int, envs, j);
    assert forall|k: int| i < k < j implies !#[trigger] flags[k] by {
        assert(!message_is_countable(envs[k].payload));
    }
    lemma_stamps_consecutive(flags, i, j);
    assert(flags.take(j + 1).drop_last() =~= flags.take(j));
    lemma_count_true_prefix(flags, j + 1);
}

/// Acknowledgements never move the window back, and a sender held back by
/// a full window is released by an ack that covers what it sent.
pub proof fn lemma_ack_monotone_and_releases(f: FlowControl, seq: u64)
    ensures
        ({
            let g = FlowControl { last_ack: if seq > f.last_ack { seq } else { f.last_ack }, ..f };
            &&& g.last_ack >= f.last_ack
            &&& (seq >= f.emitted && (f.window matches Some(w) && w > 0)) ==> may_send(g)
        }),
{
}

/// The window is never overrun: starting from at most `w` events in
/// flight, stamping an event only when sending is allowed, and taking any
/// acknowledgement, keep at most `w` in flight.
pub proof fn lemma_window_never_exceeded(f: FlowControl, w: u64, seq: u64)
    requires
        f.window == Some(w),
        in_flight(f) <= w,
        f.emitted < u64::MAX,
    ensures
        may_send(f) ==> in_flight(FlowControl { emitted: (f.emitted + 1) as u64, ..f }) <= w,
        in_flight(FlowControl { last_ack: if seq > f.last_ack { seq } else { f.last_ack }, ..f }) <= w,
{
}

/// One event of the writer's flow control: a countable event stamped, or
/// a `session.ack` with its `last_processed_seq`.
pub enum FlowEvent {
    Stamp,
    Ack(u64),
}

/// The flow-control state after one event.
pub open spec fn flow_step(f: FlowControl, e: FlowEvent) -> FlowControl {
    match e {
        FlowEvent::Stamp => FlowControl { emitted: (f.emitted + 1) as u64, ..f },
        FlowEvent::Ack(seq) => FlowControl { last_ack: if seq > f.last_ack { seq } else { f.last_ack }, ..f },
    }
}

/// The state after a run of events.
pub open spec fn flow_run(f: FlowControl, events: Seq<FlowEvent>) -> FlowControl
    decreases events.len(),
{
    if events.len() == 0 {
        f
    } else {
        flow_step(flow_run(f, events.drop_last()), events.last())
    }
}

/// The writer's discipline: every stamp is taken when `can_emit` allows it
/// and the counter has room.
pub open spec fn stamps_allowed(f: FlowControl, events: Seq<FlowEvent>) -> bool {
    forall|k: int|
        0 <= k < events.len() && (#[trigger] events[k]) is Stamp ==> {
            let g = flow_run(f, events.take(k));
            may_send(g) && g.emitted < u64::MAX
        }
}

/// Over a whole run that stamps only when `can_emit` allows it, and takes
/// any acknowledgements, the events sent never run more than the window
/// ahead of the highest acknowledgement: `emitted <= last_ack + w`.
pub proof fn lemma_window_kept_over_run(f: FlowControl, w: u64, events: Seq<FlowEvent>)
    requires
        f.window == Some(w),
        in_flight(f) <= w,
        f.emitted <= f.last_ack + w,
        stamps_allowed(f, events),
    ensures
        in_flight(flow_run(f, events)) <= w,
        flow_run(f, events).emitted <= flow_run(f, events).last_ack + w,
        flow_run(f, events).window == Some(w),
    decreases events.len(),
{
    if events.len() > 0 {
        let pre = events.drop_last();
        assert forall|k: int| 0 <= k < pre.len() && (#[trigger] pre[k]) is Stamp implies {
            let g = flow_run(f, pre.take(k));
            may_send(g) && g.emitted < u64::MAX
        } by {
            assert(pre[k] == events[k]);
            assert(pre.take(k) =~= events.take(k));
        }
        lemma_window_kept_over_run(f, w, pre);
        let g = flow_run(f, pre);
        assert(events.take(events.len() - 1) =~= pre);
        if events.last() is Stamp {
            assert(events[events.len() - 1] is Stamp);
        }
    }
}

// ---------------------------------------------------------------------
// Screening an incoming envelope
// ---------------------------------------------------------------------

/// What happens to an incoming envelope before its handler runs.
#[derive(Debug, Clone, Copy, PartialEq, Eq, Structural)]
pub enum Screening {
    /// Its id was seen within the window: dropped as a replay.
    Replay,
    /// It arrived before `session.accepted` and is not a handshake
    /// message: dropped.
    BeforeHandshake,
    /// It goes on to persistence, publication and dispatch.
    Dispatch,
}

/// Screen an incoming envelope: replays are dropped first (the id is
/// recorded either way), then anything but a handshake message is dropped
/// until the session is accepted.
pub fn screen_inbound(seen: &mut RecentIdSet, id: MessageId, session_accepted: bool, is_handshake: bool) -> (s:
    Screening)
    requires
        old(seen).wf(),
    ensures
        final(seen).wf(),
        old(seen).view().contains(id@) ==> s == Screening::Replay && final(seen).view() == old(
            seen,
        ).view(),
        !old(seen).view().contains(id@) ==> {
            &&& final(seen).view() == window_after(old(seen).view(), old(seen).capacity(), id@)
            &&& s == if !session_accepted && !is_handshake {
                Screening::BeforeHandshake
            } else {
                Screening::Dispatch
            }
        },
{
    if !seen.insert(id) {
        return Screening::Replay;
    }
    if !session_accepted && !is_handshake {
        Screening::BeforeHandshake
    } else {
        Screening::Dispatch
    }
}

// ---------------------------------------------------------------------
// The end of a connection
// ---------------------------------------------------------------------

/// The end of a connection. When the client closed an opened session with
/// `session.close`, the `session.closed` to send, addressed to the
/// session and without a reason; whatever ended the connection, the
/// session's principal and its subscriptions are forgotten. Jobs are not
/// touched: they outlive the session that started them.
pub fn end_connection(
    explicit_close: bool,
    session: Option<&SessionId>,
    principals: &mut SessionPrincipals,
    subscriptions: &mut SubscriptionManager,
) -> (closed: Option<Envelope>)
    requires
        old(principals).wf(),
    ensures
        final(principals).wf(),
        match session {
            Some(s) => {
                &&& final(principals).view() == old(principals).view().remove(s@)
                &&& final(subscriptions).view() == without_session(old(subscriptions).view(), s@)
            },
            None => {
                &&& final(principals).view() == old(principals).view()
                &&& final(subscriptions).view() == old(subscriptions).view()
            },
        },
        closed is Some <==> (explicit_close && session is Some),
        closed matches Some(env) ==> {
            &&& env.payload == MessageType::SessionClosed(SessionClosedPayload { reason: None })
            &&& env.session_id matches Some(x) && session matches Some(s) && x@ == s@
            &&& env.job_id is None
            &&& env.event_seq is None
        },
{
    match session {
        Some(s) => {
            principals.remove(s);
            subscriptions.drop_session(s);
            if explicit_close {
                let mut env = Envelope::new(MessageType::SessionClosed(SessionClosedPayload { reason: None }));
                env.session_id = Some(s.clone());
                Some(env)
            } else {
                None
            }
        },
        None => None,
    }
}

} // verus!
