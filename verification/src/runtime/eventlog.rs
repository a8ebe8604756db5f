//! The log of a runtime's envelopes, and the queries that resume and
//! `job.subscribe` replay from.

use vstd::prelude::*;

use crate::envelope::Envelope;
use crate::ids::{JobId, SessionId};
use crate::text::str_eq;

verus! {

broadcast use vstd::string::group_string_axioms;

/// The envelope belongs to session `s`.
pub open spec fn in_session(e: Envelope, s: Seq<char>) -> bool {
    e.session_id matches Some(x) && x@ == s
}

/// The envelope concerns job `j`.
pub open spec fn of_job(e: Envelope, j: Seq<char>) -> bool {
    e.job_id matches Some(x) && x@ == j
}

/// The envelope carries an event sequence above `after`.
pub open spec fn seq_after(e: Envelope, after: u64) -> bool {
    e.event_seq matches Some(q) && q > after
}

/// What a replay selects: the envelopes of the session (or, with
/// `by_job`, of the job) `key` sequenced after `after`.
pub open spec fn replay_pick(by_job: bool, key: Seq<char>, after: u64) -> spec_fn(Envelope) -> bool {
    |e: Envelope| (if by_job { of_job(e, key) } else { in_session(e, key) }) && seq_after(e, after)
}

/// Positions, in log order, of the first `n` entries that `pick` selects.
pub open spec fn picks(log: Seq<Envelope>, pick: spec_fn(Envelope) -> bool, n: nat) -> Seq<int>
    decreases n,
{
    if n == 0 {
        Seq::empty()
    } else {
        let before = picks(log, pick, (n - 1) as nat);
        if pick(log[n - 1]) {
            before.push(n - 1)
        } else {
            before
        }
    }
}

/// At most the first `limit` elements of `s`.
pub open spec fn at_most(s: Seq<int>, limit: nat) -> Seq<int> {
    if s.len() <= limit {
        s
    } else {
        s.take(limit as int)
    }
}

/// Highest event sequence among the first `n` entries of session `s`, or
/// `0` when none carries one.
pub open spec fn session_high(log: Seq<Envelope>, s: Seq<char>, n: nat) -> u64
    decreases n,
{
    if n == 0 {
        0
    } else {
        let rest = session_high(log, s, (n - 1) as nat);
        let e = log[n - 1];
        if in_session(e, s) && (e.event_seq matches Some(q) && q > rest) {
            e.event_seq->0
        } else {
            rest
        }
    }
}

/// Envelopes in the order they were logged.
pub struct EventLog {
    entries: Vec<Envelope>,
}

impl View for EventLog {
    type V = Seq<Envelope>;

    closed spec fn view(&self) -> Seq<Envelope> {
        self.entries@
    }
}

fn same_text(a: &str, b: &str) -> (r: bool)
    ensures
        r == (a@ == b@),
{
    str_eq(a, b)
}

impl EventLog {
    /// An empty log.
    pub fn new() -> (l: Self)
        ensures
            l@ == Seq::<Envelope>::empty(),
    {
        EventLog { entries: Vec::new() }
    }

    /// Append an envelope.
    pub fn append(&mut self, env: Envelope)
        ensures
            final(self)@ == old(self)@.push(env),
    {
        self.entries.push(env);
    }

    /// Number of logged envelopes.
    pub fn len(&self) -> (n: usize)
        ensures
            n == self@.len(),
    {
        self.entries.len()
    }

    /// The envelope at position `i`.
    pub fn get(&self, i: usize) -> (e: &Envelope)
        requires
            i < self@.len(),
        ensures
            *e == self@[i as int],
    {
        &self.entries[i]
    }

    /// Highest event sequence logged for `session` (`0` when none).
    pub fn max_event_seq_for_session(&self, session: &SessionId) -> (h: u64)
        ensures
            h == session_high(self@, session@, self@.len()),
    {
        let mut h: u64 = 0;
        let mut i: usize = 0;
        while i < self.entries.len()
            invariant
                i <= self.entries.len(),
                h == session_high(self@, session@, i as nat),
            decreases self.entries.len() - i,
        {
            let e = &self.entries[i];
            let mine = match &e.session_id {
                Some(x) => same_text(x.as_str(), session.as_str()),
                None => false,
            };
            if mine {
                match e.event_seq {
                    Some(q) => {
                        if q > h {
                            h = q;
                        }
                    },
                    None => {},
                }
            }
            i = i + 1;
        }
        h
    }

    fn replay(&self, by_job: bool, key: &str, after: u64, limit: usize) -> (r: Vec<usize>)
        ensures
            r@.map_values(|i: usize| i as int) == at_most(
                picks(self@, replay_pick(by_job, key@, after), self@.len()),
                limit as nat,
            ),
    {
        let ghost pick = replay_pick(by_job, key@, after);
        let mut out: Vec<usize> = Vec::new();
        let mut i: usize = 0;
        while i < self.entries.len()
            invariant
                i <= self.entries.len(),
                pick == replay_pick(by_job, key@, after),
                out@.map_values(|k: usize| k as int) == at_most(picks(self@, pick, i as nat), limit as nat),
            decreases self.entries.len() - i,
        {
            let e = &self.entries[i];
            let keyed = if by_job {
                match &e.job_id {
                    Some(x) => same_text(x.as_str(), key),
                    None => false,
                }
            } else {
                match &e.session_id {
                    Some(x) => same_text(x.as_str(), key),
                    None => false,
                }
            };
            let later = match e.event_seq {
                Some(q) => q > after,
                None => false,
            };
            let ghost before = picks(self@, pick, i as nat);
            assert(keyed && later <==> pick(self@[i as int]));
            if keyed && later {
                if out.len() < limit {
                    let ghost old_out = out@.map_values(|k: usize| k as int);
                    assert(old_out.len() == out.len());
                    assert(before.len() <= limit as nat) by {
                        if before.len() > limit as nat {
                            assert(at_most(before, limit as nat).len() == limit as nat);
                        }
                    }
                    assert(old_out == before);
                    out.push(i);
                    assert(out@.map_values(|k: usize| k as int) =~= old_out.push(i as int));
                } else {
                    assert(before.push(i as int).take(limit as int) =~= before.take(limit as int));
                }
            }
            i = i + 1;
        }
        out
    }

    /// Positions of the envelopes of `session` sequenced after `after`, in
    /// log order, at most `limit` of them.
    pub fn replay_session_events_after_seq(&self, session: &SessionId, after: u64, limit: usize) -> (r: Vec<usize>)
        ensures
            r@.map_values(|i: usize| i as int) == at_most(
                picks(self@, replay_pick(false, session@, after), self@.len()),
                limit as nat,
            ),
    {
        self.replay(false, session.as_str(), after, limit)
    }

    /// Positions of the envelopes of job `job` sequenced after `after`, in
    /// log order, at most `limit` of them.
    pub fn replay_job_events_after_seq(&self, job: &JobId, after: u64, limit: usize) -> (r: Vec<usize>)
        ensures
            r@.map_values(|i: usize| i as int) == at_most(
                picks(self@, replay_pick(true, job@, after), self@.len()),
                limit as nat,
            ),
    {
        self.replay(true, job.as_str(), after, limit)
    }
}

} // verus!
