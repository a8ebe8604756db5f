//! The authenticated principal of each live session, and the
//! same-principal rules built on it: who may cancel a job, subscribe to a
//! job, name a session in a subscription filter, or see a published event.

use vstd::prelude::*;

use crate::ids::SessionId;
use crate::table::{lemma_table_entry, lemma_table_push, lemma_table_remove, lemma_table_update, table_view, table_wf};
use crate::text::str_eq;

verus! {

broadcast use vstd::string::group_string_axioms;

/// View of an optional principal.
pub open spec fn opt_text(p: Option<String>) -> Option<Seq<char>> {
    match p {
        Some(s) => Some(s@),
        None => None,
    }
}

/// Session to principal (`None` for an anonymous session).
#[derive(Debug, Clone)]
pub struct SessionPrincipals {
    rows: Vec<(SessionId, Option<String>)>,
}

/// The principal that owns `session` in `m`: `None` when the session is
/// unknown or anonymous.
pub open spec fn owner_of(m: Map<Seq<char>, Option<Seq<char>>>, session: Seq<char>) -> Option<Seq<char>> {
    if m.contains_key(session) {
        m[session]
    } else {
        None
    }
}

impl SessionPrincipals {
    spec fn table(&self) -> Seq<(Seq<char>, Option<Seq<char>>)> {
        self.rows@.map_values(|r: (SessionId, Option<String>)| (r.0@, opt_text(r.1)))
    }

    /// Session id to principal.
    pub closed spec fn view(&self) -> Map<Seq<char>, Option<Seq<char>>> {
        table_view(self.table())
    }

    /// Invariant: one row per session.
    pub closed spec fn wf(&self) -> bool {
        table_wf(self.table())
    }

    /// No sessions.
    pub fn new() -> (p: Self)
        ensures
            p.wf(),
            p.view() == Map::<Seq<char>, Option<Seq<char>>>::empty(),
    {
        let p = SessionPrincipals { rows: Vec::new() };
        assert(p.view() =~= Map::<Seq<char>, Option<Seq<char>>>::empty());
        p
    }

    fn find(&self, session: &SessionId) -> (r: Option<usize>)
        requires
            self.wf(),
        ensures
            match r {
                Some(i) => i < self.table().len() && self.table()[i as int].0 == session@,
                None => !self.view().contains_key(session@),
            },
    {
        let mut i: usize = 0;
        while i < self.rows.len()
            invariant
                i <= self.rows.len(),
                forall|k: int| 0 <= k < i ==> self.table()[k].0 != session@,
            decreases self.rows.len() - i,
        {
            if str_eq(self.rows[i].0.as_str(), session.as_str()) {
                return Some(i);
            }
            i = i + 1;
        }
        proof {
            if self.view().contains_key(session@) {
                let k = choose|k: int| 0 <= k < self.table().len() && #[trigger] self.table()[k].0 == session@;
                assert(self.table()[k].0 != session@);
            }
        }
        None
    }

    /// Record the principal of `session` (replacing any earlier one).
    pub fn insert(&mut self, session: SessionId, principal: Option<String>)
        requires
            old(self).wf(),
        ensures
            final(self).wf(),
            final(self).view() == old(self).view().insert(session@, opt_text(principal)),
    {
        let ghost before = self.table();
        let ghost value = opt_text(principal);
        match self.find(&session) {
            Some(i) => {
                self.rows.set(i, (session, principal));
                assert(self.table() =~= before.update(i as int, (before[i as int].0, value)));
                proof {
                    lemma_table_update(before, i as int, value);
                }
            },
            None => {
                let ghost key = session@;
                self.rows.push((session, principal));
                assert(self.table() =~= before.push((key, value)));
                proof {
                    lemma_table_push(before, key, value);
                }
            },
        }
    }

    /// Forget `session`.
    pub fn remove(&mut self, session: &SessionId)
        requires
            old(self).wf(),
        ensures
            final(self).wf(),
            final(self).view() == old(self).view().remove(session@),
    {
        match self.find(session) {
            Some(i) => {
                let ghost before = self.table();
                let _ = self.rows.remove(i);
                assert(self.table() =~= before.remove(i as int));
                proof {
                    lemma_table_remove(before, i as int);
                }
            },
            None => {
                assert(self.view().remove(session@) =~= self.view());
            },
        }
    }

    /// The principal owning `session`, if known and not anonymous.
    pub fn owner(&self, session: &SessionId) -> (r: Option<&String>)
        requires
            self.wf(),
        ensures
            opt_text(match r {
                Some(s) => Some(*s),
                None => None,
            }) == owner_of(self.view(), session@),
    {
        match self.find(session) {
            Some(i) => {
                proof {
                    lemma_table_entry(self.table(), i as int);
                }
                match &self.rows[i].1 {
                    Some(p) => Some(p),
                    None => None,
                }
            },
            None => None,
        }
    }
}

/// A non-anonymous `requester` is the principal that owns `session`.
pub open spec fn same_owner(m: Map<Seq<char>, Option<Seq<char>>>, session: Seq<char>, requester: Option<Seq<char>>) -> bool {
    requester is Some && owner_of(m, session) == requester
}

/// Whether a requester may cancel a job of another session: only when the
/// requester's principal is non-anonymous and owns the job's session.
pub fn cancel_principal_matches(
    principals: &SessionPrincipals,
    owning_session: &SessionId,
    requester_principal: Option<&str>,
) -> (r: bool)
    requires
        principals.wf(),
    ensures
        r == same_owner(
            principals.view(),
            owning_session@,
            match requester_principal {
                Some(p) => Some(p@),
                None => None,
            },
        ),
{
    let requester = match requester_principal {
        Some(p) => p,
        None => {
            return false;
        },
    };
    match principals.owner(owning_session) {
        Some(owner) => str_eq(owner.as_str(), requester),
        None => false,
    }
}

/// Whether an event published by `event_session` may reach a subscriber:
/// never without a session id; always for the subscriber's own session;
/// otherwise only when the subscriber's non-anonymous principal owns the
/// publishing session.
pub open spec fn scope_permits(
    m: Map<Seq<char>, Option<Seq<char>>>,
    subscriber_session: Seq<char>,
    subscriber_principal: Option<Seq<char>>,
    event_session: Option<Seq<char>>,
) -> bool {
    match event_session {
        None => false,
        Some(s) => s == subscriber_session || same_owner(m, s, subscriber_principal),
    }
}

/// Same-principal scope check for a generic subscription (see
/// [`scope_permits`]).
pub fn subscription_scope_permits(
    principals: &SessionPrincipals,
    subscriber_session: &SessionId,
    subscriber_principal: Option<&str>,
    event_session: Option<&SessionId>,
) -> (r: bool)
    requires
        principals.wf(),
    ensures
        r == scope_permits(
            principals.view(),
            subscriber_session@,
            match subscriber_principal {
                Some(p) => Some(p@),
                None => None,
            },
            match event_session {
                Some(s) => Some(s@),
                None => None,
            },
        ),
{
    let event_session = match event_session {
        Some(s) => s,
        None => {
            return false;
        },
    };
    if str_eq(event_session.as_str(), subscriber_session.as_str()) {
        return true;
    }
    cancel_principal_matches(principals, event_session, subscriber_principal)
}

/// Whether a subscriber may attach to a job submitted by `owner_session`:
/// the submitting session always may; another session only when both have
/// the same non-anonymous principal.
pub fn job_subscribe_permitted(
    principals: &SessionPrincipals,
    owner_session: &SessionId,
    subscriber_session: &SessionId,
    subscriber_principal: Option<&str>,
) -> (r: bool)
    requires
        principals.wf(),
    ensures
        r == (owner_session@ == subscriber_session@ || same_owner(
            principals.view(),
            owner_session@,
            match subscriber_principal {
                Some(p) => Some(p@),
                None => None,
            },
        )),
{
    if str_eq(owner_session.as_str(), subscriber_session.as_str()) {
        return true;
    }
    cancel_principal_matches(principals, owner_session, subscriber_principal)
}

/// Whether a subscription filter may name `sessions`: each must be the
/// caller's own session or one owned by the caller's non-anonymous
/// principal.
pub open spec fn filter_sessions_permitted(
    m: Map<Seq<char>, Option<Seq<char>>>,
    sessions: Seq<Seq<char>>,
    caller_session: Seq<char>,
    caller_principal: Option<Seq<char>>,
) -> bool {
    forall|i: int|
        0 <= i < sessions.len() ==> #[trigger] sessions[i] == caller_session || same_owner(
            m,
            sessions[i],
            caller_principal,
        )
}

/// Check the sessions a `subscribe` filter names (see
/// [`filter_sessions_permitted`]); a refused filter is answered with
/// `PERMISSION_DENIED`.
pub fn subscribe_filter_permitted(
    principals: &SessionPrincipals,
    sessions: &Vec<SessionId>,
    caller_session: &SessionId,
    caller_principal: Option<&str>,
) -> (r: bool)
    requires
        principals.wf(),
    ensures
        r == filter_sessions_permitted(
            principals.view(),
            sessions@.map_values(|s: SessionId| s@),
            caller_session@,
            match caller_principal {
                Some(p) => Some(p@),
                None => None,
            },
        ),
{
    let ghost cp = match caller_principal {
        Some(p) => Some(p@),
        None => None,
    };
    let ghost views = sessions@.map_values(|s: SessionId| s@);
    let mut i: usize = 0;
    while i < sessions.len()
        invariant
            i <= sessions.len(),
            principals.wf(),
            views == sessions@.map_values(|s: SessionId| s@),
            cp == match caller_principal {
                Some(p) => Some(p@),
                None => None::<Seq<char>>,
            },
            forall|k: int|
                0 <= k < i ==> #[trigger] views[k] == caller_session@ || same_owner(
                    principals.view(),
                    views[k],
                    cp,
                ),
        decreases sessions.len() - i,
    {
        let named = &sessions[i];
        let ok = str_eq(named.as_str(), caller_session.as_str()) || cancel_principal_matches(
            principals,
            named,
            caller_principal,
        );
        if !ok {
            assert(!(views[i as int] == caller_session@ || same_owner(principals.view(), views[i as int], cp)));
            return false;
        }
        i = i + 1;
    }
    true
}

/// A session always sees its own events, and an anonymous subscriber sees
/// nothing but its own session.
pub proof fn lemma_scope_own_session_only_when_anonymous(
    m: Map<Seq<char>, Option<Seq<char>>>,
    subscriber_session: Seq<char>,
    event_session: Seq<char>,
)
    ensures
        scope_permits(m, subscriber_session, None, Some(subscriber_session)),
        scope_permits(m, subscriber_session, None, Some(event_session)) <==> event_session
            == subscriber_session,
{
}

/// An anonymous requester can never act on another session's job.
pub proof fn lemma_anonymous_never_matches(m: Map<Seq<char>, Option<Seq<char>>>, session: Seq<char>)
    ensures
        !same_owner(m, session, None),
{
}

} // verus!
