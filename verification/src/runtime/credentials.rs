//! Provisioned credentials of lease-bound jobs: the reference in-memory
//! provisioner, the child-lease subset rule and the ledger of outstanding
//! credential ids.

use vstd::prelude::*;

use crate::decimal::{decimal, u64_decimal};
use crate::error::{error_code, error_detail, ARCPError, ErrorCode};
use crate::ids::{JobId, SessionId};
use crate::messages::credentials::{
    credential_id_text, credential_view, CredentialId, CredentialScheme, CredentialView, ProvisionedCredential,
};
use crate::messages::permissions::{
    lease_violation, remaining_view, violation_debug_text, LeaseRequest, RemainingBudget,
};
use crate::table::{
    lemma_filter_all, lemma_filter_filter, lemma_filter_none, lemma_table_entry, lemma_table_push, lemma_table_remove,
    lemma_table_update, table_view, table_wf,
};
use crate::text::str_eq;

verus! {

broadcast use vstd::string::group_string_axioms;

/// Job metadata handed to a provisioner.
#[derive(Debug, Clone, PartialEq, Eq)]
pub struct CredentialJobContext {
    /// Job receiving the credential.
    pub job_id: JobId,
    /// Owning session.
    pub session_id: SessionId,
    /// Authenticated principal, if any.
    pub principal: Option<String>,
    /// Parent job for delegated jobs.
    pub parent_job_id: Option<JobId>,
}

// ---------------------------------------------------------------------
// The reference provisioner
// ---------------------------------------------------------------------

/// Reference provisioner for tests and examples: it mints one bearer
/// credential per issue (`cred_<n>` with value `test-token-<n>`, counting
/// from one) and remembers what it issued and revoked.
#[derive(Clone)]
pub struct InMemoryCredentialProvisioner {
    counter: u64,
    issued: Vec<ProvisionedCredential>,
    revoked: Vec<CredentialId>,
}

/// Secret value of the `n`-th test credential.
pub open spec fn test_token(n: u64) -> Seq<char> {
    "test-token-"@ + decimal(n as nat)
}

impl InMemoryCredentialProvisioner {
    /// Number of credentials issued so far.
    pub closed spec fn count(&self) -> u64 {
        self.counter
    }

    /// Ids of the credentials issued so far, in order.
    pub closed spec fn issued_view(&self) -> Seq<CredentialView> {
        self.issued@.map_values(|c: ProvisionedCredential| credential_view(c))
    }

    /// Ids revoked so far, in order.
    pub closed spec fn revoked_view(&self) -> Seq<Seq<char>> {
        self.revoked@.map_values(|c: CredentialId| c@)
    }

    /// Number of credentials issued so far.
    pub fn issued_count(&self) -> (n: u64)
        ensures
            n == self.count(),
    {
        self.counter
    }

    /// A provisioner that has issued nothing.
    pub fn new() -> (p: Self)
        ensures
            p.count() == 0,
            p.issued_view() == Seq::<CredentialView>::empty(),
            p.revoked_view() == Seq::<Seq<char>>::empty(),
    {
        let p = InMemoryCredentialProvisioner { counter: 0, issued: Vec::new(), revoked: Vec::new() };
        assert(p.issued_view() =~= Seq::<CredentialView>::empty());
        assert(p.revoked_view() =~= Seq::<Seq<char>>::empty());
        p
    }

    /// Issue one credential constrained by `lease`: the next id in
    /// sequence, a bearer token, the test endpoint and profile.
    pub fn issue(&mut self, lease: &LeaseRequest, ctx: &CredentialJobContext) -> (r: Result<
        Vec<ProvisionedCredential>,
        ARCPError,
    >)
        requires
            old(self).count() < u64::MAX,
        ensures
            final(self).count() == old(self).count() + 1,
            final(self).revoked_view() == old(self).revoked_view(),
            r matches Ok(creds) && creds.len() == 1 && {
                let c = creds[0];
                let n = final(self).count();
                &&& c.id@ == credential_id_text(n)
                &&& c.scheme == CredentialScheme::Bearer
                &&& c.value@ == test_token(n)
                &&& c.endpoint@ == "https://example.invalid/llm"@
                &&& c.profile matches Some(p) && p@ == "test"@
                &&& c.constraints matches Some(k) && k@ == lease@
                &&& final(self).issued_view() == old(self).issued_view().push(credential_view(c))
            },
    {
        self.counter = self.counter + 1;
        let n = self.counter;
        let mut value = "test-token-".to_owned();
        value.append(u64_decimal(n).as_str());
        let make = || -> (c: ProvisionedCredential)
            ensures
                c.id@ == credential_id_text(n),
                c.scheme == CredentialScheme::Bearer,
                c.value@ == test_token(n),
                c.endpoint@ == "https://example.invalid/llm"@,
                c.profile matches Some(p) && p@ == "test"@,
                c.constraints matches Some(k) && k@ == lease@,
        {
            proof {
                reveal_strlit("test-token-");
            }
            ProvisionedCredential {
                id: CredentialId::new(n),
                scheme: CredentialScheme::Bearer,
                value: value.clone(),
                endpoint: "https://example.invalid/llm".to_owned(),
                profile: Some("test".to_owned()),
                constraints: Some(lease.clone_lease()),
            }
        };
        let kept = make();
        let handed = make();
        let ghost before = self.issued@;
        self.issued.push(kept);
        assert(self.issued_view() =~= before.map_values(|c: ProvisionedCredential| credential_view(c)).push(
            credential_view(handed),
        ));
        Ok(vec![handed])
    }

    /// Record that credential `id` was revoked.
    pub fn revoke(&mut self, id: &CredentialId) -> (r: Result<(), ARCPError>)
        ensures
            r is Ok,
            final(self).revoked_view() == old(self).revoked_view().push(id@),
            final(self).issued_view() == old(self).issued_view(),
            final(self).count() == old(self).count(),
    {
        let ghost before = self.revoked@;
        self.revoked.push(id.clone());
        assert(self.revoked_view() =~= before.map_values(|c: CredentialId| c@).push(id@));
        Ok(())
    }

    /// Ids of the credentials revoked so far, in order.
    pub fn revoked_ids(&self) -> (r: Vec<CredentialId>)
        ensures
            r@.map_values(|c: CredentialId| c@) == self.revoked_view(),
    {
        let mut out: Vec<CredentialId> = Vec::new();
        let mut i: usize = 0;
        while i < self.revoked.len()
            invariant
                i <= self.revoked.len(),
                out.len() == i,
                forall|k: int| 0 <= k < i ==> #[trigger] out@[k]@ == self.revoked@[k]@,
            decreases self.revoked.len() - i,
        {
            out.push(self.revoked[i].clone());
            i = i + 1;
        }
        assert(out@.map_values(|c: CredentialId| c@) =~= self.revoked_view());
        out
    }

    /// The credentials issued so far, in order, secrets included.
    pub fn issued_credentials(&self) -> (r: Vec<ProvisionedCredential>)
        ensures
            r@.map_values(|c: ProvisionedCredential| credential_view(c)) == self.issued_view(),
    {
        let mut out: Vec<ProvisionedCredential> = Vec::new();
        let mut i: usize = 0;
        while i < self.issued.len()
            invariant
                i <= self.issued.len(),
                out.len() == i,
                forall|k: int| 0 <= k < i ==> #[trigger] credential_view(out@[k]) == credential_view(self.issued@[k]),
            decreases self.issued.len() - i,
        {
            out.push(self.issued[i].clone_credential());
            i = i + 1;
        }
        assert(out@.map_values(|c: ProvisionedCredential| credential_view(c)) =~= self.issued_view());
        out
    }

    /// A child credential's lease must not widen its parent's:
    /// `LEASE_SUBSET_VIOLATION` exactly when the subset check finds a
    /// violation (no budget has been spent yet).
    pub fn validate_child_constraints(parent: &LeaseRequest, child: &LeaseRequest) -> (r: Result<
        (),
        ARCPError,
    >)
        ensures
            r is Ok <==> lease_violation(parent@, child@, Seq::<(Seq<char>, u64)>::empty()) is None,
            r matches Err(e) ==> error_code(e) == ErrorCode::LeaseSubsetViolation && (lease_violation(
                parent@,
                child@,
                Seq::<(Seq<char>, u64)>::empty(),
            ) matches Some(v) && error_detail(e) == violation_debug_text(v)),
    {
        let none: RemainingBudget = Vec::new();
        assert(remaining_view(none@) =~= Seq::<(Seq<char>, u64)>::empty());
        match parent.subset_violation(child, &none) {
            Some(v) => Err(ARCPError::LeaseSubsetViolation { detail: v.debug_text() }),
            None => Ok(()),
        }
    }
}

// ---------------------------------------------------------------------
// The ledger of outstanding credentials
// ---------------------------------------------------------------------

/// Outstanding credential ids by job.
#[derive(Clone)]
pub struct CredentialLedger {
    rows: Vec<(JobId, Vec<CredentialId>)>,
}

/// View of a list of credential ids.
pub open spec fn cred_ids(v: Seq<CredentialId>) -> Seq<Seq<char>> {
    v.map_values(|c: CredentialId| c@)
}

/// Outstanding ids of `job` in a ledger view (none when absent).
pub open spec fn outstanding(m: Map<Seq<char>, Seq<Seq<char>>>, job: Seq<char>) -> Seq<Seq<char>> {
    if m.contains_key(job) {
        m[job]
    } else {
        Seq::empty()
    }
}

/// The ledger after recording `ids` for `job`: appended to what is already
/// outstanding (an empty list changes nothing).
pub open spec fn ledger_recorded(m: Map<Seq<char>, Seq<Seq<char>>>, job: Seq<char>, ids: Seq<Seq<char>>) -> Map<
    Seq<char>,
    Seq<Seq<char>>,
> {
    if ids.len() == 0 {
        m
    } else {
        m.insert(job, outstanding(m, job) + ids)
    }
}

/// The ledger after revoking credential `id` of `job`: it leaves the job's
/// outstanding ids, and a job left with none leaves the ledger.
pub open spec fn ledger_revoked(m: Map<Seq<char>, Seq<Seq<char>>>, job: Seq<char>, id: Seq<char>) -> Map<
    Seq<char>,
    Seq<Seq<char>>,
> {
    let rest = outstanding(m, job).filter(|c: Seq<char>| c != id);
    if !m.contains_key(job) {
        m
    } else if rest.len() == 0 {
        m.remove(job)
    } else {
        m.insert(job, rest)
    }
}

impl CredentialLedger {
    spec fn table(&self) -> Seq<(Seq<char>, Seq<Seq<char>>)> {
        self.rows@.map_values(|r: (JobId, Vec<CredentialId>)| (r.0@, cred_ids(r.1@)))
    }

    /// Job id to its outstanding credential ids, in issue order.
    pub closed spec fn view(&self) -> Map<Seq<char>, Seq<Seq<char>>> {
        table_view(self.table())
    }

    /// Invariant: one row per job, and no job listed without an
    /// outstanding credential.
    pub closed spec fn wf(&self) -> bool {
        &&& table_wf(self.table())
        &&& forall|i: int| 0 <= i < self.table().len() ==> #[trigger] self.table()[i].1.len() > 0
    }

    /// An empty ledger.
    pub fn new() -> (l: Self)
        ensures
            l.wf(),
            l.view() == Map::<Seq<char>, Seq<Seq<char>>>::empty(),
    {
        let l = CredentialLedger { rows: Vec::new() };
        assert(l.view() =~= Map::<Seq<char>, Seq<Seq<char>>>::empty());
        l
    }

    fn find(&self, job_id: &JobId) -> (r: Option<usize>)
        requires
            self.wf(),
        ensures
            match r {
                Some(i) => i < self.table().len() && self.table()[i as int].0 == job_id@,
                None => !self.view().contains_key(job_id@),
            },
    {
        let mut i: usize = 0;
        while i < self.rows.len()
            invariant
                i <= self.rows.len(),
                forall|k: int| 0 <= k < i ==> self.table()[k].0 != job_id@,
            decreases self.rows.len() - i,
        {
            if str_eq(self.rows[i].0.as_str(), job_id.as_str()) {
                return Some(i);
            }
            i = i + 1;
        }
        proof {
            if self.view().contains_key(job_id@) {
                let k = choose|k: int| 0 <= k < self.table().len() && #[trigger] self.table()[k].0 == job_id@;
                assert(self.table()[k].0 != job_id@);
            }
        }
        None
    }

    /// Record the credentials issued for `job_id` after any already
    /// outstanding for it (nothing happens for an empty list).
    pub fn record_issued(&mut self, job_id: &JobId, credentials: &Vec<ProvisionedCredential>)
        requires
            old(self).wf(),
        ensures
            final(self).wf(),
            final(self).view() == ledger_recorded(
                old(self).view(),
                job_id@,
                credentials@.map_values(|c: ProvisionedCredential| c.id@),
            ),
    {
        if credentials.len() == 0 {
            return;
        }
        let mut ids: Vec<CredentialId> = Vec::new();
        let mut i: usize = 0;
        while i < credentials.len()
            invariant
                i <= credentials.len(),
                ids.len() == i,
                forall|k: int| 0 <= k < i ==> #[trigger] ids@[k]@ == credentials@[k].id@,
            decreases credentials.len() - i,
        {
            ids.push(credentials[i].id.clone());
            i = i + 1;
        }
        let ghost new_ids = credentials@.map_values(|c: ProvisionedCredential| c.id@);
        assert(cred_ids(ids@) =~= new_ids);
        let ghost before = self.table();
        match self.find(job_id) {
            Some(j) => {
                proof {
                    lemma_table_entry(before, j as int);
                }
                let mut row_ids = clone_ids(&self.rows[j].1);
                let ghost old_ids = cred_ids(row_ids@);
                row_ids.append(&mut ids);
                assert(cred_ids(row_ids@) =~= old_ids + new_ids);
                self.rows.set(j, (job_id.clone(), row_ids));
                assert(self.table() =~= before.update(j as int, (before[j as int].0, old_ids + new_ids)));
                proof {
                    lemma_table_update(before, j as int, old_ids + new_ids);
                    assert forall|x: int| 0 <= x < self.table().len() implies #[trigger] self.table()[x].1.len() > 0 by {
                        if x != j {
                            assert(before[x].1.len() > 0);
                        }
                    }
                }
            },
            None => {
                self.rows.push((job_id.clone(), ids));
                assert(self.table() =~= before.push((job_id@, new_ids)));
                proof {
                    lemma_table_push(before, job_id@, new_ids);
                    assert forall|x: int| 0 <= x < self.table().len() implies #[trigger] self.table()[x].1.len() > 0 by {
                        if x < before.len() {
                            assert(before[x].1.len() > 0);
                        }
                    }
                    assert(outstanding(table_view(before), job_id@) =~= Seq::<Seq<char>>::empty());
                    assert(Seq::<Seq<char>>::empty() + new_ids =~= new_ids);
                }
            },
        }
    }

    /// Outstanding ids of `job_id`, in issue order.
    pub fn outstanding_for_job(&self, job_id: &JobId) -> (r: Vec<CredentialId>)
        requires
            self.wf(),
        ensures
            cred_ids(r@) == outstanding(self.view(), job_id@),
    {
        match self.find(job_id) {
            Some(j) => {
                proof {
                    lemma_table_entry(self.table(), j as int);
                }
                clone_ids(&self.rows[j].1)
            },
            None => {
                let r: Vec<CredentialId> = Vec::new();
                assert(cred_ids(r@) =~= Seq::<Seq<char>>::empty());
                r
            },
        }
    }

    /// Mark credential `credential_id` of `job_id` revoked: it leaves the
    /// job's outstanding ids, and a job left with none leaves the ledger.
    pub fn mark_revoked(&mut self, job_id: &JobId, credential_id: &CredentialId)
        requires
            old(self).wf(),
        ensures
            final(self).wf(),
            final(self).view() == ledger_revoked(old(self).view(), job_id@, credential_id@),
    {
        let j = match self.find(job_id) {
            Some(j) => j,
            None => {
                return;
            },
        };
        let ghost before = self.table();
        proof {
            lemma_table_entry(before, j as int);
        }
        let ghost pred = |c: Seq<char>| c != credential_id@;
        let ghost src = before[j as int].1;
        let ids = &self.rows[j].1;
        let mut kept: Vec<CredentialId> = Vec::new();
        let mut i: usize = 0;
        assert(src.take(0).filter(pred) =~= Seq::<Seq<char>>::empty()) by {
            reveal(Seq::filter);
        }
        while i < ids.len()
            invariant
                i <= ids.len(),
                src == cred_ids(ids@),
                pred == (|c: Seq<char>| c != credential_id@),
                cred_ids(kept@) == src.take(i as int).filter(pred),
            decreases ids.len() - i,
        {
            assert(src.take(i + 1) =~= src.take(i as int).push(src[i as int]));
            proof {
                src.take(i as int).lemma_filter_push(src[i as int], pred);
            }
            if !str_eq(ids[i].as_str(), credential_id.as_str()) {
                let ghost k0 = kept@;
                kept.push(ids[i].clone());
                assert(cred_ids(kept@) =~= cred_ids(k0).push(src[i as int]));
            }
            i = i + 1;
        }
        assert(src.take(ids.len() as int) =~= src);
        let ghost rest = src.filter(pred);
        if kept.len() == 0 {
            let _ = self.rows.remove(j);
            assert(self.table() =~= before.remove(j as int));
            proof {
                lemma_table_remove(before, j as int);
                assert forall|x: int| 0 <= x < self.table().len() implies #[trigger] self.table()[x].1.len() > 0 by {
                    let xo = if x < j { x } else { x + 1 };
                    assert(self.table()[x] == before[xo]);
                    assert(before[xo].1.len() > 0);
                }
            }
        } else {
            self.rows.set(j, (job_id.clone(), kept));
            assert(self.table() =~= before.update(j as int, (before[j as int].0, rest)));
            proof {
                lemma_table_update(before, j as int, rest);
                assert forall|x: int| 0 <= x < self.table().len() implies #[trigger] self.table()[x].1.len() > 0 by {
                    if x != j {
                        assert(before[x].1.len() > 0);
                    }
                }
            }
        }
    }
}

/// A copy of a list of credential ids.
fn clone_ids(v: &Vec<CredentialId>) -> (r: Vec<CredentialId>)
    ensures
        cred_ids(r@) == cred_ids(v@),
{
    let mut out: Vec<CredentialId> = Vec::new();
    let mut i: usize = 0;
    while i < v.len()
        invariant
            i <= v.len(),
            out.len() == i,
            forall|k: int| 0 <= k < i ==> #[trigger] out@[k]@ == v@[k]@,
        decreases v.len() - i,
    {
        out.push(v[i].clone());
        i = i + 1;
    }
    assert(cred_ids(out@) =~= cred_ids(v@));
    out
}

/// A credential stays outstanding until it is revoked: right after its
/// job's credentials are recorded it is outstanding for that job; revoking
/// it removes it from the job's outstanding ids and leaves every other
/// job's outstanding ids as they were before the recording.
pub proof fn lemma_outstanding_until_revoked(
    ledger: Map<Seq<char>, Seq<Seq<char>>>,
    job: Seq<char>,
    ids: Seq<Seq<char>>,
    id: Seq<char>,
    other_job: Seq<char>,
)
    requires
        ids.contains(id),
    ensures
        outstanding(ledger_recorded(ledger, job, ids), job).contains(id),
        !outstanding(ledger_revoked(ledger_recorded(ledger, job, ids), job, id), job).contains(id),
        other_job != job ==> outstanding(ledger_revoked(ledger_recorded(ledger, job, ids), job, id), other_job)
            == outstanding(ledger, other_job),
{
    let recorded = ledger_recorded(ledger, job, ids);
    let all = outstanding(ledger, job) + ids;
    let k = choose|k: int| 0 <= k < ids.len() && ids[k] == id;
    assert(all[outstanding(ledger, job).len() + k] == id);
    assert(outstanding(recorded, job) == all);
    let pred = |c: Seq<char>| c != id;
    broadcast use vstd::seq_lib::group_filter_ensures;
    let rest = all.filter(pred);
    if rest.contains(id) {
        let j = choose|j: int| 0 <= j < rest.len() && rest[j] == id;
        assert(pred(rest[j]));
    }
}

/// The ids of `v` not among its first `i`: what is still outstanding
/// after revoking those.
pub open spec fn not_yet_revoked(v: Seq<Seq<char>>, i: int) -> Seq<Seq<char>> {
    v.filter(|c: Seq<char>| !v.take(i).contains(c))
}

/// The ledger with `job`'s outstanding ids replaced by `rest` (the job
/// leaves the ledger when `rest` is empty).
pub open spec fn ledger_with(m: Map<Seq<char>, Seq<Seq<char>>>, job: Seq<char>, rest: Seq<Seq<char>>) -> Map<
    Seq<char>,
    Seq<Seq<char>>,
> {
    if rest.len() == 0 {
        m.remove(job)
    } else {
        m.insert(job, rest)
    }
}

impl CredentialLedger {
    /// A job listed in the ledger has an outstanding id.
    proof fn lemma_listed_nonempty(&self, job: Seq<char>)
        requires
            self.wf(),
            self.view().contains_key(job),
        ensures
            self.view()[job].len() > 0,
    {
        let t = self.table();
        let k = choose|k: int| 0 <= k < t.len() && #[trigger] t[k].0 == job;
        lemma_table_entry(t, k);
        assert(t[k].1.len() > 0);
    }
}

/// Revoking the next id leaves exactly the ids not yet revoked.
proof fn lemma_revoke_step(v: Seq<Seq<char>>, i: int)
    requires
        0 <= i < v.len(),
    ensures
        not_yet_revoked(v, i).filter(|c: Seq<char>| c != v[i]) == not_yet_revoked(v, i + 1),
{
    let p = |c: Seq<char>| !v.take(i).contains(c);
    let q = |c: Seq<char>| c != v[i];
    lemma_filter_filter(v, p, q);
    assert(v.take(i + 1) =~= v.take(i).push(v[i]));
    let both = |c: Seq<char>| p(c) && q(c);
    let next = |c: Seq<char>| !v.take(i + 1).contains(c);
    assert forall|c: Seq<char>| #[trigger] both(c) == next(c) by {
        if v.take(i).push(v[i]).contains(c) && !v.take(i).contains(c) {
            let k = choose|k: int| 0 <= k < i + 1 && v.take(i).push(v[i])[k] == c;
            if k < i {
                assert(v.take(i)[k] == c);
            }
        }
        if v.take(i).contains(c) {
            let k = choose|k: int| 0 <= k < i && v.take(i)[k] == c;
            assert(v.take(i).push(v[i])[k] == c);
        }
        if c == v[i] {
            assert(v.take(i).push(v[i])[i] == c);
        }
    }
    assert(both =~= next);
}

/// Revoke every outstanding credential of `job_id` with the provisioner,
/// in issue order, marking each revoked in the ledger; the outcome is
/// [`revocation_result`]. The in-memory provisioner never refuses, so the
/// job leaves the ledger and the outcome is `Ok`; with a provisioner that
/// may refuse, [`RevocationRun`] decides the retries and the outcome.
pub fn revoke_all_for_job(
    ledger: &mut CredentialLedger,
    provisioner: &mut InMemoryCredentialProvisioner,
    job_id: &JobId,
) -> (r: Result<(), ARCPError>)
    requires
        old(ledger).wf(),
    ensures
        r is Ok,
        final(ledger).wf(),
        final(ledger).view() == old(ledger).view().remove(job_id@),
        final(provisioner).revoked_view() == old(provisioner).revoked_view() + outstanding(
            old(ledger).view(),
            job_id@,
        ),
        final(provisioner).issued_view() == old(provisioner).issued_view(),
        final(provisioner).count() == old(provisioner).count(),
{
    let ids = ledger.outstanding_for_job(job_id);
    let ghost m = ledger.view();
    let ghost v = cred_ids(ids@);
    let ghost rev0 = provisioner.revoked_view();
    proof {
        assert forall|i: int| 0 <= i < v.len() implies (|c: Seq<char>| !v.take(0).contains(c))(
            #[trigger] v[i],
        ) by {}
        lemma_filter_all(v, |c: Seq<char>| !v.take(0).contains(c));
        if m.contains_key(job_id@) {
            ledger.lemma_listed_nonempty(job_id@);
            assert(ledger_with(m, job_id@, v) =~= m);
        } else {
            assert(ledger_with(m, job_id@, v) =~= m);
        }
        assert(rev0 + v.take(0) =~= rev0);
    }
    let mut last_error: Option<ARCPError> = None;
    let mut i: usize = 0;
    while i < ids.len()
        invariant
            i <= ids.len(),
            v == cred_ids(ids@),
            v == outstanding(m, job_id@),
            ledger.wf(),
            ledger.view() == ledger_with(m, job_id@, not_yet_revoked(v, i as int)),
            provisioner.revoked_view() == rev0 + v.take(i as int),
            provisioner.issued_view() == old(provisioner).issued_view(),
            provisioner.count() == old(provisioner).count(),
            last_error is None,
        decreases ids.len() - i,
    {
        proof {
            lemma_revoke_step(v, i as int);
        }
        let ghost before = ledger.view();
        match provisioner.revoke(&ids[i]) {
            Ok(()) => {
                ledger.mark_revoked(job_id, &ids[i]);
            },
            Err(e) => {
                last_error = Some(e);
            },
        }
        proof {
            let rest = not_yet_revoked(v, i as int);
            let next = not_yet_revoked(v, i + 1);
            assert(ids@[i as int]@ == v[i as int]);
            if rest.len() == 0 {
                assert(next.len() == 0);
                assert(!before.contains_key(job_id@));
                assert(ledger.view() =~= ledger_with(m, job_id@, next));
            } else {
                assert(outstanding(before, job_id@) == rest);
                assert(ledger.view() =~= ledger_with(m, job_id@, next));
            }
            assert(v.take(i + 1) =~= v.take(i as int).push(v[i as int]));
            assert(rev0 + v.take(i + 1) =~= (rev0 + v.take(i as int)).push(v[i as int]));
        }
        i = i + 1;
    }
    proof {
        assert(v.take(v.len() as int) =~= v);
        assert forall|k: int| 0 <= k < v.len() implies !(|c: Seq<char>| !v.take(v.len() as int).contains(c))(
            #[trigger] v[k],
        ) by {
            assert(v.take(v.len() as int)[k] == v[k]);
        }
        lemma_filter_none(v, |c: Seq<char>| !v.take(v.len() as int).contains(c));
        assert(ledger.view() =~= m.remove(job_id@));
    }
    revocation_result(ledger, job_id, last_error)
}

/// Outcome of revoking every outstanding credential of a job: done when
/// none is left, else the last revocation error (or `UNAVAILABLE` when
/// none was reported).
pub fn revocation_result(ledger: &CredentialLedger, job_id: &JobId, last_error: Option<ARCPError>) -> (r:
    Result<(), ARCPError>)
    requires
        ledger.wf(),
    ensures
        r is Ok <==> outstanding(ledger.view(), job_id@).len() == 0,
        r matches Err(e) ==> match last_error {
            Some(l) => e == l,
            None => error_code(e) == ErrorCode::Unavailable && error_detail(e) == "credential revocation failed"@,
        },
{
    let left = ledger.outstanding_for_job(job_id);
    if left.len() == 0 {
        Ok(())
    } else {
        match last_error {
            Some(e) => Err(e),
            None => Err(ARCPError::Unavailable { detail: "credential revocation failed".to_owned() }),
        }
    }
}

// ---------------------------------------------------------------------
// Revoking with a provisioner that can refuse
// ---------------------------------------------------------------------

/// Attempts at revoking one credential before moving on.
pub const MAX_REVOKE_ATTEMPTS: u64 = 3;

/// Milliseconds to wait after the failed attempt number `failures`
/// (counted from 0) of a credential: 10, 20, then 40.
pub open spec fn revoke_backoff_ms(failures: nat) -> u64 {
    if failures == 0 {
        10
    } else if failures == 1 {
        20
    } else {
        40
    }
}

/// What a revocation run does next.
pub enum RevokeAction {
    /// Ask the provisioner to revoke this credential.
    Revoke(CredentialId),
    /// Every credential was tried: take the outcome from [`RevocationRun::finish`].
    Finish,
}

/// Mathematical form of a [`RevocationRun`].
pub struct RevocationView {
    /// The job whose credentials are revoked.
    pub job: Seq<char>,
    /// Its credentials outstanding when the run started, in issue order.
    pub ids: Seq<Seq<char>>,
    /// How many of them are done with (revoked, or tried three times).
    pub index: nat,
    /// Failed attempts at the current credential.
    pub failures: nat,
    /// The last error the provisioner reported.
    pub last_error: Option<ARCPError>,
}

/// The decisions of revoking every outstanding credential of a job with a
/// provisioner that may refuse: the credentials are taken in issue order,
/// each is tried until the provisioner accepts it, at most three times,
/// waiting 10, 20 and 40 ms after the failed attempts; an accepted one
/// leaves the ledger. The caller performs each revocation and reports its
/// outcome.
pub struct RevocationRun {
    job_id: JobId,
    ids: Vec<CredentialId>,
    index: usize,
    failures: u64,
    last_error: Option<ARCPError>,
}

impl RevocationRun {
    /// The run's state.
    pub closed spec fn view(&self) -> RevocationView {
        RevocationView {
            job: self.job_id@,
            ids: cred_ids(self.ids@),
            index: self.index as nat,
            failures: self.failures as nat,
            last_error: self.last_error,
        }
    }

    /// Invariant: the position is within the credentials, a credential is
    /// never past its third attempt, and nothing is pending at the end.
    pub closed spec fn wf(&self) -> bool {
        &&& self.index <= self.ids.len()
        &&& self.failures < MAX_REVOKE_ATTEMPTS
        &&& self.index == self.ids.len() ==> self.failures == 0
    }

    /// A run over what is outstanding for `job_id` now.
    pub fn start(ledger: &CredentialLedger, job_id: &JobId) -> (r: Self)
        requires
            ledger.wf(),
        ensures
            r.wf(),
            r@.job == job_id@,
            r@.ids == outstanding(ledger.view(), job_id@),
            r@.index == 0,
            r@.failures == 0,
            r@.last_error is None,
    {
        RevocationRun {
            job_id: job_id.clone(),
            ids: ledger.outstanding_for_job(job_id),
            index: 0,
            failures: 0,
            last_error: None,
        }
    }

    /// The next step: revoke the current credential, or finish once every
    /// credential was dealt with.
    pub fn next(&self) -> (a: RevokeAction)
        requires
            self.wf(),
        ensures
            self@.index < self@.ids.len() ==> (a matches RevokeAction::Revoke(id) && id@
                == self@.ids[self@.index as int]),
            self@.index >= self@.ids.len() ==> a is Finish,
    {
        if self.index < self.ids.len() {
            RevokeAction::Revoke(self.ids[self.index].clone())
        } else {
            RevokeAction::Finish
        }
    }

    /// Take the outcome of revoking the current credential. Accepted: it
    /// leaves the ledger and the run moves to the next credential. Refused:
    /// the error is kept, the run waits the returned milliseconds and tries
    /// again, or moves on after the third refusal.
    pub fn record(&mut self, ledger: &mut CredentialLedger, outcome: Result<(), ARCPError>) -> (delay_ms:
        Option<u64>)
        requires
            old(self).wf(),
            old(ledger).wf(),
            old(self)@.index < old(self)@.ids.len(),
        ensures
            final(self).wf(),
            final(ledger).wf(),
            final(self)@.job == old(self)@.job,
            final(self)@.ids == old(self)@.ids,
            match outcome {
                Ok(()) => {
                    &&& final(ledger).view() == ledger_revoked(
                        old(ledger).view(),
                        old(self)@.job,
                        old(self)@.ids[old(self)@.index as int],
                    )
                    &&& final(self)@.index == old(self)@.index + 1
                    &&& final(self)@.failures == 0
                    &&& final(self)@.last_error == old(self)@.last_error
                    &&& delay_ms is None
                },
                Err(e) => {
                    &&& final(ledger).view() == old(ledger).view()
                    &&& final(self)@.last_error == Some(e)
                    &&& delay_ms == Some(revoke_backoff_ms(old(self)@.failures))
                    &&& if old(self)@.failures + 1 == MAX_REVOKE_ATTEMPTS {
                        final(self)@.index == old(self)@.index + 1 && final(self)@.failures == 0
                    } else {
                        final(self)@.index == old(self)@.index && final(self)@.failures
                            == old(self)@.failures + 1
                    }
                },
            },
    {
        match outcome {
            Ok(()) => {
                ledger.mark_revoked(&self.job_id, &self.ids[self.index]);
                self.index = self.index + 1;
                self.failures = 0;
                None
            },
            Err(e) => {
                let delay: u64 = if self.failures == 0 {
                    10
                } else if self.failures == 1 {
                    20
                } else {
                    40
                };
                self.last_error = Some(e);
                if self.failures + 1 == MAX_REVOKE_ATTEMPTS {
                    self.index = self.index + 1;
                    self.failures = 0;
                } else {
                    self.failures = self.failures + 1;
                }
                Some(delay)
            },
        }
    }

    /// The run's outcome: done when nothing of the job is outstanding,
    /// else the last error the provisioner reported (see
    /// [`revocation_result`]).
    pub fn finish(self, ledger: &CredentialLedger) -> (r: Result<(), ARCPError>)
        requires
            ledger.wf(),
        ensures
            r is Ok <==> outstanding(ledger.view(), self@.job).len() == 0,
            r matches Err(e) ==> match self@.last_error {
                Some(l) => e == l,
                None => error_code(e) == ErrorCode::Unavailable && error_detail(e) == "credential revocation failed"@,
            },
    {
        revocation_result(ledger, &self.job_id, self.last_error)
    }
}

} // verus!
