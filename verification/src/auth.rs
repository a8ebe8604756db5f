//! Authentication decisions: the outcomes of a handshake and the bundled
//! bearer-token and anonymous authenticators.

use vstd::prelude::*;

use crate::error::ARCPError;
use crate::messages::session::{AuthScheme, ClientIdentity, Credentials};
use crate::messages::{capability_flag, Capabilities, CapabilityName};
use crate::table::{lemma_table_entry, lemma_table_push, lemma_table_update, table_view, table_wf};
use crate::text::str_eq;

verus! {

broadcast use vstd::string::group_string_axioms;

/// Result of authenticating a `session.open` or a challenge response.
#[derive(Debug, Clone, PartialEq, Eq)]
pub enum AuthOutcome {
    /// Credentials validated; the session belongs to `principal`.
    Accept {
        /// Authenticated principal.
        principal: String,
    },
    /// A further round trip is needed.
    Challenge {
        /// Challenge sent to the client.
        challenge: String,
    },
    /// Credentials refused.
    Reject {
        /// Why.
        reason: String,
    },
}

/// Registry key of an auth scheme (its wire name).
pub open spec fn scheme_key_spec(s: AuthScheme) -> &'static str {
    match s {
        AuthScheme::Bearer => "bearer",
        AuthScheme::SignedJwt => "signed_jwt",
        AuthScheme::Anonymous => "none",
        AuthScheme::Mtls => "mtls",
        AuthScheme::Oauth2 => "oauth2",
    }
}

/// Registry key of an auth scheme: its wire name.
pub fn scheme_key(s: AuthScheme) -> (k: &'static str)
    ensures
        k == scheme_key_spec(s),
{
    match s {
        AuthScheme::Bearer => "bearer",
        AuthScheme::SignedJwt => "signed_jwt",
        AuthScheme::Anonymous => "none",
        AuthScheme::Mtls => "mtls",
        AuthScheme::Oauth2 => "oauth2",
    }
}

/// The principal a bearer token authenticates as under `store`: none for a
/// missing or unknown token.
pub open spec fn bearer_principal(store: Map<Seq<char>, Seq<char>>, token: Option<Seq<char>>) -> Option<
    Seq<char>,
> {
    match token {
        Some(t) => if store.contains_key(t) {
            Some(store[t])
        } else {
            None
        },
        None => None,
    }
}

/// In-memory bearer-token store mapping `token -> principal`.
#[derive(Debug, Clone)]
pub struct BearerAuthenticator {
    tokens: Vec<(String, String)>,
}

impl BearerAuthenticator {
    spec fn rows(&self) -> Seq<(Seq<char>, Seq<char>)> {
        self.tokens@.map_values(|r: (String, String)| (r.0@, r.1@))
    }

    /// The store: token to principal.
    pub closed spec fn view(&self) -> Map<Seq<char>, Seq<char>> {
        table_view(self.rows())
    }

    /// Invariant: one principal per token.
    pub closed spec fn wf(&self) -> bool {
        table_wf(self.rows())
    }

    /// An empty store.
    pub fn new() -> (a: Self)
        ensures
            a.wf(),
            a.view() == Map::<Seq<char>, Seq<char>>::empty(),
    {
        let a = BearerAuthenticator { tokens: Vec::new() };
        assert(a.view() =~= Map::<Seq<char>, Seq<char>>::empty());
        a
    }

    /// The scheme this authenticator handles.
    pub fn scheme(&self) -> (s: AuthScheme)
        ensures
            s == AuthScheme::Bearer,
    {
        AuthScheme::Bearer
    }

    /// Add (or replace) a `token -> principal` mapping.
    pub fn with_token(self, token: &str, principal: &str) -> (a: Self)
        requires
            self.wf(),
        ensures
            a.wf(),
            a.view() == self.view().insert(token@, principal@),
    {
        let mut a = self;
        let ghost before = a.rows();
        let mut i: usize = 0;
        while i < a.tokens.len()
            invariant
                i <= a.tokens.len(),
                before == a.rows(),
                before == self.rows(),
                table_wf(before),
                forall|k: int| 0 <= k < i ==> a.rows()[k].0 != token@,
            decreases a.tokens.len() - i,
        {
            if str_eq(a.tokens[i].0.as_str(), token) {
                a.tokens.set(i, (token.to_owned(), principal.to_owned()));
                assert(a.rows() =~= before.update(i as int, (before[i as int].0, principal@)));
                proof {
                    lemma_table_update(before, i as int, principal@);
                }
                return a;
            }
            i = i + 1;
        }
        proof {
            if table_view(before).contains_key(token@) {
                let k = choose|k: int| 0 <= k < before.len() && #[trigger] before[k].0 == token@;
                assert(before[k].0 != token@);
            }
        }
        a.tokens.push((token.to_owned(), principal.to_owned()));
        assert(a.rows() =~= before.push((token@, principal@)));
        proof {
            lemma_table_push(before, token@, principal@);
        }
        a
    }

    /// Accept a known token as its principal; reject a missing or unknown
    /// token. Never fails.
    pub fn authenticate(&self, creds: &Credentials, client: &ClientIdentity, negotiated: &Capabilities) -> (r:
        Result<AuthOutcome, ARCPError>)
        requires
            self.wf(),
        ensures
            match bearer_principal(
                self.view(),
                match creds.token {
                    Some(t) => Some(t@),
                    None => None,
                },
            ) {
                Some(p) => r matches Ok(AuthOutcome::Accept { principal }) && principal@ == p,
                None => r matches Ok(AuthOutcome::Reject { reason }) && reason@ == if creds.token is None {
                    "bearer scheme requires a token"@
                } else {
                    "unknown bearer token"@
                },
            },
    {
        let token = match &creds.token {
            Some(t) => t,
            None => {
                return Ok(AuthOutcome::Reject { reason: "bearer scheme requires a token".to_owned() });
            },
        };
        let mut i: usize = 0;
        while i < self.tokens.len()
            invariant
                i <= self.tokens.len(),
                self.wf(),
                creds.token matches Some(t) && t@ == token@,
                forall|k: int| 0 <= k < i ==> self.rows()[k].0 != token@,
            decreases self.tokens.len() - i,
        {
            if str_eq(self.tokens[i].0.as_str(), token.as_str()) {
                proof {
                    lemma_table_entry(self.rows(), i as int);
                }
                return Ok(AuthOutcome::Accept { principal: self.tokens[i].1.clone() });
            }
            i = i + 1;
        }
        proof {
            if self.view().contains_key(token@) {
                let k = choose|k: int| 0 <= k < self.rows().len() && #[trigger] self.rows()[k].0 == token@;
                assert(self.rows()[k].0 != token@);
            }
        }
        Ok(AuthOutcome::Reject { reason: "unknown bearer token".to_owned() })
    }
}

/// A token registered with `with_token` authenticates as its principal,
/// and registering it leaves what every other token authenticates as (or
/// whether it is refused) as it was.
pub proof fn lemma_bearer_read_after_write(
    store: Map<Seq<char>, Seq<char>>,
    token: Seq<char>,
    principal: Seq<char>,
    other: Option<Seq<char>>,
)
    ensures
        bearer_principal(store.insert(token, principal), Some(token)) == Some(principal),
        bearer_principal(store.insert(token, principal), None) is None,
        other != Some(token) ==> bearer_principal(store.insert(token, principal), other)
            == bearer_principal(store, other),
{
}

/// Authenticator for the `none` scheme: accepts as `"anonymous"` only when
/// anonymous sessions were negotiated.
#[derive(Debug, Clone, Copy, Default)]
pub struct NoneAuthenticator;

impl NoneAuthenticator {
    /// Construct.
    pub fn new() -> (a: Self)
        ensures
            a == NoneAuthenticator,
    {
        NoneAuthenticator
    }

    /// The scheme this authenticator handles.
    pub fn scheme(&self) -> (s: AuthScheme)
        ensures
            s == AuthScheme::Anonymous,
    {
        AuthScheme::Anonymous
    }

    /// Accept as `"anonymous"` exactly when `negotiated` has the
    /// `anonymous` capability set; never fails.
    pub fn authenticate(&self, creds: &Credentials, client: &ClientIdentity, negotiated: &Capabilities) -> (r:
        Result<AuthOutcome, ARCPError>)
        ensures
            capability_flag(*negotiated, CapabilityName::Anonymous) == Some(true) ==> (r matches Ok(
                AuthOutcome::Accept { principal },
            ) && principal@ == "anonymous"@),
            capability_flag(*negotiated, CapabilityName::Anonymous) != Some(true) ==> (r matches Ok(
                AuthOutcome::Reject { reason },
            ) && reason@ == "anonymous auth requires capabilities.anonymous: true"@),
    {
        if negotiated.has(CapabilityName::Anonymous) {
            Ok(AuthOutcome::Accept { principal: "anonymous".to_owned() })
        } else {
            Ok(
                AuthOutcome::Reject {
                    reason: "anonymous auth requires capabilities.anonymous: true".to_owned(),
                },
            )
        }
    }
}

} // verus!
