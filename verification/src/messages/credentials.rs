//! Wire types for provisioned credentials.

use vstd::prelude::*;

use crate::messages::permissions::{LeaseRequest, LeaseRequestView};

verus! {

broadcast use vstd::string::group_string_axioms;

/// Lower-case hexadecimal digit of a nibble.
pub open spec fn hex_digit(d: u64) -> char {
    "0123456789abcdef"@[d as int]
}

/// Nibble `i` of `n`, counting from the most significant (`i == 0`).
pub open spec fn nibble(n: u64, i: int) -> u64 {
    (n >> ((60 - 4 * i) as u64)) & 15
}

/// `n` as exactly sixteen lower-case hexadecimal digits (`{:016x}`).
pub open spec fn hex16(n: u64) -> Seq<char> {
    Seq::new(16, |i: int| hex_digit(nibble(n, i)))
}

/// Wire text of the credential id minted for `sequence`.
pub open spec fn credential_id_text(sequence: u64) -> Seq<char> {
    seq!['c', 'r', 'e', 'd', '_'] + hex16(sequence)
}

/// Stable id for a runtime-issued provisioned credential.
#[derive(Debug, Hash)]
pub struct CredentialId(
    /// Wire string.
    pub String,
);

impl View for CredentialId {
    type V = Seq<char>;

    open spec fn view(&self) -> Seq<char> {
        self.0@
    }
}

impl Clone for CredentialId {
    fn clone(&self) -> (r: Self)
        ensures
            r@ == self@,
    {
        CredentialId(self.0.clone())
    }
}

impl PartialEq for CredentialId {
    fn eq(&self, other: &Self) -> (r: bool) {
        self.0 == other.0
    }
}

impl Eq for CredentialId {}

impl vstd::std_specs::cmp::PartialEqSpecImpl for CredentialId {
    open spec fn obeys_eq_spec() -> bool {
        true
    }

    open spec fn eq_spec(&self, other: &Self) -> bool {
        self@ == other@
    }
}

impl CredentialId {
    /// Mint a credential id with the canonical `cred_` prefix followed by
    /// the sequence number as sixteen lower-case hex digits.
    pub fn new(sequence: u64) -> (r: Self)
        ensures
            r@ == credential_id_text(sequence),
    {
        let digits = "0123456789abcdef";
        proof {
            reveal_strlit("0123456789abcdef");
            reveal_strlit("cred_");
        }
        let mut s = "cred_".to_owned();
        let mut i: u64 = 0;
        while i < 16
            invariant
                i <= 16,
                digits@ == "0123456789abcdef"@,
                s@ == seq!['c', 'r', 'e', 'd', '_'] + hex16(sequence).take(i as int),
            decreases 16 - i,
        {
            proof {
                reveal_strlit("0123456789abcdef");
            }
            let shift: u64 = 60 - 4 * i;
            let d: u64 = (sequence >> shift) & 15;
            proof {
                lemma_nibble_bound(sequence, shift);
            }
            assert(d == nibble(sequence, i as int));
            let one = digits.substring_char(d as usize, d as usize + 1);
            s.append(one);
            assert(hex16(sequence).take(i + 1) =~= hex16(sequence).take(i as int) + one@);
            i = i + 1;
        }
        assert(hex16(sequence).take(16) =~= hex16(sequence));
        CredentialId(s)
    }

    /// Borrow the wire string.
    pub fn as_str(&self) -> (s: &str)
        ensures
            s@ == self@,
    {
        self.0.as_str()
    }
}

/// Distinct nibbles have distinct digits.
proof fn lemma_hex_digit_injective(x: u64, y: u64)
    requires
        x < 16,
        y < 16,
        hex_digit(x) == hex_digit(y),
    ensures
        x == y,
{
    reveal_strlit("0123456789abcdef");
    let d = "0123456789abcdef"@;
    assert(d[0] == '0' && d[1] == '1' && d[2] == '2' && d[3] == '3' && d[4] == '4' && d[5] == '5'
        && d[6] == '6' && d[7] == '7' && d[8] == '8' && d[9] == '9' && d[10] == 'a' && d[11]
        == 'b' && d[12] == 'c' && d[13] == 'd' && d[14] == 'e' && d[15] == 'f');
}

/// A nibble is below sixteen.
proof fn lemma_nibble_bound(n: u64, shift: u64)
    ensures
        (n >> shift) & 15 < 16,
{
    assert((n >> shift) & 15 < 16) by (bit_vector);
}

/// Sixteen equal nibbles make equal numbers.
proof fn lemma_nibbles_equal(a: u64, b: u64)
    requires
        forall|i: int| 0 <= i < 16 ==> #[trigger] nibble(a, i) == nibble(b, i),
    ensures
        a == b,
{
    assert(nibble(a, 0) == nibble(b, 0));
    assert(nibble(a, 1) == nibble(b, 1));
    assert(nibble(a, 2) == nibble(b, 2));
    assert(nibble(a, 3) == nibble(b, 3));
    assert(nibble(a, 4) == nibble(b, 4));
    assert(nibble(a, 5) == nibble(b, 5));
    assert(nibble(a, 6) == nibble(b, 6));
    assert(nibble(a, 7) == nibble(b, 7));
    assert(nibble(a, 8) == nibble(b, 8));
    assert(nibble(a, 9) == nibble(b, 9));
    assert(nibble(a, 10) == nibble(b, 10));
    assert(nibble(a, 11) == nibble(b, 11));
    assert(nibble(a, 12) == nibble(b, 12));
    assert(nibble(a, 13) == nibble(b, 13));
    assert(nibble(a, 14) == nibble(b, 14));
    assert(nibble(a, 15) == nibble(b, 15));
    assert(a == b) by (bit_vector)
        requires
            (a >> 60u64) & 15 == (b >> 60u64) & 15,
            (a >> 56u64) & 15 == (b >> 56u64) & 15,
            (a >> 52u64) & 15 == (b >> 52u64) & 15,
            (a >> 48u64) & 15 == (b >> 48u64) & 15,
            (a >> 44u64) & 15 == (b >> 44u64) & 15,
            (a >> 40u64) & 15 == (b >> 40u64) & 15,
            (a >> 36u64) & 15 == (b >> 36u64) & 15,
            (a >> 32u64) & 15 == (b >> 32u64) & 15,
            (a >> 28u64) & 15 == (b >> 28u64) & 15,
            (a >> 24u64) & 15 == (b >> 24u64) & 15,
            (a >> 20u64) & 15 == (b >> 20u64) & 15,
            (a >> 16u64) & 15 == (b >> 16u64) & 15,
            (a >> 12u64) & 15 == (b >> 12u64) & 15,
            (a >> 8u64) & 15 == (b >> 8u64) & 15,
            (a >> 4u64) & 15 == (b >> 4u64) & 15,
            (a >> 0u64) & 15 == (b >> 0u64) & 15,
    ;
}

/// Distinct sequence numbers mint distinct credential ids, so a ledger
/// keyed by id never confuses two credentials.
pub proof fn lemma_credential_id_injective(a: u64, b: u64)
    requires
        credential_id_text(a) == credential_id_text(b),
    ensures
        a == b,
{
    assert forall|i: int| 0 <= i < 16 implies #[trigger] nibble(a, i) == nibble(b, i) by {
        assert(credential_id_text(a)[5 + i] == credential_id_text(b)[5 + i]);
        assert(credential_id_text(a)[5 + i] == hex16(a)[i]);
        assert(credential_id_text(b)[5 + i] == hex16(b)[i]);
        lemma_nibble_bound(a, (60 - 4 * i) as u64);
        lemma_nibble_bound(b, (60 - 4 * i) as u64);
        lemma_hex_digit_injective(nibble(a, i), nibble(b, i));
    }
    lemma_nibbles_equal(a, b);
}

/// Provisioned credential authentication scheme.
#[derive(Debug, Clone, Copy, PartialEq, Eq, Hash)]
pub enum CredentialScheme {
    /// HTTP bearer token.
    Bearer,
}

/// Wire shape for a provisioned credential.
#[derive(Clone, PartialEq)]
pub struct ProvisionedCredential {
    /// Credential identifier.
    pub id: CredentialId,
    /// Authentication scheme.
    pub scheme: CredentialScheme,
    /// Secret value.
    pub value: String,
    /// Upstream endpoint where the credential is valid.
    pub endpoint: String,
    /// Optional provider profile.
    pub profile: Option<String>,
    /// Lease constraints baked into the upstream credential.
    pub constraints: Option<LeaseRequest>,
}

/// Mathematical form of a provisioned credential: id, scheme, secret,
/// endpoint, profile and constraints.
pub type CredentialView = (
    Seq<char>,
    CredentialScheme,
    Seq<char>,
    Seq<char>,
    Option<Seq<char>>,
    Option<LeaseRequestView>,
);

/// The [`CredentialView`] of a credential.
pub open spec fn credential_view(c: ProvisionedCredential) -> CredentialView {
    (
        c.id@,
        c.scheme,
        c.value@,
        c.endpoint@,
        match c.profile {
            Some(p) => Some(p@),
            None => None,
        },
        match c.constraints {
            Some(l) => Some(l@),
            None => None,
        },
    )
}

impl ProvisionedCredential {
    /// A copy of the credential.
    pub fn clone_credential(&self) -> (r: Self)
        ensures
            credential_view(r) == credential_view(*self),
    {
        ProvisionedCredential {
            id: self.id.clone(),
            scheme: self.scheme,
            value: self.value.clone(),
            endpoint: self.endpoint.clone(),
            profile: match &self.profile {
                Some(p) => Some(p.clone()),
                None => None,
            },
            constraints: match &self.constraints {
                Some(l) => Some(l.clone_lease()),
                None => None,
            },
        }
    }
}

} // verus!
