//! Strongly typed identifiers.
//!
//! Runtime-minted identifiers have the wire form `<prefix>_<ULID>`; the
//! prefix is checked on parse. Free-form identifiers (`TraceId`, `SpanId`,
//! `IdempotencyKey`) accept any non-empty string.

use vstd::prelude::*;

use crate::text::{chars_of, seq_starts_with, str_starts_with};

verus! {

broadcast use vstd::string::group_string_axioms;

#[verifier::external_type_specification]
#[verifier::external_body]
pub struct ExUlid(ulid::Ulid);

/// The characters a ULID body is written with (Crockford base32).
pub open spec fn is_crockford_char(c: char) -> bool {
    ('0' <= c <= '9') || ('A' <= c <= 'H') || c == 'J' || c == 'K' || c == 'M' || c == 'N'
        || ('P' <= c <= 'T') || ('V' <= c <= 'Z')
}

/// Text of a ULID as the `ulid` crate renders it.
pub uninterp spec fn ulid_encoding(u: ulid::Ulid) -> Seq<char>;

/// `ulid::Ulid::new`: a fresh identifier from the clock and a random
/// source. Nothing is promised of the value.
#[verifier::external_body]
fn fresh_ulid() -> (u: ulid::Ulid) {
    ulid::Ulid::new()
}

/// `ulid::Ulid::to_string`: the crate encodes the 128-bit value as
/// `ULID_LEN` (26) characters of its Crockford base32 alphabet. The text
/// is named `ulid_encoding` of the value.
#[verifier::external_body]
fn ulid_text(u: &ulid::Ulid) -> (s: String)
    ensures
        s@ == ulid_encoding(*u),
        s@.len() == 26,
        forall|i: int| 0 <= i < s@.len() ==> is_crockford_char(#[trigger] s@[i]),
{
    u.to_string()
}

/// Error produced when parsing a typed identifier.
#[derive(Debug, Clone, PartialEq, Eq)]
pub enum IdParseError {
    /// The input did not start with `<prefix>_`.
    WrongPrefix {
        /// Identifier type name (e.g. `"SessionId"`).
        kind: &'static str,
        /// Expected prefix, without the underscore.
        expected: &'static str,
        /// The offered text.
        got: String,
    },
    /// The input was empty, or had no body after the prefix.
    Empty {
        /// Identifier type name.
        kind: &'static str,
    },
}

/// Text of an [`IdParseError`].
pub open spec fn id_parse_error_text(e: IdParseError) -> Seq<char> {
    match e {
        IdParseError::WrongPrefix { kind, expected, got } => "expected prefix `"@ + expected@
            + "_` for "@ + kind@ + ", got `"@ + got@ + "`"@,
        IdParseError::Empty { kind } => "empty id body for "@ + kind@,
    }
}

impl IdParseError {
    /// The error's text: ``expected prefix `<p>_` for <kind>, got `<s>` ``
    /// or `empty id body for <kind>`.
    pub fn message(&self) -> (s: String)
        ensures
            s@ == id_parse_error_text(*self),
    {
        match self {
            IdParseError::WrongPrefix { kind, expected, got } => {
                let mut s = "expected prefix `".to_owned();
                s.append(expected);
                s.append("_` for ");
                s.append(kind);
                s.append(", got `");
                s.append(got.as_str());
                s.append("`");
                s
            },
            IdParseError::Empty { kind } => {
                let mut s = "empty id body for ".to_owned();
                s.append(kind);
                s
            },
        }
    }
}

/// Shape of a well-formed prefixed identifier: `prefix`, `_`, and a
/// non-empty body.
pub open spec fn prefixed_form(prefix: Seq<char>, s: Seq<char>) -> bool {
    &&& seq_starts_with(s, prefix.push('_'))
    &&& s.len() > prefix.len() + 1
}

/// Shape of a freshly minted identifier: `prefix`, `_`, and a 26 character
/// ULID body.
pub open spec fn minted_form(prefix: Seq<char>, s: Seq<char>) -> bool {
    &&& s.len() == prefix.len() + 27
    &&& s.subrange(0, prefix.len() + 1 as int) == prefix.push('_')
    &&& forall|i: int| prefix.len() + 1 <= i < s.len() ==> is_crockford_char(#[trigger] s[i])
}

/// `e` is the error that parsing `s` as a `<prefix>_<body>` identifier of
/// type `kind` reports.
pub open spec fn parse_error_fits(
    e: IdParseError,
    kind: Seq<char>,
    prefix: Seq<char>,
    s: Seq<char>,
) -> bool {
    match e {
        IdParseError::WrongPrefix { kind: k, expected, got } => {
            &&& !seq_starts_with(s, prefix.push('_'))
            &&& k@ == kind
            &&& expected@ == prefix
            &&& got@ == s
        },
        IdParseError::Empty { kind: k } => seq_starts_with(s, prefix.push('_')) && k@ == kind,
    }
}

/// Mint `<prefix>_<ULID>`.
fn mint(prefix: &str) -> (s: String)
    ensures
        minted_form(prefix@, s@),
        prefixed_form(prefix@, s@),
{
    let u = fresh_ulid();
    let body = ulid_text(&u);
    let mut s = prefix.to_owned();
    s.append("_");
    proof {
        reveal_strlit("_");
    }
    s.append(body.as_str());
    assert(s@.subrange(0, prefix@.len() + 1 as int) =~= prefix@.push('_'));
    assert forall|i: int| prefix@.len() + 1 <= i < s@.len() implies is_crockford_char(
        #[trigger] s@[i],
    ) by {
        assert(s@[i] == body@[i - prefix@.len() - 1]);
    }
    s
}

/// Check `s` against `<prefix>_<body>` with a non-empty body.
fn parse_prefixed(prefix: &'static str, kind: &'static str, s: &str) -> (r: Result<
    String,
    IdParseError,
>)
    ensures
        r is Ok <==> prefixed_form(prefix@, s@),
        r matches Ok(t) ==> t@ == s@,
        r matches Err(e) ==> parse_error_fits(e, kind@, prefix@, s@),
{
    let mut with_underscore = prefix.to_owned();
    with_underscore.append("_");
    proof {
        reveal_strlit("_");
        assert(with_underscore@ =~= prefix@.push('_'));
    }
    if !str_starts_with(s, with_underscore.as_str()) {
        return Err(IdParseError::WrongPrefix { kind, expected: prefix, got: s.to_owned() });
    }
    let n = s.unicode_len();
    if n == with_underscore.as_str().unicode_len() {
        return Err(IdParseError::Empty { kind });
    }
    Ok(s.to_owned())
}

/// Check a free-form identifier: any non-empty text.
fn parse_freeform(kind: &'static str, value: String) -> (r: Result<String, IdParseError>)
    ensures
        r is Ok <==> value@.len() > 0,
        r matches Ok(t) ==> t@ == value@,
        r matches Err(e) ==> e matches IdParseError::Empty { kind: k } && k@ == kind@,
{
    if value.as_str().unicode_len() == 0 {
        Err(IdParseError::Empty { kind })
    } else {
        Ok(value)
    }
}


/// Identifier for an ARCP session.
///
/// The wire form is `sess_<ULID>`.
#[derive(Debug, Hash)]
pub struct SessionId(String);

impl Clone for SessionId {
    fn clone(&self) -> (r: Self)
        ensures
            r@ == self@,
    {
        SessionId(self.0.clone())
    }
}

impl View for SessionId {
    type V = Seq<char>;

    closed spec fn view(&self) -> Seq<char> {
        self.0@
    }
}

impl PartialEq for SessionId {
    fn eq(&self, other: &Self) -> (r: bool) {
        self.0 == other.0
    }
}

impl Eq for SessionId {}

impl vstd::std_specs::cmp::PartialEqSpecImpl for SessionId {
    open spec fn obeys_eq_spec() -> bool {
        true
    }

    open spec fn eq_spec(&self, other: &SessionId) -> bool {
        self@ == other@
    }
}

impl SessionId {
    /// The prefix of this identifier type, without the underscore.
    pub open spec fn spec_prefix() -> Seq<char> {
        seq!['s', 'e', 's', 's']
    }

    /// Mint a fresh id with a freshly generated ULID body.
    pub fn new() -> (id: Self)
        ensures
            minted_form(Self::spec_prefix(), id@),
            prefixed_form(Self::spec_prefix(), id@),
    {
        proof {
            reveal_strlit("sess");
            assert("sess"@ =~= Self::spec_prefix());
        }
        SessionId(mint("sess"))
    }

    /// Borrow the underlying string representation.
    pub fn as_str(&self) -> (s: &str)
        ensures
            s@ == self@,
    {
        self.0.as_str()
    }

    /// The prefix used by this id type (without the trailing underscore).
    pub fn prefix() -> (p: &'static str)
        ensures
            p@ == Self::spec_prefix(),
    {
        proof {
            reveal_strlit("sess");
            assert("sess"@ =~= Self::spec_prefix());
        }
        "sess"
    }

    /// Parse the wire form, checking the prefix and a non-empty body.
    pub fn parse(s: &str) -> (r: Result<Self, IdParseError>)
        ensures
            r is Ok <==> prefixed_form(Self::spec_prefix(), s@),
            r matches Ok(id) ==> id@ == s@,
            r matches Err(e) ==> parse_error_fits(e, "SessionId"@, Self::spec_prefix(), s@),
    {
        proof {
            reveal_strlit("sess");
            assert("sess"@ =~= Self::spec_prefix());
        }
        match parse_prefixed("sess", "SessionId", s) {
            Ok(t) => Ok(SessionId(t)),
            Err(e) => Err(e),
        }
    }
}

impl Default for SessionId {
    fn default() -> (id: Self)
        ensures
            minted_form(Self::spec_prefix(), id@),
    {
        Self::new()
    }
}

impl std::str::FromStr for SessionId {
    type Err = IdParseError;

    /// [`SessionId::parse`].
    fn from_str(s: &str) -> (r: Result<Self, Self::Err>)
        ensures
            r is Ok <==> prefixed_form(Self::spec_prefix(), s@),
            r matches Ok(id) ==> id@ == s@,
            r matches Err(e) ==> parse_error_fits(e, "SessionId"@, Self::spec_prefix(), s@),
    {
        Self::parse(s)
    }
}

/// Globally unique envelope identifier.
///
/// The wire form is `msg_<ULID>`.
#[derive(Debug, Hash)]
pub struct MessageId(String);

impl Clone for MessageId {
    fn clone(&self) -> (r: Self)
        ensures
            r@ == self@,
    {
        MessageId(self.0.clone())
    }
}

impl View for MessageId {
    type V = Seq<char>;

    closed spec fn view(&self) -> Seq<char> {
        self.0@
    }
}

impl PartialEq for MessageId {
    fn eq(&self, other: &Self) -> (r: bool) {
        self.0 == other.0
    }
}

impl Eq for MessageId {}

impl vstd::std_specs::cmp::PartialEqSpecImpl for MessageId {
    open spec fn obeys_eq_spec() -> bool {
        true
    }

    open spec fn eq_spec(&self, other: &MessageId) -> bool {
        self@ == other@
    }
}

impl MessageId {
    /// The prefix of this identifier type, without the underscore.
    pub open spec fn spec_prefix() -> Seq<char> {
        seq!['m', 's', 'g']
    }

    /// Mint a fresh id with a freshly generated ULID body.
    pub fn new() -> (id: Self)
        ensures
            minted_form(Self::spec_prefix(), id@),
            prefixed_form(Self::spec_prefix(), id@),
    {
        proof {
            reveal_strlit("msg");
            assert("msg"@ =~= Self::spec_prefix());
        }
        MessageId(mint("msg"))
    }

    /// Borrow the underlying string representation.
    pub fn as_str(&self) -> (s: &str)
        ensures
            s@ == self@,
    {
        self.0.as_str()
    }

    /// The prefix used by this id type (without the trailing underscore).
    pub fn prefix() -> (p: &'static str)
        ensures
            p@ == Self::spec_prefix(),
    {
        proof {
            reveal_strlit("msg");
            assert("msg"@ =~= Self::spec_prefix());
        }
        "msg"
    }

    /// Parse the wire form, checking the prefix and a non-empty body.
    pub fn parse(s: &str) -> (r: Result<Self, IdParseError>)
        ensures
            r is Ok <==> prefixed_form(Self::spec_prefix(), s@),
            r matches Ok(id) ==> id@ == s@,
            r matches Err(e) ==> parse_error_fits(e, "MessageId"@, Self::spec_prefix(), s@),
    {
        proof {
            reveal_strlit("msg");
            assert("msg"@ =~= Self::spec_prefix());
        }
        match parse_prefixed("msg", "MessageId", s) {
            Ok(t) => Ok(MessageId(t)),
            Err(e) => Err(e),
        }
    }
}

impl Default for MessageId {
    fn default() -> (id: Self)
        ensures
            minted_form(Self::spec_prefix(), id@),
    {
        Self::new()
    }
}

impl std::str::FromStr for MessageId {
    type Err = IdParseError;

    /// [`MessageId::parse`].
    fn from_str(s: &str) -> (r: Result<Self, Self::Err>)
        ensures
            r is Ok <==> prefixed_form(Self::spec_prefix(), s@),
            r matches Ok(id) ==> id@ == s@,
            r matches Err(e) ==> parse_error_fits(e, "MessageId"@, Self::spec_prefix(), s@),
    {
        Self::parse(s)
    }
}

/// Identifier for a durable job.
///
/// The wire form is `job_<ULID>`.
#[derive(Debug, Hash)]
pub struct JobId(String);

impl Clone for JobId {
    fn clone(&self) -> (r: Self)
        ensures
            r@ == self@,
    {
        JobId(self.0.clone())
    }
}

impl View for JobId {
    type V = Seq<char>;

    closed spec fn view(&self) -> Seq<char> {
        self.0@
    }
}

impl PartialEq for JobId {
    fn eq(&self, other: &Self) -> (r: bool) {
        self.0 == other.0
    }
}

impl Eq for JobId {}

impl vstd::std_specs::cmp::PartialEqSpecImpl for JobId {
    open spec fn obeys_eq_spec() -> bool {
        true
    }

    open spec fn eq_spec(&self, other: &JobId) -> bool {
        self@ == other@
    }
}

impl JobId {
    /// The prefix of this identifier type, without the underscore.
    pub open spec fn spec_prefix() -> Seq<char> {
        seq!['j', 'o', 'b']
    }

    /// Mint a fresh id with a freshly generated ULID body.
    pub fn new() -> (id: Self)
        ensures
            minted_form(Self::spec_prefix(), id@),
            prefixed_form(Self::spec_prefix(), id@),
    {
        proof {
            reveal_strlit("job");
            assert("job"@ =~= Self::spec_prefix());
        }
        JobId(mint("job"))
    }

    /// Borrow the underlying string representation.
    pub fn as_str(&self) -> (s: &str)
        ensures
            s@ == self@,
    {
        self.0.as_str()
    }

    /// The prefix used by this id type (without the trailing underscore).
    pub fn prefix() -> (p: &'static str)
        ensures
            p@ == Self::spec_prefix(),
    {
        proof {
            reveal_strlit("job");
            assert("job"@ =~= Self::spec_prefix());
        }
        "job"
    }

    /// Parse the wire form, checking the prefix and a non-empty body.
    pub fn parse(s: &str) -> (r: Result<Self, IdParseError>)
        ensures
            r is Ok <==> prefixed_form(Self::spec_prefix(), s@),
            r matches Ok(id) ==> id@ == s@,
            r matches Err(e) ==> parse_error_fits(e, "JobId"@, Self::spec_prefix(), s@),
    {
        proof {
            reveal_strlit("job");
            assert("job"@ =~= Self::spec_prefix());
        }
        match parse_prefixed("job", "JobId", s) {
            Ok(t) => Ok(JobId(t)),
            Err(e) => Err(e),
        }
    }
}

impl Default for JobId {
    fn default() -> (id: Self)
        ensures
            minted_form(Self::spec_prefix(), id@),
    {
        Self::new()
    }
}

impl std::str::FromStr for JobId {
    type Err = IdParseError;

    /// [`JobId::parse`].
    fn from_str(s: &str) -> (r: Result<Self, Self::Err>)
        ensures
            r is Ok <==> prefixed_form(Self::spec_prefix(), s@),
            r matches Ok(id) ==> id@ == s@,
            r matches Err(e) ==> parse_error_fits(e, "JobId"@, Self::spec_prefix(), s@),
    {
        Self::parse(s)
    }
}

/// Identifier for a stream.
///
/// The wire form is `str_<ULID>`.
#[derive(Debug, Hash)]
pub struct StreamId(String);

impl Clone for StreamId {
    fn clone(&self) -> (r: Self)
        ensures
            r@ == self@,
    {
        StreamId(self.0.clone())
    }
}

impl View for StreamId {
    type V = Seq<char>;

    closed spec fn view(&self) -> Seq<char> {
        self.0@
    }
}

impl PartialEq for StreamId {
    fn eq(&self, other: &Self) -> (r: bool) {
        self.0 == other.0
    }
}

impl Eq for StreamId {}

impl vstd::std_specs::cmp::PartialEqSpecImpl for StreamId {
    open spec fn obeys_eq_spec() -> bool {
        true
    }

    open spec fn eq_spec(&self, other: &StreamId) -> bool {
        self@ == other@
    }
}

impl StreamId {
    /// The prefix of this identifier type, without the underscore.
    pub open spec fn spec_prefix() -> Seq<char> {
        seq!['s', 't', 'r']
    }

    /// Mint a fresh id with a freshly generated ULID body.
    pub fn new() -> (id: Self)
        ensures
            minted_form(Self::spec_prefix(), id@),
            prefixed_form(Self::spec_prefix(), id@),
    {
        proof {
            reveal_strlit("str");
            assert("str"@ =~= Self::spec_prefix());
        }
        StreamId(mint("str"))
    }

    /// Borrow the underlying string representation.
    pub fn as_str(&self) -> (s: &str)
        ensures
            s@ == self@,
    {
        self.0.as_str()
    }

    /// The prefix used by this id type (without the trailing underscore).
    pub fn prefix() -> (p: &'static str)
        ensures
            p@ == Self::spec_prefix(),
    {
        proof {
            reveal_strlit("str");
            assert("str"@ =~= Self::spec_prefix());
        }
        "str"
    }

    /// Parse the wire form, checking the prefix and a non-empty body.
    pub fn parse(s: &str) -> (r: Result<Self, IdParseError>)
        ensures
            r is Ok <==> prefixed_form(Self::spec_prefix(), s@),
            r matches Ok(id) ==> id@ == s@,
            r matches Err(e) ==> parse_error_fits(e, "StreamId"@, Self::spec_prefix(), s@),
    {
        proof {
            reveal_strlit("str");
            assert("str"@ =~= Self::spec_prefix());
        }
        match parse_prefixed("str", "StreamId", s) {
            Ok(t) => Ok(StreamId(t)),
            Err(e) => Err(e),
        }
    }
}

impl Default for StreamId {
    fn default() -> (id: Self)
        ensures
            minted_form(Self::spec_prefix(), id@),
    {
        Self::new()
    }
}

impl std::str::FromStr for StreamId {
    type Err = IdParseError;

    /// [`StreamId::parse`].
    fn from_str(s: &str) -> (r: Result<Self, Self::Err>)
        ensures
            r is Ok <==> prefixed_form(Self::spec_prefix(), s@),
            r matches Ok(id) ==> id@ == s@,
            r matches Err(e) ==> parse_error_fits(e, "StreamId"@, Self::spec_prefix(), s@),
    {
        Self::parse(s)
    }
}

/// Identifier for an observer subscription.
///
/// The wire form is `sub_<ULID>`.
#[derive(Debug, Hash)]
pub struct SubscriptionId(String);

impl Clone for SubscriptionId {
    fn clone(&self) -> (r: Self)
        ensures
            r@ == self@,
    {
        SubscriptionId(self.0.clone())
    }
}

impl View for SubscriptionId {
    type V = Seq<char>;

    closed spec fn view(&self) -> Seq<char> {
        self.0@
    }
}

impl PartialEq for SubscriptionId {
    fn eq(&self, other: &Self) -> (r: bool) {
        self.0 == other.0
    }
}

impl Eq for SubscriptionId {}

impl vstd::std_specs::cmp::PartialEqSpecImpl for SubscriptionId {
    open spec fn obeys_eq_spec() -> bool {
        true
    }

    open spec fn eq_spec(&self, other: &SubscriptionId) -> bool {
        self@ == other@
    }
}

impl SubscriptionId {
    /// The prefix of this identifier type, without the underscore.
    pub open spec fn spec_prefix() -> Seq<char> {
        seq!['s', 'u', 'b']
    }

    /// Mint a fresh id with a freshly generated ULID body.
    pub fn new() -> (id: Self)
        ensures
            minted_form(Self::spec_prefix(), id@),
            prefixed_form(Self::spec_prefix(), id@),
    {
        proof {
            reveal_strlit("sub");
            assert("sub"@ =~= Self::spec_prefix());
        }
        SubscriptionId(mint("sub"))
    }

    /// Borrow the underlying string representation.
    pub fn as_str(&self) -> (s: &str)
        ensures
            s@ == self@,
    {
        self.0.as_str()
    }

    /// The prefix used by this id type (without the trailing underscore).
    pub fn prefix() -> (p: &'static str)
        ensures
            p@ == Self::spec_prefix(),
    {
        proof {
            reveal_strlit("sub");
            assert("sub"@ =~= Self::spec_prefix());
        }
        "sub"
    }

    /// Parse the wire form, checking the prefix and a non-empty body.
    pub fn parse(s: &str) -> (r: Result<Self, IdParseError>)
        ensures
            r is Ok <==> prefixed_form(Self::spec_prefix(), s@),
            r matches Ok(id) ==> id@ == s@,
            r matches Err(e) ==> parse_error_fits(e, "SubscriptionId"@, Self::spec_prefix(), s@),
    {
        proof {
            reveal_strlit("sub");
            assert("sub"@ =~= Self::spec_prefix());
        }
        match parse_prefixed("sub", "SubscriptionId", s) {
            Ok(t) => Ok(SubscriptionId(t)),
            Err(e) => Err(e),
        }
    }
}

impl Default for SubscriptionId {
    fn default() -> (id: Self)
        ensures
            minted_form(Self::spec_prefix(), id@),
    {
        Self::new()
    }
}

impl std::str::FromStr for SubscriptionId {
    type Err = IdParseError;

    /// [`SubscriptionId::parse`].
    fn from_str(s: &str) -> (r: Result<Self, Self::Err>)
        ensures
            r is Ok <==> prefixed_form(Self::spec_prefix(), s@),
            r matches Ok(id) ==> id@ == s@,
            r matches Err(e) ==> parse_error_fits(e, "SubscriptionId"@, Self::spec_prefix(), s@),
    {
        Self::parse(s)
    }
}

/// Identifier for a permission lease.
///
/// The wire form is `lease_<ULID>`.
#[derive(Debug, Hash)]
pub struct LeaseId(String);

impl Clone for LeaseId {
    fn clone(&self) -> (r: Self)
        ensures
            r@ == self@,
    {
        LeaseId(self.0.clone())
    }
}

impl View for LeaseId {
    type V = Seq<char>;

    closed spec fn view(&self) -> Seq<char> {
        self.0@
    }
}

impl PartialEq for LeaseId {
    fn eq(&self, other: &Self) -> (r: bool) {
        self.0 == other.0
    }
}

impl Eq for LeaseId {}

impl vstd::std_specs::cmp::PartialEqSpecImpl for LeaseId {
    open spec fn obeys_eq_spec() -> bool {
        true
    }

    open spec fn eq_spec(&self, other: &LeaseId) -> bool {
        self@ == other@
    }
}

impl LeaseId {
    /// The prefix of this identifier type, without the underscore.
    pub open spec fn spec_prefix() -> Seq<char> {
        seq!['l', 'e', 'a', 's', 'e']
    }

    /// Mint a fresh id with a freshly generated ULID body.
    pub fn new() -> (id: Self)
        ensures
            minted_form(Self::spec_prefix(), id@),
            prefixed_form(Self::spec_prefix(), id@),
    {
        proof {
            reveal_strlit("lease");
            assert("lease"@ =~= Self::spec_prefix());
        }
        LeaseId(mint("lease"))
    }

    /// Borrow the underlying string representation.
    pub fn as_str(&self) -> (s: &str)
        ensures
            s@ == self@,
    {
        self.0.as_str()
    }

    /// The prefix used by this id type (without the trailing underscore).
    pub fn prefix() -> (p: &'static str)
        ensures
            p@ == Self::spec_prefix(),
    {
        proof {
            reveal_strlit("lease");
            assert("lease"@ =~= Self::spec_prefix());
        }
        "lease"
    }

    /// Parse the wire form, checking the prefix and a non-empty body.
    pub fn parse(s: &str) -> (r: Result<Self, IdParseError>)
        ensures
            r is Ok <==> prefixed_form(Self::spec_prefix(), s@),
            r matches Ok(id) ==> id@ == s@,
            r matches Err(e) ==> parse_error_fits(e, "LeaseId"@, Self::spec_prefix(), s@),
    {
        proof {
            reveal_strlit("lease");
            assert("lease"@ =~= Self::spec_prefix());
        }
        match parse_prefixed("lease", "LeaseId", s) {
            Ok(t) => Ok(LeaseId(t)),
            Err(e) => Err(e),
        }
    }
}

impl Default for LeaseId {
    fn default() -> (id: Self)
        ensures
            minted_form(Self::spec_prefix(), id@),
    {
        Self::new()
    }
}

impl std::str::FromStr for LeaseId {
    type Err = IdParseError;

    /// [`LeaseId::parse`].
    fn from_str(s: &str) -> (r: Result<Self, Self::Err>)
        ensures
            r is Ok <==> prefixed_form(Self::spec_prefix(), s@),
            r matches Ok(id) ==> id@ == s@,
            r matches Err(e) ==> parse_error_fits(e, "LeaseId"@, Self::spec_prefix(), s@),
    {
        Self::parse(s)
    }
}

/// Identifier for an addressable artifact.
///
/// The wire form is `art_<ULID>`.
#[derive(Debug, Hash)]
pub struct ArtifactId(String);

impl Clone for ArtifactId {
    fn clone(&self) -> (r: Self)
        ensures
            r@ == self@,
    {
        ArtifactId(self.0.clone())
    }
}

impl View for ArtifactId {
    type V = Seq<char>;

    closed spec fn view(&self) -> Seq<char> {
        self.0@
    }
}

impl PartialEq for ArtifactId {
    fn eq(&self, other: &Self) -> (r: bool) {
        self.0 == other.0
    }
}

impl Eq for ArtifactId {}

impl vstd::std_specs::cmp::PartialEqSpecImpl for ArtifactId {
    open spec fn obeys_eq_spec() -> bool {
        true
    }

    open spec fn eq_spec(&self, other: &ArtifactId) -> bool {
        self@ == other@
    }
}

impl ArtifactId {
    /// The prefix of this identifier type, without the underscore.
    pub open spec fn spec_prefix() -> Seq<char> {
        seq!['a', 'r', 't']
    }

    /// Mint a fresh id with a freshly generated ULID body.
    pub fn new() -> (id: Self)
        ensures
            minted_form(Self::spec_prefix(), id@),
            prefixed_form(Self::spec_prefix(), id@),
    {
        proof {
            reveal_strlit("art");
            assert("art"@ =~= Self::spec_prefix());
        }
        ArtifactId(mint("art"))
    }

    /// Borrow the underlying string representation.
    pub fn as_str(&self) -> (s: &str)
        ensures
            s@ == self@,
    {
        self.0.as_str()
    }

    /// The prefix used by this id type (without the trailing underscore).
    pub fn prefix() -> (p: &'static str)
        ensures
            p@ == Self::spec_prefix(),
    {
        proof {
            reveal_strlit("art");
            assert("art"@ =~= Self::spec_prefix());
        }
        "art"
    }

    /// Parse the wire form, checking the prefix and a non-empty body.
    pub fn parse(s: &str) -> (r: Result<Self, IdParseError>)
        ensures
            r is Ok <==> prefixed_form(Self::spec_prefix(), s@),
            r matches Ok(id) ==> id@ == s@,
            r matches Err(e) ==> parse_error_fits(e, "ArtifactId"@, Self::spec_prefix(), s@),
    {
        proof {
            reveal_strlit("art");
            assert("art"@ =~= Self::spec_prefix());
        }
        match parse_prefixed("art", "ArtifactId", s) {
            Ok(t) => Ok(ArtifactId(t)),
            Err(e) => Err(e),
        }
    }
}

impl Default for ArtifactId {
    fn default() -> (id: Self)
        ensures
            minted_form(Self::spec_prefix(), id@),
    {
        Self::new()
    }
}

impl std::str::FromStr for ArtifactId {
    type Err = IdParseError;

    /// [`ArtifactId::parse`].
    fn from_str(s: &str) -> (r: Result<Self, Self::Err>)
        ensures
            r is Ok <==> prefixed_form(Self::spec_prefix(), s@),
            r matches Ok(id) ==> id@ == s@,
            r matches Err(e) ==> parse_error_fits(e, "ArtifactId"@, Self::spec_prefix(), s@),
    {
        Self::parse(s)
    }
}

/// Distributed-trace identifier. Its format is environment-defined.
#[derive(Debug, Hash)]
pub struct TraceId(String);

impl Clone for TraceId {
    fn clone(&self) -> (r: Self)
        ensures
            r@ == self@,
    {
        TraceId(self.0.clone())
    }
}

impl View for TraceId {
    type V = Seq<char>;

    closed spec fn view(&self) -> Seq<char> {
        self.0@
    }
}

impl PartialEq for TraceId {
    fn eq(&self, other: &Self) -> (r: bool) {
        self.0 == other.0
    }
}

impl Eq for TraceId {}

impl vstd::std_specs::cmp::PartialEqSpecImpl for TraceId {
    open spec fn obeys_eq_spec() -> bool {
        true
    }

    open spec fn eq_spec(&self, other: &TraceId) -> bool {
        self@ == other@
    }
}

impl TraceId {
    /// Construct from any non-empty string.
    pub fn new(value: &str) -> (r: Result<Self, IdParseError>)
        ensures
            r is Ok <==> value@.len() > 0,
            r matches Ok(id) ==> id@ == value@,
            r matches Err(e) ==> e matches IdParseError::Empty { kind } && kind@ == "TraceId"@,
    {
        match parse_freeform("TraceId", value.to_owned()) {
            Ok(t) => Ok(TraceId(t)),
            Err(e) => Err(e),
        }
    }

    /// Borrow the underlying string representation.
    pub fn as_str(&self) -> (s: &str)
        ensures
            s@ == self@,
    {
        self.0.as_str()
    }
}

impl std::str::FromStr for TraceId {
    type Err = IdParseError;

    /// [`TraceId::new`].
    fn from_str(s: &str) -> (r: Result<Self, Self::Err>)
        ensures
            r is Ok <==> s@.len() > 0,
            r matches Ok(id) ==> id@ == s@,
            r matches Err(e) ==> e matches IdParseError::Empty { kind } && kind@ == "TraceId"@,
    {
        Self::new(s)
    }
}

/// Span identifier within a trace. Its format is environment-defined.
#[derive(Debug, Hash)]
pub struct SpanId(String);

impl Clone for SpanId {
    fn clone(&self) -> (r: Self)
        ensures
            r@ == self@,
    {
        SpanId(self.0.clone())
    }
}

impl View for SpanId {
    type V = Seq<char>;

    closed spec fn view(&self) -> Seq<char> {
        self.0@
    }
}

impl PartialEq for SpanId {
    fn eq(&self, other: &Self) -> (r: bool) {
        self.0 == other.0
    }
}

impl Eq for SpanId {}

impl vstd::std_specs::cmp::PartialEqSpecImpl for SpanId {
    open spec fn obeys_eq_spec() -> bool {
        true
    }

    open spec fn eq_spec(&self, other: &SpanId) -> bool {
        self@ == other@
    }
}

impl SpanId {
    /// Construct from any non-empty string.
    pub fn new(value: &str) -> (r: Result<Self, IdParseError>)
        ensures
            r is Ok <==> value@.len() > 0,
            r matches Ok(id) ==> id@ == value@,
            r matches Err(e) ==> e matches IdParseError::Empty { kind } && kind@ == "SpanId"@,
    {
        match parse_freeform("SpanId", value.to_owned()) {
            Ok(t) => Ok(SpanId(t)),
            Err(e) => Err(e),
        }
    }

    /// Borrow the underlying string representation.
    pub fn as_str(&self) -> (s: &str)
        ensures
            s@ == self@,
    {
        self.0.as_str()
    }
}

impl std::str::FromStr for SpanId {
    type Err = IdParseError;

    /// [`SpanId::new`].
    fn from_str(s: &str) -> (r: Result<Self, Self::Err>)
        ensures
            r is Ok <==> s@.len() > 0,
            r matches Ok(id) ==> id@ == s@,
            r matches Err(e) ==> e matches IdParseError::Empty { kind } && kind@ == "SpanId"@,
    {
        Self::new(s)
    }
}

/// Logical idempotency key supplied by the client for a command intent.
#[derive(Debug, Hash)]
pub struct IdempotencyKey(String);

impl Clone for IdempotencyKey {
    fn clone(&self) -> (r: Self)
        ensures
            r@ == self@,
    {
        IdempotencyKey(self.0.clone())
    }
}

impl View for IdempotencyKey {
    type V = Seq<char>;

    closed spec fn view(&self) -> Seq<char> {
        self.0@
    }
}

impl PartialEq for IdempotencyKey {
    fn eq(&self, other: &Self) -> (r: bool) {
        self.0 == other.0
    }
}

impl Eq for IdempotencyKey {}

impl vstd::std_specs::cmp::PartialEqSpecImpl for IdempotencyKey {
    open spec fn obeys_eq_spec() -> bool {
        true
    }

    open spec fn eq_spec(&self, other: &IdempotencyKey) -> bool {
        self@ == other@
    }
}

impl IdempotencyKey {
    /// Construct from any non-empty string.
    pub fn new(value: &str) -> (r: Result<Self, IdParseError>)
        ensures
            r is Ok <==> value@.len() > 0,
            r matches Ok(id) ==> id@ == value@,
            r matches Err(e) ==> e matches IdParseError::Empty { kind } && kind@ == "IdempotencyKey"@,
    {
        match parse_freeform("IdempotencyKey", value.to_owned()) {
            Ok(t) => Ok(IdempotencyKey(t)),
            Err(e) => Err(e),
        }
    }

    /// Borrow the underlying string representation.
    pub fn as_str(&self) -> (s: &str)
        ensures
            s@ == self@,
    {
        self.0.as_str()
    }
}

impl std::str::FromStr for IdempotencyKey {
    type Err = IdParseError;

    /// [`IdempotencyKey::new`].
    fn from_str(s: &str) -> (r: Result<Self, Self::Err>)
        ensures
            r is Ok <==> s@.len() > 0,
            r matches Ok(id) ==> id@ == s@,
            r matches Err(e) ==> e matches IdParseError::Empty { kind } && kind@ == "IdempotencyKey"@,
    {
        Self::new(s)
    }
}

/// The identifier kinds are disjoint: no text is a well-formed identifier
/// of two kinds, so an id of one kind never parses as another.
pub proof fn lemma_id_kinds_disjoint(s: Seq<char>)
    ensures
        !(prefixed_form(SessionId::spec_prefix(), s) && prefixed_form(MessageId::spec_prefix(), s)),
        !(prefixed_form(SessionId::spec_prefix(), s) && prefixed_form(JobId::spec_prefix(), s)),
        !(prefixed_form(SessionId::spec_prefix(), s) && prefixed_form(StreamId::spec_prefix(), s)),
        !(prefixed_form(SessionId::spec_prefix(), s) && prefixed_form(SubscriptionId::spec_prefix(), s)),
        !(prefixed_form(SessionId::spec_prefix(), s) && prefixed_form(LeaseId::spec_prefix(), s)),
        !(prefixed_form(SessionId::spec_prefix(), s) && prefixed_form(ArtifactId::spec_prefix(), s)),
        !(prefixed_form(MessageId::spec_prefix(), s) && prefixed_form(JobId::spec_prefix(), s)),
        !(prefixed_form(MessageId::spec_prefix(), s) && prefixed_form(StreamId::spec_prefix(), s)),
        !(prefixed_form(MessageId::spec_prefix(), s) && prefixed_form(SubscriptionId::spec_prefix(), s)),
        !(prefixed_form(MessageId::spec_prefix(), s) && prefixed_form(LeaseId::spec_prefix(), s)),
        !(prefixed_form(MessageId::spec_prefix(), s) && prefixed_form(ArtifactId::spec_prefix(), s)),
        !(prefixed_form(JobId::spec_prefix(), s) && prefixed_form(StreamId::spec_prefix(), s)),
        !(prefixed_form(JobId::spec_prefix(), s) && prefixed_form(SubscriptionId::spec_prefix(), s)),
        !(prefixed_form(JobId::spec_prefix(), s) && prefixed_form(LeaseId::spec_prefix(), s)),
        !(prefixed_form(JobId::spec_prefix(), s) && prefixed_form(ArtifactId::spec_prefix(), s)),
        !(prefixed_form(StreamId::spec_prefix(), s) && prefixed_form(SubscriptionId::spec_prefix(), s)),
        !(prefixed_form(StreamId::spec_prefix(), s) && prefixed_form(LeaseId::spec_prefix(), s)),
        !(prefixed_form(StreamId::spec_prefix(), s) && prefixed_form(ArtifactId::spec_prefix(), s)),
        !(prefixed_form(SubscriptionId::spec_prefix(), s) && prefixed_form(LeaseId::spec_prefix(), s)),
        !(prefixed_form(SubscriptionId::spec_prefix(), s) && prefixed_form(ArtifactId::spec_prefix(), s)),
        !(prefixed_form(LeaseId::spec_prefix(), s) && prefixed_form(ArtifactId::spec_prefix(), s)),
{
    let p_sess = SessionId::spec_prefix().push('_');
    if seq_starts_with(s, p_sess) {
        assert(s.subrange(0, p_sess.len() as int) == p_sess);
        assert forall|i: int| 0 <= i < p_sess.len() implies s[i] == p_sess[i] by {
            assert(s.subrange(0, p_sess.len() as int)[i] == s[i]);
        }
        assert(s[0] == p_sess[0] && s[1] == p_sess[1] && s[2] == p_sess[2] && s[3] == p_sess[3]);
    }
    let p_msg = MessageId::spec_prefix().push('_');
    if seq_starts_with(s, p_msg) {
        assert(s.subrange(0, p_msg.len() as int) == p_msg);
        assert forall|i: int| 0 <= i < p_msg.len() implies s[i] == p_msg[i] by {
            assert(s.subrange(0, p_msg.len() as int)[i] == s[i]);
        }
        assert(s[0] == p_msg[0] && s[1] == p_msg[1] && s[2] == p_msg[2] && s[3] == p_msg[3]);
    }
    let p_job = JobId::spec_prefix().push('_');
    if seq_starts_with(s, p_job) {
        assert(s.subrange(0, p_job.len() as int) == p_job);
        assert forall|i: int| 0 <= i < p_job.len() implies s[i] == p_job[i] by {
            assert(s.subrange(0, p_job.len() as int)[i] == s[i]);
        }
        assert(s[0] == p_job[0] && s[1] == p_job[1] && s[2] == p_job[2] && s[3] == p_job[3]);
    }
    let p_str = StreamId::spec_prefix().push('_');
    if seq_starts_with(s, p_str) {
        assert(s.subrange(0, p_str.len() as int) == p_str);
        assert forall|i: int| 0 <= i < p_str.len() implies s[i] == p_str[i] by {
            assert(s.subrange(0, p_str.len() as int)[i] == s[i]);
        }
        assert(s[0] == p_str[0] && s[1] == p_str[1] && s[2] == p_str[2] && s[3] == p_str[3]);
    }
    let p_sub = SubscriptionId::spec_prefix().push('_');
    if seq_starts_with(s, p_sub) {
        assert(s.subrange(0, p_sub.len() as int) == p_sub);
        assert forall|i: int| 0 <= i < p_sub.len() implies s[i] == p_sub[i] by {
            assert(s.subrange(0, p_sub.len() as int)[i] == s[i]);
        }
        assert(s[0] == p_sub[0] && s[1] == p_sub[1] && s[2] == p_sub[2] && s[3] == p_sub[3]);
    }
    let p_lease = LeaseId::spec_prefix().push('_');
    if seq_starts_with(s, p_lease) {
        assert(s.subrange(0, p_lease.len() as int) == p_lease);
        assert forall|i: int| 0 <= i < p_lease.len() implies s[i] == p_lease[i] by {
            assert(s.subrange(0, p_lease.len() as int)[i] == s[i]);
        }
        assert(s[0] == p_lease[0] && s[1] == p_lease[1] && s[2] == p_lease[2] && s[3] == p_lease[3]);
    }
    let p_art = ArtifactId::spec_prefix().push('_');
    if seq_starts_with(s, p_art) {
        assert(s.subrange(0, p_art.len() as int) == p_art);
        assert forall|i: int| 0 <= i < p_art.len() implies s[i] == p_art[i] by {
            assert(s.subrange(0, p_art.len() as int)[i] == s[i]);
        }
        assert(s[0] == p_art[0] && s[1] == p_art[1] && s[2] == p_art[2] && s[3] == p_art[3]);
    }
}

} // verus!
