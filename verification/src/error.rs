//! Canonical error taxonomy.

use vstd::prelude::*;

verus! {

/// Canonical error code carried on the wire.
#[derive(Debug, Clone, Copy, PartialEq, Eq, Hash, Structural)]
pub enum ErrorCode {
    /// `UNKNOWN`
    Unknown,
    /// `INTERNAL`
    Internal,
    /// `UNAVAILABLE`
    Unavailable,
    /// `ABORTED`
    Aborted,
    /// `DEADLINE_EXCEEDED`
    DeadlineExceeded,
    /// `RESOURCE_EXHAUSTED`
    ResourceExhausted,
    /// `INVALID_REQUEST`
    InvalidRequest,
    /// `INVALID_ARGUMENT`
    InvalidArgument,
    /// `OUT_OF_RANGE`
    OutOfRange,
    /// `NOT_FOUND`
    NotFound,
    /// `PERMISSION_DENIED`
    PermissionDenied,
    /// `UNAUTHENTICATED`
    Unauthenticated,
    /// `FAILED_PRECONDITION`
    FailedPrecondition,
    /// `CANCELLED`
    Cancelled,
    /// `DUPLICATE_KEY`
    DuplicateKey,
    /// `AGENT_NOT_AVAILABLE`
    AgentNotAvailable,
    /// `AGENT_VERSION_NOT_AVAILABLE`
    AgentVersionNotAvailable,
    /// `LEASE_EXPIRED`
    LeaseExpired,
    /// `LEASE_REVOKED`
    LeaseRevoked,
    /// `LEASE_SUBSET_VIOLATION`
    LeaseSubsetViolation,
    /// `BUDGET_EXHAUSTED`
    BudgetExhausted,
    /// `RESUME_WINDOW_EXPIRED`
    ResumeWindowExpired,
}

/// Codes a client may retry with backoff; all others fail identically on
/// a naive retry.
pub open spec fn code_retryable(c: ErrorCode) -> bool {
    c is Internal || c is Unavailable || c is Aborted || c is DeadlineExceeded
        || c is ResourceExhausted
}

/// The name of a code on the wire.
pub open spec fn error_code_wire(c: ErrorCode) -> Seq<char> {
    match c {
        ErrorCode::Unknown => "UNKNOWN"@,
        ErrorCode::Internal => "INTERNAL"@,
        ErrorCode::Unavailable => "UNAVAILABLE"@,
        ErrorCode::Aborted => "ABORTED"@,
        ErrorCode::DeadlineExceeded => "DEADLINE_EXCEEDED"@,
        ErrorCode::ResourceExhausted => "RESOURCE_EXHAUSTED"@,
        ErrorCode::InvalidRequest => "INVALID_REQUEST"@,
        ErrorCode::InvalidArgument => "INVALID_ARGUMENT"@,
        ErrorCode::OutOfRange => "OUT_OF_RANGE"@,
        ErrorCode::NotFound => "NOT_FOUND"@,
        ErrorCode::PermissionDenied => "PERMISSION_DENIED"@,
        ErrorCode::Unauthenticated => "UNAUTHENTICATED"@,
        ErrorCode::FailedPrecondition => "FAILED_PRECONDITION"@,
        ErrorCode::Cancelled => "CANCELLED"@,
        ErrorCode::DuplicateKey => "DUPLICATE_KEY"@,
        ErrorCode::AgentNotAvailable => "AGENT_NOT_AVAILABLE"@,
        ErrorCode::AgentVersionNotAvailable => "AGENT_VERSION_NOT_AVAILABLE"@,
        ErrorCode::LeaseExpired => "LEASE_EXPIRED"@,
        ErrorCode::LeaseRevoked => "LEASE_REVOKED"@,
        ErrorCode::LeaseSubsetViolation => "LEASE_SUBSET_VIOLATION"@,
        ErrorCode::BudgetExhausted => "BUDGET_EXHAUSTED"@,
        ErrorCode::ResumeWindowExpired => "RESUME_WINDOW_EXPIRED"@,
    }
}

impl ErrorCode {
    /// True for the transient codes (`INTERNAL`, `UNAVAILABLE`, `ABORTED`,
    /// `DEADLINE_EXCEEDED`, `RESOURCE_EXHAUSTED`).
    pub fn retryable(self) -> (r: bool)
        ensures
            r == code_retryable(self),
    {
        match self {
            ErrorCode::Internal | ErrorCode::Unavailable | ErrorCode::Aborted
            | ErrorCode::DeadlineExceeded | ErrorCode::ResourceExhausted => true,
            _ => false,
        }
    }

    /// The code's name on the wire (`INVALID_REQUEST`, ...).
    pub fn wire_str(self) -> (s: &'static str)
        ensures
            s@ == error_code_wire(self),
    {
        match self {
            ErrorCode::Unknown => "UNKNOWN",
            ErrorCode::Internal => "INTERNAL",
            ErrorCode::Unavailable => "UNAVAILABLE",
            ErrorCode::Aborted => "ABORTED",
            ErrorCode::DeadlineExceeded => "DEADLINE_EXCEEDED",
            ErrorCode::ResourceExhausted => "RESOURCE_EXHAUSTED",
            ErrorCode::InvalidRequest => "INVALID_REQUEST",
            ErrorCode::InvalidArgument => "INVALID_ARGUMENT",
            ErrorCode::OutOfRange => "OUT_OF_RANGE",
            ErrorCode::NotFound => "NOT_FOUND",
            ErrorCode::PermissionDenied => "PERMISSION_DENIED",
            ErrorCode::Unauthenticated => "UNAUTHENTICATED",
            ErrorCode::FailedPrecondition => "FAILED_PRECONDITION",
            ErrorCode::Cancelled => "CANCELLED",
            ErrorCode::DuplicateKey => "DUPLICATE_KEY",
            ErrorCode::AgentNotAvailable => "AGENT_NOT_AVAILABLE",
            ErrorCode::AgentVersionNotAvailable => "AGENT_VERSION_NOT_AVAILABLE",
            ErrorCode::LeaseExpired => "LEASE_EXPIRED",
            ErrorCode::LeaseRevoked => "LEASE_REVOKED",
            ErrorCode::LeaseSubsetViolation => "LEASE_SUBSET_VIOLATION",
            ErrorCode::BudgetExhausted => "BUDGET_EXHAUSTED",
            ErrorCode::ResumeWindowExpired => "RESUME_WINDOW_EXPIRED",
        }
    }
}

/// Protocol error raised by the SDK.
#[derive(Debug, Clone, PartialEq, Eq)]
pub enum ARCPError {
    /// Malformed or disallowed request.
    InvalidRequest { detail: String },
    /// An argument is outside its domain.
    InvalidArgument { detail: String },
    /// A value is out of its permitted range or order.
    OutOfRange { detail: String },
    /// The referenced entity does not exist.
    NotFound { detail: String },
    /// The caller is not authorised.
    PermissionDenied { detail: String },
    /// The caller is not authenticated.
    Unauthenticated { detail: String },
    /// The operation is not allowed in the current state.
    FailedPrecondition { detail: String },
    /// The operation was cancelled.
    Cancelled { reason: String },
    /// Internal failure.
    Internal { detail: String },
    /// The peer or a dependency is unavailable.
    Unavailable { detail: String },
    /// Persistent storage failed.
    Storage { detail: String },
    /// The lease expired.
    LeaseExpired { detail: String },
    /// The lease was revoked.
    LeaseRevoked { detail: String },
    /// A child lease widens its parent.
    LeaseSubsetViolation { detail: String },
    /// The `cost.budget` is exhausted.
    BudgetExhausted { detail: String },
}

/// Wire code of each error.
pub open spec fn error_code(e: ARCPError) -> ErrorCode {
    match e {
        ARCPError::InvalidRequest { .. } => ErrorCode::InvalidRequest,
        ARCPError::InvalidArgument { .. } => ErrorCode::InvalidArgument,
        ARCPError::OutOfRange { .. } => ErrorCode::OutOfRange,
        ARCPError::NotFound { .. } => ErrorCode::NotFound,
        ARCPError::PermissionDenied { .. } => ErrorCode::PermissionDenied,
        ARCPError::Unauthenticated { .. } => ErrorCode::Unauthenticated,
        ARCPError::FailedPrecondition { .. } => ErrorCode::FailedPrecondition,
        ARCPError::Cancelled { .. } => ErrorCode::Cancelled,
        ARCPError::Internal { .. } => ErrorCode::Internal,
        ARCPError::Unavailable { .. } => ErrorCode::Unavailable,
        ARCPError::Storage { .. } => ErrorCode::Internal,
        ARCPError::LeaseExpired { .. } => ErrorCode::LeaseExpired,
        ARCPError::LeaseRevoked { .. } => ErrorCode::LeaseRevoked,
        ARCPError::LeaseSubsetViolation { .. } => ErrorCode::LeaseSubsetViolation,
        ARCPError::BudgetExhausted { .. } => ErrorCode::BudgetExhausted,
    }
}

/// The text an error carries: its `detail`, or a cancellation's `reason`.
pub open spec fn error_detail(e: ARCPError) -> Seq<char> {
    match e {
        ARCPError::InvalidRequest { detail } => detail@,
        ARCPError::InvalidArgument { detail } => detail@,
        ARCPError::OutOfRange { detail } => detail@,
        ARCPError::NotFound { detail } => detail@,
        ARCPError::PermissionDenied { detail } => detail@,
        ARCPError::Unauthenticated { detail } => detail@,
        ARCPError::FailedPrecondition { detail } => detail@,
        ARCPError::Cancelled { reason } => reason@,
        ARCPError::Internal { detail } => detail@,
        ARCPError::Unavailable { detail } => detail@,
        ARCPError::Storage { detail } => detail@,
        ARCPError::LeaseExpired { detail } => detail@,
        ARCPError::LeaseRevoked { detail } => detail@,
        ARCPError::LeaseSubsetViolation { detail } => detail@,
        ARCPError::BudgetExhausted { detail } => detail@,
    }
}

/// The text of an error for a `message` field: its wire code, a colon and
/// its detail (or cancellation reason).
pub open spec fn error_message_text(e: ARCPError) -> Seq<char> {
    error_code_wire(error_code(e)) + ": "@ + error_detail(e)
}

impl ARCPError {
    /// Canonical wire code of this error.
    pub fn code(&self) -> (c: ErrorCode)
        ensures
            c == error_code(*self),
    {
        match self {
            ARCPError::InvalidRequest { .. } => ErrorCode::InvalidRequest,
            ARCPError::InvalidArgument { .. } => ErrorCode::InvalidArgument,
            ARCPError::OutOfRange { .. } => ErrorCode::OutOfRange,
            ARCPError::NotFound { .. } => ErrorCode::NotFound,
            ARCPError::PermissionDenied { .. } => ErrorCode::PermissionDenied,
            ARCPError::Unauthenticated { .. } => ErrorCode::Unauthenticated,
            ARCPError::FailedPrecondition { .. } => ErrorCode::FailedPrecondition,
            ARCPError::Cancelled { .. } => ErrorCode::Cancelled,
            ARCPError::Internal { .. } => ErrorCode::Internal,
            ARCPError::Unavailable { .. } => ErrorCode::Unavailable,
            ARCPError::Storage { .. } => ErrorCode::Internal,
            ARCPError::LeaseExpired { .. } => ErrorCode::LeaseExpired,
            ARCPError::LeaseRevoked { .. } => ErrorCode::LeaseRevoked,
            ARCPError::LeaseSubsetViolation { .. } => ErrorCode::LeaseSubsetViolation,
            ARCPError::BudgetExhausted { .. } => ErrorCode::BudgetExhausted,
        }
    }

    /// The error's text (see [`error_message_text`]).
    pub fn message(&self) -> (s: String)
        ensures
            s@ == error_message_text(*self),
    {
        let mut s = self.code().wire_str().to_owned();
        s.append(": ");
        match self {
            ARCPError::Cancelled { reason } => s.append(reason.as_str()),
            ARCPError::InvalidRequest { detail }
            | ARCPError::InvalidArgument { detail }
            | ARCPError::OutOfRange { detail }
            | ARCPError::NotFound { detail }
            | ARCPError::PermissionDenied { detail }
            | ARCPError::Unauthenticated { detail }
            | ARCPError::FailedPrecondition { detail }
            | ARCPError::Internal { detail }
            | ARCPError::Unavailable { detail }
            | ARCPError::Storage { detail }
            | ARCPError::LeaseExpired { detail }
            | ARCPError::LeaseRevoked { detail }
            | ARCPError::LeaseSubsetViolation { detail }
            | ARCPError::BudgetExhausted { detail } => s.append(detail.as_str()),
        }
        s
    }

    /// Whether a client may retry after this error.
    pub fn retryable(&self) -> (r: bool)
        ensures
            r == code_retryable(error_code(*self)),
    {
        self.code().retryable()
    }
}

/// `LEASE_EXPIRED` and `BUDGET_EXHAUSTED` are never retryable: whatever
/// error carries one of them, a naive retry fails identically.
pub proof fn lemma_lease_and_budget_errors_not_retryable(e: ARCPError)
    requires
        error_code(e) == ErrorCode::LeaseExpired || error_code(e) == ErrorCode::BudgetExhausted,
    ensures
        !code_retryable(error_code(e)),
{
}

} // verus!
