//! Runtime configuration: the capabilities and identity the runtime
//! advertises, session lease length, flow-control window and retention of
//! terminal jobs. Authenticators, tools and the credential provisioner are
//! attached by the code that hosts the runtime.

use vstd::prelude::*;

use crate::error::{error_code, error_detail, ARCPError, ErrorCode};
use crate::messages::session::RuntimeIdentity;
use crate::messages::Capabilities;

verus! {

broadcast use vstd::string::group_string_axioms;

/// Protocol version carried by every envelope.
pub const PROTOCOL_VERSION: &'static str = "1.1";

/// Implementation kind reported in identity blocks.
pub const IMPL_KIND: &'static str = "arcp-rs";

/// Implementation version reported in identity blocks.
pub const IMPL_VERSION: &'static str = "1.1.0";

/// Default session lease, in seconds.
pub const DEFAULT_SESSION_LEASE_SECONDS: u64 = 3600;

/// Default retention of terminal jobs and their idempotency records, in
/// seconds.
pub const DEFAULT_TERMINAL_RETENTION_SECONDS: u64 = 300;

/// Runtime configuration, built step by step.
#[derive(Debug, Clone)]
pub struct RuntimeBuilder {
    /// Capabilities the runtime advertises.
    pub advertised_capabilities: Capabilities,
    /// Identity block of `session.accepted`.
    pub runtime_identity: RuntimeIdentity,
    /// Session lease length; `None` sends no lease.
    pub session_lease_seconds: Option<u64>,
    /// `session.ack` window; `None` disables flow control.
    pub ack_window: Option<u64>,
    /// Retention of terminal jobs, in seconds.
    pub terminal_retention_secs: u64,
    /// A credential provisioner is attached.
    pub credential_provisioning: bool,
}

impl RuntimeBuilder {
    /// Default configuration: no capabilities advertised, the crate's
    /// identity (`arcp-rs`, trusted), an hour-long session lease, no
    /// flow-control window, five minutes of terminal-job retention, no
    /// provisioner.
    pub fn new() -> (b: Self)
        ensures
            b.runtime_identity.kind@ == IMPL_KIND@,
            b.runtime_identity.version@ == IMPL_VERSION@,
            b.runtime_identity.fingerprint is None,
            b.runtime_identity.trust_level matches Some(t) && t@ == "trusted"@,
            b.session_lease_seconds == Some(DEFAULT_SESSION_LEASE_SECONDS),
            b.ack_window is None,
            b.terminal_retention_secs == DEFAULT_TERMINAL_RETENTION_SECONDS,
            !b.credential_provisioning,
    {
        RuntimeBuilder {
            advertised_capabilities: Capabilities::default(),
            runtime_identity: RuntimeIdentity {
                kind: IMPL_KIND.to_owned(),
                version: IMPL_VERSION.to_owned(),
                fingerprint: None,
                trust_level: Some("trusted".to_owned()),
            },
            session_lease_seconds: Some(DEFAULT_SESSION_LEASE_SECONDS),
            ack_window: None,
            terminal_retention_secs: DEFAULT_TERMINAL_RETENTION_SECONDS,
            credential_provisioning: false,
        }
    }

    /// Set the advertised capabilities.
    pub fn with_capabilities(self, caps: Capabilities) -> (b: Self)
        ensures
            b == (RuntimeBuilder { advertised_capabilities: caps, ..self }),
    {
        RuntimeBuilder { advertised_capabilities: caps, ..self }
    }

    /// Override the runtime identity.
    pub fn with_identity(self, ident: RuntimeIdentity) -> (b: Self)
        ensures
            b == (RuntimeBuilder { runtime_identity: ident, ..self }),
    {
        RuntimeBuilder { runtime_identity: ident, ..self }
    }

    /// Override the session lease length.
    pub fn with_session_lease_seconds(self, seconds: u64) -> (b: Self)
        ensures
            b == (RuntimeBuilder { session_lease_seconds: Some(seconds), ..self }),
    {
        RuntimeBuilder { session_lease_seconds: Some(seconds), ..self }
    }

    /// Set the `session.ack` window. A window of zero could never let the
    /// first event through, so it disables flow control instead.
    pub fn with_ack_window(self, window: u64) -> (b: Self)
        ensures
            b == (RuntimeBuilder { ack_window: if window == 0 { None } else { Some(window) }, ..self }),
    {
        RuntimeBuilder { ack_window: if window == 0 { None } else { Some(window) }, ..self }
    }

    /// Set how long terminal jobs are retained, in seconds.
    pub fn with_terminal_retention(self, secs: u64) -> (b: Self)
        ensures
            b == (RuntimeBuilder { terminal_retention_secs: secs, ..self }),
    {
        RuntimeBuilder { terminal_retention_secs: secs, ..self }
    }

    /// Attach a credential provisioner: the runtime then advertises
    /// `model_use` and `provisioned_credentials`.
    pub fn with_credential_provisioner(self) -> (b: Self)
        ensures
            b.credential_provisioning,
            b.advertised_capabilities.model_use == Some(true),
            b.advertised_capabilities.provisioned_credentials == Some(true),
            b.runtime_identity == self.runtime_identity,
            b.session_lease_seconds == self.session_lease_seconds,
            b.ack_window == self.ack_window,
            b.terminal_retention_secs == self.terminal_retention_secs,
    {
        let mut b = self;
        b.credential_provisioning = true;
        b.advertised_capabilities.model_use = Some(true);
        b.advertised_capabilities.provisioned_credentials = Some(true);
        b
    }

    /// Check the configuration before a runtime is built: advertising
    /// provisioned credentials without a provisioner is a
    /// `FAILED_PRECONDITION`.
    pub fn validate(&self) -> (r: Result<(), ARCPError>)
        ensures
            r is Err <==> (self.advertised_capabilities.provisioned_credentials == Some(true)
                && !self.credential_provisioning),
            r matches Err(e) ==> error_code(e) == ErrorCode::FailedPrecondition && error_detail(e)
                == "provisioned_credentials advertised without a CredentialProvisioner"@,
    {
        let advertised = match self.advertised_capabilities.provisioned_credentials {
            Some(b) => b,
            None => false,
        };
        if advertised && !self.credential_provisioning {
            Err(
                ARCPError::FailedPrecondition {
                    detail: "provisioned_credentials advertised without a CredentialProvisioner".to_owned(),
                },
            )
        } else {
            Ok(())
        }
    }
}

/// Attaching a provisioner always yields a configuration that validates.
pub proof fn lemma_provisioner_validates(b: RuntimeBuilder)
    requires
        b.credential_provisioning,
    ensures
        !(b.advertised_capabilities.provisioned_credentials == Some(true) && !b.credential_provisioning),
{
}

} // verus!
