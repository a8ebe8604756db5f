//! Artifact messages.

use vstd::prelude::*;

use crate::ids::ArtifactId;
use crate::time::UtcTime;

verus! {

/// Reference to an addressable artifact.
#[derive(Debug, Clone, PartialEq, Eq)]
pub struct ArtifactRef {
    /// Artifact identifier.
    pub artifact_id: ArtifactId,
    /// `arcp://` URI of the artifact.
    pub uri: String,
    /// Media type of the content.
    pub media_type: String,
    /// Size in bytes.
    pub size: u64,
    /// Optional SHA-256 of the content.
    pub sha256: Option<String>,
    /// Optional expiry.
    pub expires_at: Option<UtcTime>,
}

/// Payload for `artifact.put`.
#[derive(Debug, Clone, PartialEq, Eq)]
pub struct ArtifactPutPayload {
    /// Media type of the content.
    pub media_type: String,
    /// Base64 content.
    pub data: String,
    /// Optional SHA-256 of the content.
    pub sha256: Option<String>,
    /// Requested retention in seconds.
    pub retain_seconds: Option<u64>,
}

/// Payload for `artifact.fetch`.
#[derive(Debug, Clone, PartialEq, Eq)]
pub struct ArtifactFetchPayload {
    /// Artifact to fetch.
    pub artifact_id: ArtifactId,
}

/// Payload for `artifact.ref`.
#[derive(Debug, Clone, PartialEq, Eq)]
pub struct ArtifactRefPayload {
    /// The stored artifact.
    pub artifact: ArtifactRef,
}

/// Payload for `artifact.release`.
#[derive(Debug, Clone, PartialEq, Eq)]
pub struct ArtifactReleasePayload {
    /// Artifact to release.
    pub artifact_id: ArtifactId,
}

} // verus!
