//! The redacted words a sandbox lifecycle is audited in: its transitions,
//! the phases and kinds of its failures, and why a fact could not be kept.

use vstd::prelude::*;

verus! {

/// Most sandbox facts one admitted tool call may retain.
pub const MAX_SANDBOX_AUDIT_FACTS: usize = 128;

/// Most live or detached sandbox lifecycles one runner may retain for late
/// journal delivery.
pub const MAX_SANDBOX_AUDIT_LIFECYCLES: usize = 128;

/// A lifecycle transition that contains no backend-controlled prose.
#[derive(Debug, Clone, Copy, PartialEq, Eq, Structural)]
pub enum SandboxLifecycle {
    /// Effective policy and manifest identities were fixed.
    PolicyResolved,
    /// A session and its cleanup ownership were prepared.
    Prepared,
    /// The manifest transaction committed.
    Materialized,
    /// The exact command and release channel were fixed before `GO`.
    ReleaseIntent,
    /// The authenticated one-shot `GO` was sent or became ambiguous.
    CommandReleased,
    /// Application background ownership was durable before `GO`.
    OwnerTransferred,
    /// The governed command started.
    CommandStarted,
    /// The command leader exited and its descendant scope was emptied.
    CommandFinished,
    /// Terminal publication began after proved scope death.
    PublicationStarted,
    /// Valid workspace effects were durably published.
    Published,
    /// Private effects were discarded or publication was reversed.
    RolledBack,
    /// Preparation ended before any possible command release.
    Refused,
    /// Cleanup or recovery could not safely select publish or rollback.
    Quarantined,
}

/// Stable failure category retained without OS errors, paths, or command text.
#[derive(Debug, Clone, Copy, PartialEq, Eq, Structural)]
pub enum SandboxFailureKind {
    /// A requested capability was unsupported.
    Unsupported,
    /// No suitable backend could be prepared.
    BackendUnavailable,
    /// A command guardrail denied an image.
    Guardrail,
    /// The concurrent reservation was exhausted.
    Concurrency,
    /// Manifest or filesystem preparation failed.
    Materialization,
    /// Process creation failed.
    Spawn,
    /// A running process could not be controlled or reaped.
    Lifecycle,
    /// The bounded audit collector itself could not retain the fact.
    Audit,
    /// A command or environment record was structurally invalid.
    InvalidInput,
}

/// Lifecycle phase in which a typed failure occurred.
#[derive(Debug, Clone, Copy, PartialEq, Eq, Structural)]
pub enum SandboxFailurePhase {
    /// Backend selection and capability negotiation.
    Prepare,
    /// Transactional manifest/workspace setup.
    Materialize,
    /// Guardrail evaluation and process creation.
    Start,
    /// Process control, accounting, or cleanup.
    Execute,
}

/// Why a bounded fact could not be retained.
#[derive(Debug, Clone, Copy, PartialEq, Eq, Structural)]
pub enum SandboxAuditError {
    /// A call identity cannot cross the framework journal boundary.
    InvalidCall,
    /// The fixed per-call fact ceiling was reached.
    Full,
    /// The collector could no longer be accessed safely.
    Unavailable,
    /// A host attempted to attach a collector to another execution or call.
    AttributionMismatch,
    /// Too many detached or live lifecycles are waiting for delivery.
    RegistryFull,
}

impl SandboxAuditError {
    /// The diagnostic sentence.
    pub fn message(&self) -> (text: &'static str)
        ensures
            text@ == match *self {
                SandboxAuditError::InvalidCall => "sandbox audit call identity is empty or oversized"@,
                SandboxAuditError::Full => "sandbox audit reached its bounded fact ceiling"@,
                SandboxAuditError::Unavailable => "sandbox audit collector is unavailable"@,
                SandboxAuditError::AttributionMismatch =>
                    "sandbox audit attribution does not match its tool context"@,
                SandboxAuditError::RegistryFull =>
                    "sandbox audit registry reached its bounded lifecycle ceiling"@,
            },
    {
        match self {
            Self::InvalidCall => "sandbox audit call identity is empty or oversized",
            Self::Full => "sandbox audit reached its bounded fact ceiling",
            Self::Unavailable => "sandbox audit collector is unavailable",
            Self::AttributionMismatch => "sandbox audit attribution does not match its tool context",
            Self::RegistryFull => "sandbox audit registry reached its bounded lifecycle ceiling",
        }
    }
}

} // verus!
