//! Exact backend identity and capability claims.

use vstd::prelude::*;
use vstd::utf8::encode_utf8;
use crate::text::same_text;

verus! {

/// Maximum bytes in a stable backend identifier.
pub const MAX_SANDBOX_BACKEND_ID_BYTES: usize = 64;

/// Maximum bytes in a backend version or provenance label.
pub const MAX_SANDBOX_BACKEND_WORD_BYTES: usize = 128;

/// The characters a backend identifier is spelled with: ASCII letters and
/// digits, `.`, `-` and `_`.
pub open spec fn backend_id_char(c: char) -> bool {
    ('a' <= c && c <= 'z') || ('A' <= c && c <= 'Z') || ('0' <= c && c <= '9') || c == '.' || c
        == '-' || c == '_'
}

/// Whether `value` is a backend identifier: one to
/// [`MAX_SANDBOX_BACKEND_ID_BYTES`] bytes of [`backend_id_char`]s.
pub open spec fn valid_backend_id(value: Seq<char>) -> bool {
    &&& value.len() > 0
    &&& encode_utf8(value).len() <= MAX_SANDBOX_BACKEND_ID_BYTES
    &&& forall|i: int| 0 <= i < value.len() ==> backend_id_char(#[trigger] value[i])
}

fn is_backend_id_char(c: char) -> (ok: bool)
    ensures
        ok == backend_id_char(c),
{
    ('a' <= c && c <= 'z') || ('A' <= c && c <= 'Z') || ('0' <= c && c <= '9') || c == '.' || c
        == '-' || c == '_'
}

/// A stable, bounded backend implementation name.
#[derive(Clone, PartialEq, Eq, PartialOrd, Ord, Hash)]
pub struct SandboxBackendId(String);

impl View for SandboxBackendId {
    type V = Seq<char>;

    closed spec fn view(&self) -> Seq<char> {
        self.0@
    }
}

impl SandboxBackendId {
    /// Validates a source-qualified backend name.
    pub fn new(value: &str) -> (id: Result<Self, SandboxCapabilityError>)
        ensures
            id is Ok <==> valid_backend_id(value@),
            id matches Ok(i) ==> i@ == value@,
            id matches Err(e) ==> e == SandboxCapabilityError::InvalidBackendId,
    {
        if value.is_empty() || value.as_bytes().len() > MAX_SANDBOX_BACKEND_ID_BYTES {
            return Err(SandboxCapabilityError::InvalidBackendId);
        }
        let mut symbolic = true;
        for c in it: value.chars()
            invariant
                it.seq() == value@,
                symbolic == forall|j: int| 0 <= j < it.index() ==> backend_id_char(#[trigger] value@[j]),
        {
            if !is_backend_id_char(c) {
                symbolic = false;
            }
        }
        if !symbolic {
            return Err(SandboxCapabilityError::InvalidBackendId);
        }
        Ok(Self(value.to_owned()))
    }

    /// The stable backend name.
    pub fn as_str(&self) -> (name: &str)
        ensures
            name@ == self@,
    {
        self.0.as_str()
    }
}

/// Where the enforcing backend came from.
#[derive(Debug, Clone, Copy, PartialEq, Eq, Structural)]
pub enum SandboxBackendProvenance {
    /// A canonical executable outside every writable sandbox root.
    System,
    /// A release-pinned executable shipped with the host.
    Bundled,
    /// An authenticated remote executor.
    Remote,
    /// An explicitly selected non-confining compatibility implementation.
    Compatibility,
}

/// Bounded backend identity retained in audit and inspection records.
#[derive(Clone, PartialEq, Eq)]
pub struct SandboxBackendIdentity {
    id: SandboxBackendId,
    version: String,
    provenance: SandboxBackendProvenance,
    digest: Option<[u8; 32]>,
}

/// The content of a [`SandboxBackendIdentity`].
pub struct SandboxBackendIdentityView {
    pub id: Seq<char>,
    pub version: Seq<char>,
    pub provenance: SandboxBackendProvenance,
    pub digest: Option<[u8; 32]>,
}

impl View for SandboxBackendIdentity {
    type V = SandboxBackendIdentityView;

    closed spec fn view(&self) -> SandboxBackendIdentityView {
        SandboxBackendIdentityView {
            id: self.id@,
            version: self.version@,
            provenance: self.provenance,
            digest: self.digest,
        }
    }
}

impl SandboxBackendIdentity {
    /// Builds an identity without retaining an executable path; refused where
    /// the version is empty or longer than [`MAX_SANDBOX_BACKEND_WORD_BYTES`].
    pub fn new(
        id: SandboxBackendId,
        version: &str,
        provenance: SandboxBackendProvenance,
        digest: Option<[u8; 32]>,
    ) -> (identity: Result<Self, SandboxCapabilityError>)
        ensures
            identity is Ok <==> (version@.len() > 0 && encode_utf8(version@).len()
                <= MAX_SANDBOX_BACKEND_WORD_BYTES),
            identity matches Ok(i) ==> i@ == (SandboxBackendIdentityView {
                id: id@,
                version: version@,
                provenance,
                digest,
            }),
            identity matches Err(e) ==> e == SandboxCapabilityError::InvalidBackendVersion,
    {
        if version.is_empty() || version.as_bytes().len() > MAX_SANDBOX_BACKEND_WORD_BYTES {
            return Err(SandboxCapabilityError::InvalidBackendVersion);
        }
        Ok(Self { id, version: version.to_owned(), provenance, digest })
    }

    /// Stable implementation identity.
    pub(crate) fn copy(&self) -> (copied: Self)
        ensures
            copied@ == self@,
    {
        Self {
            id: SandboxBackendId(self.id.0.clone()),
            version: self.version.clone(),
            provenance: self.provenance,
            digest: self.digest,
        }
    }

    pub(crate) fn same(&self, other: &Self) -> (same: bool)
        ensures
            same == (self@ == other@),
    {
        let digests = match (self.digest, other.digest) {
            (Some(a), Some(b)) => same_digest(&a, &b),
            (None, None) => true,
            _ => false,
        };
        same_text(self.id.0.as_str(), other.id.0.as_str()) && same_text(self.version.as_str(), other.version.as_str())
            && self.provenance == other.provenance && digests
    }

    pub fn id(&self) -> (id: &SandboxBackendId)
        ensures
            id@ == self@.id,
    {
        &self.id
    }

    /// Bounded implementation version.
    pub fn version(&self) -> (version: &str)
        ensures
            version@ == self@.version,
    {
        self.version.as_str()
    }

    /// How the executable or service was supplied.
    pub fn provenance(&self) -> (provenance: SandboxBackendProvenance)
        ensures
            provenance == self@.provenance,
    {
        self.provenance
    }

    /// Digest of the backend artifact, where one is locally verifiable.
    pub fn digest(&self) -> (digest: Option<[u8; 32]>)
        ensures
            digest == self@.digest,
    {
        self.digest
    }
}

/// Whether two digests hold the same bytes.
pub(crate) fn same_digest(a: &[u8; 32], b: &[u8; 32]) -> (same: bool)
    ensures
        same == (*a == *b),
        same == (a@ == b@),
{
    let mut i: usize = 0;
    while i < 32
        invariant
            i <= 32,
            a@.len() == 32,
            b@.len() == 32,
            forall|k: int| 0 <= k < i ==> a[k] == b[k],
        decreases 32 - i,
    {
        if a[i] != b[i] {
            assert(a@[i as int] != b@[i as int]);
            return false;
        }
        i = i + 1;
    }
    assert(*a =~= *b);
    assert(a@ =~= b@);
    true
}

/// Strength of one backend claim, weakest first.
#[derive(Debug, Clone, Copy, PartialEq, Eq, PartialOrd, Ord, Structural)]
pub enum SandboxCapability {
    /// The backend cannot provide the feature.
    Unsupported,
    /// The backend can measure or report it but cannot make it a hard ceiling.
    Observed,
    /// The backend enforces it before untrusted code can bypass it.
    Enforced,
}

impl SandboxCapability {
    /// Whether a required hard policy can rely on this claim.
    pub fn is_enforced(self) -> (enforced: bool)
        ensures
            enforced == (self == SandboxCapability::Enforced),
    {
        match self {
            Self::Enforced => true,
            _ => false,
        }
    }
}

/// Independently negotiated sandbox features.
#[derive(Debug, Clone, Copy, PartialEq, Eq, Structural)]
pub enum SandboxFeature {
    /// Read/write filesystem view and protected carve-outs.
    Filesystem,
    /// A network policy that permits no egress.
    NetworkDeny,
    /// Exact host/port/DNS constrained egress.
    NetworkAllowlist,
    /// No host descriptors other than declared standard streams.
    DescriptorIsolation,
    /// User, PID, IPC, and network namespaces or an equivalent isolation set.
    ProcessIsolation,
    /// Minimal procfs and device view.
    KernelSurface,
    /// No-new-privileges and dropped process capabilities.
    PrivilegeIsolation,
    /// Bounded inert manifest staging.
    Materialization,
    /// CPU time ceiling.
    CpuLimit,
    /// Address-space or resident-memory ceiling.
    MemoryLimit,
    /// Ephemeral-storage ceiling.
    DiskLimit,
    /// Process-count ceiling.
    ProcessLimit,
    /// Open-file ceiling.
    OpenFileLimit,
    /// Command wall-time ceiling.
    CommandTimeLimit,
    /// Session wall-time ceiling.
    SessionTimeLimit,
    /// Outbound-byte ceiling.
    OutboundByteLimit,
    /// Captured-output ceiling.
    OutputLimit,
    /// Concurrent session/command ceiling.
    ConcurrencyLimit,
    /// Backend cost ceiling.
    CostLimit,
    /// Pseudo-terminal operation.
    Pty,
    /// Direct file operations through the service.
    FileOperations,
    /// Durable sessions.
    Persistence,
    /// Snapshots.
    Snapshot,
    /// Resuming a prior session.
    Resume,
    /// Bounded lifecycle audit facts.
    Audit,
    /// Bounded resource usage reporting.
    Usage,
}

/// The slot a feature's claim occupies, in declaration order.
pub open spec fn feature_slot(feature: SandboxFeature) -> int {
    match feature {
        SandboxFeature::Filesystem => 0,
        SandboxFeature::NetworkDeny => 1,
        SandboxFeature::NetworkAllowlist => 2,
        SandboxFeature::DescriptorIsolation => 3,
        SandboxFeature::ProcessIsolation => 4,
        SandboxFeature::KernelSurface => 5,
        SandboxFeature::PrivilegeIsolation => 6,
        SandboxFeature::Materialization => 7,
        SandboxFeature::CpuLimit => 8,
        SandboxFeature::MemoryLimit => 9,
        SandboxFeature::DiskLimit => 10,
        SandboxFeature::ProcessLimit => 11,
        SandboxFeature::OpenFileLimit => 12,
        SandboxFeature::CommandTimeLimit => 13,
        SandboxFeature::SessionTimeLimit => 14,
        SandboxFeature::OutboundByteLimit => 15,
        SandboxFeature::OutputLimit => 16,
        SandboxFeature::ConcurrencyLimit => 17,
        SandboxFeature::CostLimit => 18,
        SandboxFeature::Pty => 19,
        SandboxFeature::FileOperations => 20,
        SandboxFeature::Persistence => 21,
        SandboxFeature::Snapshot => 22,
        SandboxFeature::Resume => 23,
        SandboxFeature::Audit => 24,
        SandboxFeature::Usage => 25,
    }
}

impl SandboxFeature {
    fn index(self) -> (slot: usize)
        ensures
            slot == feature_slot(self),
            slot < 26,
    {
        match self {
            Self::Filesystem => 0,
            Self::NetworkDeny => 1,
            Self::NetworkAllowlist => 2,
            Self::DescriptorIsolation => 3,
            Self::ProcessIsolation => 4,
            Self::KernelSurface => 5,
            Self::PrivilegeIsolation => 6,
            Self::Materialization => 7,
            Self::CpuLimit => 8,
            Self::MemoryLimit => 9,
            Self::DiskLimit => 10,
            Self::ProcessLimit => 11,
            Self::OpenFileLimit => 12,
            Self::CommandTimeLimit => 13,
            Self::SessionTimeLimit => 14,
            Self::OutboundByteLimit => 15,
            Self::OutputLimit => 16,
            Self::ConcurrencyLimit => 17,
            Self::CostLimit => 18,
            Self::Pty => 19,
            Self::FileOperations => 20,
            Self::Persistence => 21,
            Self::Snapshot => 22,
            Self::Resume => 23,
            Self::Audit => 24,
            Self::Usage => 25,
        }
    }
}

/// One immutable capability snapshot returned before side effects.
#[derive(Debug, Clone, PartialEq, Eq)]
pub struct SandboxCapabilities {
    claims: [SandboxCapability; 26],
}

impl View for SandboxCapabilities {
    /// The claim for each feature, by [`feature_slot`].
    type V = Seq<SandboxCapability>;

    closed spec fn view(&self) -> Seq<SandboxCapability> {
        self.claims@
    }
}

impl SandboxCapabilities {
    /// A backend that claims nothing.
    pub fn none() -> (none: Self)
        ensures
            none@.len() == 26,
            forall|i: int| 0 <= i < 26 ==> #[trigger] none@[i] == SandboxCapability::Unsupported,
    {
        Self { claims: [SandboxCapability::Unsupported; 26] }
    }

    /// Returns a copy with one exact claim changed.
    pub fn with(self, feature: SandboxFeature, claim: SandboxCapability) -> (changed: Self)
        ensures
            changed@ == self@.update(feature_slot(feature), claim),
            changed@.len() == 26,
    {
        let mut claims = self.claims;
        let slot = feature.index();
        claims[slot] = claim;
        Self { claims }
    }

    pub(crate) fn copy(&self) -> (copied: Self)
        ensures
            copied@ == self@,
    {
        Self { claims: self.claims }
    }

    pub(crate) fn claim_at(&self, slot: usize) -> (claim: SandboxCapability)
        requires
            slot < 26,
        ensures
            claim == self@[slot as int],
    {
        self.claims[slot]
    }

    /// The backend's claim for `feature`.
    pub fn claim(&self, feature: SandboxFeature) -> (claim: SandboxCapability)
        ensures
            claim == self@[feature_slot(feature)],
    {
        self.claims[feature.index()]
    }
}

impl Default for SandboxCapabilities {
    fn default() -> (none: Self)
        ensures
            none@.len() == 26,
            forall|i: int| 0 <= i < 26 ==> #[trigger] none@[i] == SandboxCapability::Unsupported,
    {
        Self::none()
    }
}

/// Every capability set holds one claim for each of the 26 features.
pub proof fn lemma_capabilities_hold_every_feature(capabilities: SandboxCapabilities)
    ensures
        capabilities@.len() == 26,
{
}

/// A claim set for one feature reads back as set, and every other feature's
/// claim is what it was: `c.with(feature, claim)` holds exactly
/// `c@.update(feature_slot(feature), claim)`.
pub proof fn lemma_claim_reads_back(
    capabilities: SandboxCapabilities,
    feature: SandboxFeature,
    claim: SandboxCapability,
    other: SandboxFeature,
)
    ensures
        capabilities@.update(feature_slot(feature), claim)[feature_slot(feature)] == claim,
        feature != other ==> capabilities@.update(feature_slot(feature), claim)[feature_slot(
            other,
        )] == capabilities@[feature_slot(other)],
{
}

/// Why a capability identity was not safe to retain.
#[derive(Debug, Clone, Copy, PartialEq, Eq, Structural)]
pub enum SandboxCapabilityError {
    /// Backend identifiers are stable symbolic words.
    InvalidBackendId,
    /// Versions are short non-empty diagnostic values.
    InvalidBackendVersion,
}

impl SandboxCapabilityError {
    /// The diagnostic sentence.
    pub fn message(&self) -> (text: &'static str)
        ensures
            text@ == match *self {
                SandboxCapabilityError::InvalidBackendId =>
                    "sandbox backend id must be 1..=64 ASCII letters, digits, '.', '-' or '_'"@,
                SandboxCapabilityError::InvalidBackendVersion =>
                    "sandbox backend version must be 1..=128 bytes"@,
            },
    {
        match self {
            Self::InvalidBackendId => "sandbox backend id must be 1..=64 ASCII letters, digits, '.', '-' or '_'",
            Self::InvalidBackendVersion => "sandbox backend version must be 1..=128 bytes",
        }
    }
}

} // verus!
