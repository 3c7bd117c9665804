//! Persistent provider-side prompt-cache resource contracts.

use vstd::prelude::*;
use vstd::string::StringSliceAdditionalSpecFns;
use vstd::utf8::encode_utf8;

use super::attempt::{PromptCacheFingerprint, PromptCacheScopeDigest};
use super::policy::PromptCacheIsolation;
use crate::duration::{duration_nanos, subsec_nanos_of, whole_secs_of};
use crate::text::{has_control, is_control_char, same_text};

verus! {

/// Largest opaque provider handle retained in local metadata.
pub const MAX_PROMPT_CACHE_HANDLE_BYTES: usize = 512;

/// Largest model or model-revision word retained in local metadata.
pub const MAX_PROMPT_CACHE_RESOURCE_WORD_BYTES: usize = 256;

/// Largest number of persistent resource records one store may retain.
pub const MAX_PROMPT_CACHE_RESOURCES: usize = 128;

/// Why a bounded resource word was refused.
#[derive(Debug, Clone, Copy, PartialEq, Eq, Structural)]
pub enum PromptCacheResourceWordError {
    /// The required word was empty.
    Empty,
    /// The word exceeded its retained-data ceiling.
    TooLong,
    /// A control character would make the one-line metadata representation ambiguous.
    Control,
    /// A local identifier was not the canonical UUID-v7 spelling.
    InvalidId,
}

impl PromptCacheResourceWordError {
    /// The diagnostic sentence.
    pub fn message(&self) -> (text: &'static str)
        ensures
            text@ == match *self {
                PromptCacheResourceWordError::Empty => "prompt-cache resource metadata word is empty"@,
                PromptCacheResourceWordError::TooLong => "prompt-cache resource metadata word is too long"@,
                PromptCacheResourceWordError::Control => "prompt-cache resource metadata word contains a control character"@,
                PromptCacheResourceWordError::InvalidId => "prompt-cache resource identifier is not a canonical UUID v7"@,
            },
    {
        match self {
            Self::Empty => "prompt-cache resource metadata word is empty",
            Self::TooLong => "prompt-cache resource metadata word is too long",
            Self::Control => "prompt-cache resource metadata word contains a control character",
            Self::InvalidId => "prompt-cache resource identifier is not a canonical UUID v7",
        }
    }
}

/// Why a bounded word is refused, if it is: empty, longer than `maximum`
/// bytes, or holding a control character, checked in that order.
pub open spec fn word_refusal(value: Seq<char>, maximum: usize) -> Option<PromptCacheResourceWordError> {
    if value.len() == 0 {
        Some(PromptCacheResourceWordError::Empty)
    } else if encode_utf8(value).len() > maximum {
        Some(PromptCacheResourceWordError::TooLong)
    } else if exists|i: int| 0 <= i < value.len() && is_control_char(#[trigger] value[i]) {
        Some(PromptCacheResourceWordError::Control)
    } else {
        None
    }
}

fn bounded_word(value: &str, maximum: usize) -> (word: Result<String, PromptCacheResourceWordError>)
    ensures
        match word {
            Ok(w) => word_refusal(value@, maximum) is None && w@ == value@,
            Err(e) => word_refusal(value@, maximum) == Some(e),
        },
{
    if value.is_empty() {
        return Err(PromptCacheResourceWordError::Empty);
    }
    if value.as_bytes().len() > maximum {
        return Err(PromptCacheResourceWordError::TooLong);
    }
    if has_control(value) {
        return Err(PromptCacheResourceWordError::Control);
    }
    Ok(value.to_owned())
}

/// What the UUID parser reads from a text: its version number and its
/// canonical hyphenated lowercase spelling, or nothing when it is no UUID.
pub uninterp spec fn uuid_reading(text: Seq<char>) -> Option<(usize, Seq<char>)>;

/// Parses `text` with `uuid::Uuid::try_parse` and reports the version number
/// (`get_version_num`) and the `to_string` spelling of what it read. The
/// contract names this result and says nothing more of it.
#[verifier::external_body]
fn read_uuid(text: &str) -> (reading: Option<(usize, String)>)
    ensures
        match reading {
            Some((version, canonical)) => uuid_reading(text@) == Some((version, canonical@)),
            None => uuid_reading(text@) is None,
        },
{
    match uuid::Uuid::try_parse(text) {
        Ok(uuid) => Some((uuid.get_version_num(), uuid.to_string())),
        Err(_) => None,
    }
}

/// The hyphenated spelling of the version-7 UUID built from `millis` and
/// `random`.
pub uninterp spec fn v7_spelling(millis: u64, random: Seq<u8>) -> Seq<char>;

/// `uuid::Builder::from_unix_timestamp_millis`, then `into_uuid` and
/// `to_string`: the UUID whose timestamp is `millis` and whose counter and
/// random bits are `random`, with the version nibble set to 7, spelled in the
/// hyphenated lowercase form of 36 characters, which parses back to the same
/// UUID. The spelling is named by [`v7_spelling`].
#[verifier::external_body]
fn v7_text(millis: u64, random: [u8; 10]) -> (text: String)
    ensures
        text@ == v7_spelling(millis, random@),
        text@.len() == 36,
        canonical_v7(text@),
{
    uuid::Builder::from_unix_timestamp_millis(millis, &random).into_uuid().to_string()
}

/// `SystemTime::now` measured from `UNIX_EPOCH` with `duration_since`:
/// nothing where the clock reads earlier than the epoch. Which time comes
/// back depends on the clock, so nothing is promised of it.
#[verifier::external_body]
fn unix_time() -> (since: Option<std::time::Duration>) {
    std::time::SystemTime::now().duration_since(std::time::UNIX_EPOCH).ok()
}

/// `getrandom::fill` over ten bytes: nothing where the system has no
/// randomness to give. Which bytes come back is chance, so nothing is
/// promised of them.
#[verifier::external_body]
fn random_bytes() -> (random: Option<[u8; 10]>) {
    let mut random = [0u8; 10];
    match getrandom::fill(&mut random) {
        Ok(()) => Some(random),
        Err(_) => None,
    }
}

/// The whole milliseconds a span since the Unix epoch holds, held at
/// `u64::MAX` where it would pass it.
pub open spec fn unix_millis(since: std::time::Duration) -> u64 {
    let millis = duration_nanos(since) / 1_000_000;
    if millis > u64::MAX { u64::MAX } else { millis as u64 }
}

proof fn lemma_millis_from_parts(n: int)
    requires
        n >= 0,
    ensures
        n / 1_000_000 == (n / 1_000_000_000) * 1000 + (n % 1_000_000_000) / 1_000_000,
{
    let q = n / 1_000_000_000;
    let r = n % 1_000_000_000;
    assert(n == q * 1_000_000_000 + r) by (nonlinear_arith)
        requires
            q == n / 1_000_000_000,
            r == n % 1_000_000_000,
    ;
    assert((q * 1_000_000_000 + r) / 1_000_000 == q * 1000 + r / 1_000_000) by (nonlinear_arith)
        requires
            q >= 0,
            0 <= r < 1_000_000_000,
    ;
}

/// The version-7 identifier for a moment `since` the Unix epoch and ten
/// bytes of randomness: its timestamp is the moment's whole milliseconds.
pub fn v7_id_from(since: &std::time::Duration, random: [u8; 10]) -> (text: String)
    ensures
        text@ == v7_spelling(unix_millis(*since), random@),
        text@.len() == 36,
        canonical_v7(text@),
{
    let secs = whole_secs_of(since);
    let nanos = subsec_nanos_of(since);
    let whole = if secs > u64::MAX / 1000 {
        u64::MAX
    } else {
        secs * 1000
    };
    let millis = whole.saturating_add((nanos / 1_000_000) as u64);
    proof {
        lemma_millis_from_parts(duration_nanos(*since) as int);
    }
    v7_text(millis, random)
}

/// Mints a fresh version-7 identifier from the clock and the system's
/// randomness, spelled in canonical hyphenated form; nothing where the clock
/// reads before 1970 or no randomness can be had.
pub(crate) fn mint_uuid_v7() -> (text: Option<String>)
    ensures
        text matches Some(t) ==> t@.len() == 36 && canonical_v7(t@) && exists|
            since: std::time::Duration,
            random: Seq<u8>,
        | random.len() == 10 && t@ == v7_spelling(unix_millis(since), random),
{
    let since = match unix_time() {
        Some(since) => since,
        None => {
            return None;
        },
    };
    let random = match random_bytes() {
        Some(random) => random,
        None => {
            return None;
        },
    };
    Some(v7_id_from(&since, random))
}

/// Whether `text` is a canonical version-7 identifier spelling.
pub open spec fn canonical_v7(text: Seq<char>) -> bool {
    uuid_reading(text) == Some((7usize, text))
}

/// Opaque local identity for a separately managed remote cached-content resource.
#[derive(Clone, PartialEq, Eq, Hash)]
pub struct PromptCacheResourceId(String);

impl View for PromptCacheResourceId {
    type V = Seq<char>;

    closed spec fn view(&self) -> Seq<char> {
        self.0@
    }
}

impl PromptCacheResourceId {
    /// Mints an identifier that can safely key one local metadata record.
    /// Nothing where no identifier can be minted: the clock reads before
    /// 1970, or the system has no randomness to give.
    pub fn new() -> (id: Option<Self>)
        ensures
            id matches Some(i) ==> i@.len() == 36 && canonical_v7(i@) && exists|
                since: std::time::Duration,
                random: Seq<u8>,
            | random.len() == 10 && i@ == v7_spelling(unix_millis(since), random),
    {
        match mint_uuid_v7() {
            Some(text) => Some(Self(text)),
            None => None,
        }
    }

    /// Reads the canonical identifier stored in private metadata.
    pub fn parse(value: &str) -> (id: Result<Self, PromptCacheResourceWordError>)
        ensures
            id is Ok <==> canonical_v7(value@),
            id matches Ok(i) ==> i@ == value@,
            id is Err ==> id == Err::<Self, _>(PromptCacheResourceWordError::InvalidId),
    {
        match read_uuid(value) {
            Some((version, canonical)) => {
                if version != 7 || !same_text(canonical.as_str(), value) {
                    return Err(PromptCacheResourceWordError::InvalidId);
                }
                Ok(Self(value.to_owned()))
            },
            None => Err(PromptCacheResourceWordError::InvalidId),
        }
    }

    /// The local opaque identifier. Ordinary diagnostics must keep this redacted.
    pub fn as_str(&self) -> (text: &str)
        ensures
            text@ == self@,
    {
        self.0.as_str()
    }

    fn copy(&self) -> (copied: Self)
        ensures
            copied@ == self@,
    {
        Self(self.0.as_str().to_owned())
    }
}


/// Provider authorization-bearing handle for one remote cached-content resource.
#[derive(Clone, PartialEq, Eq)]
pub struct PromptCacheResourceHandle(String);

impl View for PromptCacheResourceHandle {
    type V = Seq<char>;

    closed spec fn view(&self) -> Seq<char> {
        self.0@
    }
}

impl PromptCacheResourceHandle {
    /// Validates one bounded opaque provider handle.
    pub fn new(value: &str) -> (handle: Result<Self, PromptCacheResourceWordError>)
        ensures
            match handle {
                Ok(h) => word_refusal(value@, MAX_PROMPT_CACHE_HANDLE_BYTES) is None && h@
                    == value@,
                Err(e) => word_refusal(value@, MAX_PROMPT_CACHE_HANDLE_BYTES) == Some(e),
            },
    {
        match bounded_word(value, MAX_PROMPT_CACHE_HANDLE_BYTES) {
            Ok(word) => Ok(Self(word)),
            Err(e) => Err(e),
        }
    }

    /// The provider spelling, available only to the lifecycle adapter and private store.
    pub fn expose(&self) -> (text: &str)
        ensures
            text@ == self@,
    {
        self.0.as_str()
    }

    fn copy(&self) -> (copied: Self)
        ensures
            copied@ == self@,
    {
        Self(self.0.as_str().to_owned())
    }
}

/// Borrowed validated reference an adapter may lower into its wire request.
#[derive(Clone, Copy)]
pub struct PromptCacheResourceReference<'a> {
    id: &'a PromptCacheResourceId,
    handle: &'a PromptCacheResourceHandle,
}

impl<'a> PromptCacheResourceReference<'a> {
    /// The referenced identity.
    pub closed spec fn spec_id(self) -> &'a PromptCacheResourceId {
        self.id
    }

    /// The referenced handle.
    pub closed spec fn spec_handle(self) -> &'a PromptCacheResourceHandle {
        self.handle
    }

    /// Joins the local identity with the provider handle resolved for it.
    pub fn new(id: &'a PromptCacheResourceId, handle: &'a PromptCacheResourceHandle) -> (reference:
        Self)
        ensures
            reference.spec_id() == id,
            reference.spec_handle() == handle,
    {
        Self { id, handle }
    }

    /// Local identity for attribution and store updates.
    pub fn id(self) -> (id: &'a PromptCacheResourceId)
        ensures
            id == self.spec_id(),
    {
        self.id
    }

    /// Provider handle for adapter wire lowering only.
    pub fn handle(self) -> (handle: &'a PromptCacheResourceHandle)
        ensures
            handle == self.spec_handle(),
    {
        self.handle
    }
}

/// Digest of the effective policy that authorized a persistent resource.
#[derive(Clone, Copy, PartialEq, Eq, Hash)]
pub struct PromptCachePolicyDigest([u8; 32]);

impl PromptCachePolicyDigest {
    /// The digest bytes.
    pub closed spec fn digest(self) -> Seq<u8> {
        self.0@
    }

    /// Takes a domain-separated digest derived by the runner.
    pub fn new(bytes: [u8; 32]) -> (digest: Self)
        ensures
            digest.digest() == bytes@,
    {
        Self(bytes)
    }

    /// Bytes for durable private metadata, never ordinary diagnostics.
    pub fn bytes(self) -> (bytes: [u8; 32])
        ensures
            bytes@ == self.digest(),
    {
        self.0
    }
}

/// Ownership semantics for one persistent resource.
#[derive(Debug, Clone, Copy, PartialEq, Eq, Structural)]
pub struct PromptCacheResourceOwner {
    isolation: PromptCacheIsolation,
    exclusive: bool,
}

impl PromptCacheResourceOwner {
    /// The sharing scope.
    pub closed spec fn spec_isolation(self) -> PromptCacheIsolation {
        self.isolation
    }

    /// Whether the owner may delete.
    pub closed spec fn spec_exclusive(self) -> bool {
        self.exclusive
    }

    /// Records the already-resolved sharing scope and deletion ownership.
    pub fn new(isolation: PromptCacheIsolation, exclusive: bool) -> (owner: Self)
        ensures
            owner.spec_isolation() == isolation,
            owner.spec_exclusive() == exclusive,
    {
        Self { isolation, exclusive }
    }

    /// Broadest scope across which this resource was authorized.
    pub fn isolation(self) -> (isolation: PromptCacheIsolation)
        ensures
            isolation == self.spec_isolation(),
    {
        self.isolation
    }

    /// Whether removing its owner authorizes remote deletion.
    pub fn exclusive(self) -> (exclusive: bool)
        ensures
            exclusive == self.spec_exclusive(),
    {
        self.exclusive
    }
}

fn same_bytes(a: [u8; 32], b: [u8; 32]) -> (same: bool)
    ensures
        same == (a@ == b@),
{
    let mut i: usize = 0;
    while i < 32
        invariant
            0 <= i <= 32,
            a@.len() == 32,
            b@.len() == 32,
            forall|j: int| 0 <= j < i ==> a@[j] == b@[j],
        decreases 32 - i,
    {
        if a[i] != b[i] {
            return false;
        }
        i = i + 1;
    }
    assert(a@ =~= b@);
    true
}

/// The content of one binding.
pub struct BindingView {
    pub scope: Seq<u8>,
    pub provider_scope: Seq<u8>,
    pub owner_scope: Seq<u8>,
    pub prefix: Seq<u8>,
    pub policy: Seq<u8>,
    pub owner: PromptCacheResourceOwner,
    pub protocol: Seq<char>,
    pub model: Seq<char>,
    pub revision: Option<Seq<char>>,
}

/// Why binding words are refused, if they are: the protocol, then the
/// model, then any revision.
pub open spec fn binding_refusal(protocol: Seq<char>, model: Seq<char>, revision: Option<&str>) -> Option<
    PromptCacheResourceWordError,
> {
    if word_refusal(protocol, MAX_PROMPT_CACHE_RESOURCE_WORD_BYTES) is Some {
        word_refusal(protocol, MAX_PROMPT_CACHE_RESOURCE_WORD_BYTES)
    } else if word_refusal(model, MAX_PROMPT_CACHE_RESOURCE_WORD_BYTES) is Some {
        word_refusal(model, MAX_PROMPT_CACHE_RESOURCE_WORD_BYTES)
    } else {
        match revision {
            Some(r) => word_refusal(r@, MAX_PROMPT_CACHE_RESOURCE_WORD_BYTES),
            None => None,
        }
    }
}

/// Exact non-plaintext binding that must match before a resource can be reused.
#[derive(Clone, PartialEq, Eq)]
pub struct PromptCacheResourceBinding {
    scope: PromptCacheScopeDigest,
    provider_scope: PromptCacheScopeDigest,
    owner_scope: PromptCacheScopeDigest,
    prefix: PromptCacheFingerprint,
    policy: PromptCachePolicyDigest,
    owner: PromptCacheResourceOwner,
    protocol: String,
    model: String,
    revision: Option<String>,
}

impl View for PromptCacheResourceBinding {
    type V = BindingView;

    closed spec fn view(&self) -> BindingView {
        BindingView {
            scope: self.scope.digest(),
            provider_scope: self.provider_scope.digest(),
            owner_scope: self.owner_scope.digest(),
            prefix: self.prefix.digest(),
            policy: self.policy.digest(),
            owner: self.owner,
            protocol: self.protocol@,
            model: self.model@,
            revision: match self.revision {
                Some(r) => Some(r@),
                None => None,
            },
        }
    }
}

impl PromptCacheResourceBinding {
    /// Builds one exact resource binding from already-derived redacted identities.
    pub fn new(
        scope: PromptCacheScopeDigest,
        provider_scope: PromptCacheScopeDigest,
        owner_scope: PromptCacheScopeDigest,
        prefix: PromptCacheFingerprint,
        policy: PromptCachePolicyDigest,
        owner: PromptCacheResourceOwner,
        protocol: &str,
        model: &str,
        revision: Option<&str>,
    ) -> (binding: Result<Self, PromptCacheResourceWordError>)
        ensures
            binding is Err <==> binding_refusal(protocol@, model@, revision) is Some,
            binding matches Err(e) ==> binding_refusal(protocol@, model@, revision) == Some(e),
            binding matches Ok(b) ==> b@ == (BindingView {
                scope: scope.digest(),
                provider_scope: provider_scope.digest(),
                owner_scope: owner_scope.digest(),
                prefix: prefix.digest(),
                policy: policy.digest(),
                owner,
                protocol: protocol@,
                model: model@,
                revision: match revision {
                    Some(r) => Some(r@),
                    None => None,
                },
            }),
    {
        let protocol = match bounded_word(protocol, MAX_PROMPT_CACHE_RESOURCE_WORD_BYTES) {
            Ok(word) => word,
            Err(e) => {
                return Err(e);
            },
        };
        let model = match bounded_word(model, MAX_PROMPT_CACHE_RESOURCE_WORD_BYTES) {
            Ok(word) => word,
            Err(e) => {
                return Err(e);
            },
        };
        let revision = match revision {
            Some(value) => match bounded_word(value, MAX_PROMPT_CACHE_RESOURCE_WORD_BYTES) {
                Ok(word) => Some(word),
                Err(e) => {
                    return Err(e);
                },
            },
            None => None,
        };
        Ok(
            Self {
                scope,
                provider_scope,
                owner_scope,
                prefix,
                policy,
                owner,
                protocol,
                model,
                revision,
            },
        )
    }

    /// Authority/endpoint/credential/sharing-scope digest.
    pub fn scope(&self) -> (scope: PromptCacheScopeDigest)
        ensures
            scope.digest() == self@.scope,
    {
        self.scope
    }

    /// Provider route and credential identity used to constrain lifecycle calls.
    pub fn provider_scope(&self) -> (scope: PromptCacheScopeDigest)
        ensures
            scope.digest() == self@.provider_scope,
    {
        self.provider_scope
    }

    /// Exact run/session/workspace/user owner permitted to retire this resource.
    pub fn owner_scope(&self) -> (scope: PromptCacheScopeDigest)
        ensures
            scope.digest() == self@.owner_scope,
    {
        self.owner_scope
    }

    /// Exact provider-visible stable-prefix fingerprint.
    pub fn prefix(&self) -> (prefix: PromptCacheFingerprint)
        ensures
            prefix.digest() == self@.prefix,
    {
        self.prefix
    }

    /// Policy digest that authorized creation or reuse.
    pub fn policy(&self) -> (policy: PromptCachePolicyDigest)
        ensures
            policy.digest() == self@.policy,
    {
        self.policy
    }

    /// Ownership and sharing scope.
    pub fn owner(&self) -> (owner: PromptCacheResourceOwner)
        ensures
            owner == self@.owner,
    {
        self.owner
    }

    /// Exact provider protocol whose lifecycle owns the remote handle.
    pub fn protocol(&self) -> (protocol: &str)
        ensures
            protocol@ == self@.protocol,
    {
        self.protocol.as_str()
    }

    /// Exact resolved model.
    pub fn model(&self) -> (model: &str)
        ensures
            model@ == self@.model,
    {
        self.model.as_str()
    }

    /// Exact published model revision, where one exists.
    pub fn revision(&self) -> (revision: Option<&str>)
        ensures
            match revision {
                Some(r) => self@.revision == Some(r@),
                None => self@.revision is None,
            },
    {
        match &self.revision {
            Some(r) => Some(r.as_str()),
            None => None,
        }
    }

    fn same_as(&self, other: &Self) -> (same: bool)
        ensures
            same == (self@ == other@),
    {
        let revisions = match (&self.revision, &other.revision) {
            (Some(a), Some(b)) => same_text(a.as_str(), b.as_str()),
            (None, None) => true,
            _ => false,
        };
        same_bytes(self.scope.bytes(), other.scope.bytes()) && same_bytes(
            self.provider_scope.bytes(),
            other.provider_scope.bytes(),
        ) && same_bytes(self.owner_scope.bytes(), other.owner_scope.bytes()) && same_bytes(
            self.prefix.bytes(),
            other.prefix.bytes(),
        ) && same_bytes(self.policy.bytes(), other.policy.bytes()) && self.owner == other.owner
            && same_text(self.protocol.as_str(), other.protocol.as_str()) && same_text(
            self.model.as_str(),
            other.model.as_str(),
        ) && revisions
    }

    fn copy(&self) -> (copied: Self)
        ensures
            copied@ == self@,
    {
        Self {
            scope: self.scope,
            provider_scope: self.provider_scope,
            owner_scope: self.owner_scope,
            prefix: self.prefix,
            policy: self.policy,
            owner: self.owner,
            protocol: self.protocol.as_str().to_owned(),
            model: self.model.as_str().to_owned(),
            revision: match &self.revision {
                Some(r) => Some(r.as_str().to_owned()),
                None => None,
            },
        }
    }
}

/// Durable lifecycle state of one remote resource.
#[derive(Debug, Clone, Copy, PartialEq, Eq, Structural)]
pub enum PromptCacheResourceState {
    /// Creation began but no conclusive provider result is stored yet.
    Creating,
    /// Provider resolution confirmed the resource is eligible for use.
    Ready,
    /// A renewal should be attempted before another use.
    Expiring,
    /// Deletion began but has not been confirmed.
    Deleting,
    /// Remote deletion was confirmed.
    Deleted,
    /// The recorded expiry has passed.
    Expired,
    /// A create, renew, or delete may have reached the provider.
    Ambiguous,
    /// Remote cleanup could not be confirmed within the bounded retry policy.
    Orphaned,
}

/// Canonical private-metadata spelling of a state.
pub open spec fn state_word(state: PromptCacheResourceState) -> Seq<char> {
    match state {
        PromptCacheResourceState::Creating => "creating"@,
        PromptCacheResourceState::Ready => "ready"@,
        PromptCacheResourceState::Expiring => "expiring"@,
        PromptCacheResourceState::Deleting => "deleting"@,
        PromptCacheResourceState::Deleted => "deleted"@,
        PromptCacheResourceState::Expired => "expired"@,
        PromptCacheResourceState::Ambiguous => "ambiguous"@,
        PromptCacheResourceState::Orphaned => "orphaned"@,
    }
}

impl PromptCacheResourceState {
    /// Canonical private-metadata spelling.
    pub fn as_str(self) -> (word: &'static str)
        ensures
            word@ == state_word(self),
    {
        match self {
            Self::Creating => "creating",
            Self::Ready => "ready",
            Self::Expiring => "expiring",
            Self::Deleting => "deleting",
            Self::Deleted => "deleted",
            Self::Expired => "expired",
            Self::Ambiguous => "ambiguous",
            Self::Orphaned => "orphaned",
        }
    }

    /// Reads a canonical private-metadata spelling.
    pub fn parse(value: &str) -> (state: Option<Self>)
        ensures
            state matches Some(s) ==> state_word(s) == value@,
            state is None ==> forall|s: PromptCacheResourceState| state_word(s) != value@,
    {
        if same_text(value, "creating") {
            Some(Self::Creating)
        } else if same_text(value, "ready") {
            Some(Self::Ready)
        } else if same_text(value, "expiring") {
            Some(Self::Expiring)
        } else if same_text(value, "deleting") {
            Some(Self::Deleting)
        } else if same_text(value, "deleted") {
            Some(Self::Deleted)
        } else if same_text(value, "expired") {
            Some(Self::Expired)
        } else if same_text(value, "ambiguous") {
            Some(Self::Ambiguous)
        } else if same_text(value, "orphaned") {
            Some(Self::Orphaned)
        } else {
            proof {
                assert forall|s: PromptCacheResourceState| state_word(s) != value@ by {
                    match s {
                        PromptCacheResourceState::Creating => {},
                        PromptCacheResourceState::Ready => {},
                        PromptCacheResourceState::Expiring => {},
                        PromptCacheResourceState::Deleting => {},
                        PromptCacheResourceState::Deleted => {},
                        PromptCacheResourceState::Expired => {},
                        PromptCacheResourceState::Ambiguous => {},
                        PromptCacheResourceState::Orphaned => {},
                    }
                }
            }
            None
        }
    }
}

/// Lifecycle operation whose outcome may need reconciliation.
#[derive(Debug, Clone, Copy, PartialEq, Eq, Structural)]
pub enum PromptCacheResourceOperation {
    /// Create a new provider resource.
    Create,
    /// Extend a provider resource without exceeding current policy.
    Renew,
    /// Delete a provider resource.
    Delete,
}

/// Canonical private-metadata spelling of an operation.
pub open spec fn operation_word(operation: PromptCacheResourceOperation) -> Seq<char> {
    match operation {
        PromptCacheResourceOperation::Create => "create"@,
        PromptCacheResourceOperation::Renew => "renew"@,
        PromptCacheResourceOperation::Delete => "delete"@,
    }
}

impl PromptCacheResourceOperation {
    /// Canonical private-metadata spelling.
    pub fn as_str(self) -> (word: &'static str)
        ensures
            word@ == operation_word(self),
    {
        match self {
            Self::Create => "create",
            Self::Renew => "renew",
            Self::Delete => "delete",
        }
    }

    /// Reads a canonical private-metadata spelling.
    pub fn parse(value: &str) -> (operation: Option<Self>)
        ensures
            operation matches Some(o) ==> operation_word(o) == value@,
            operation is None ==> forall|o: PromptCacheResourceOperation|
                operation_word(o) != value@,
    {
        if same_text(value, "create") {
            Some(Self::Create)
        } else if same_text(value, "renew") {
            Some(Self::Renew)
        } else if same_text(value, "delete") {
            Some(Self::Delete)
        } else {
            proof {
                assert forall|o: PromptCacheResourceOperation| operation_word(o) != value@ by {
                    match o {
                        PromptCacheResourceOperation::Create => {},
                        PromptCacheResourceOperation::Renew => {},
                        PromptCacheResourceOperation::Delete => {},
                    }
                }
            }
            None
        }
    }
}

/// Whether the persisted fields of a record form a valid lifecycle state: a
/// creating record carries the create operation and neither handle nor
/// expiry; a ready record carries a handle and an expiry and nothing pending;
/// an expiring one also carries the renewal; a deleting one carries the
/// deletion; an ambiguous one carries some operation; the final states carry
/// none.
pub open spec fn lifecycle_valid(
    state: PromptCacheResourceState,
    pending: Option<PromptCacheResourceOperation>,
    has_handle: bool,
    has_expiry: bool,
) -> bool {
    match state {
        PromptCacheResourceState::Creating => pending == Some(PromptCacheResourceOperation::Create)
            && !has_handle && !has_expiry,
        PromptCacheResourceState::Ready => pending is None && has_handle && has_expiry,
        PromptCacheResourceState::Expiring => pending == Some(PromptCacheResourceOperation::Renew)
            && has_handle && has_expiry,
        PromptCacheResourceState::Deleting => pending == Some(PromptCacheResourceOperation::Delete),
        PromptCacheResourceState::Ambiguous => pending is Some,
        PromptCacheResourceState::Deleted
        | PromptCacheResourceState::Expired
        | PromptCacheResourceState::Orphaned => pending is None,
    }
}

/// The operation a recorded state transition leaves pending.
pub open spec fn pending_after(
    state: PromptCacheResourceState,
    before: Option<PromptCacheResourceOperation>,
) -> Option<PromptCacheResourceOperation> {
    match state {
        PromptCacheResourceState::Creating => Some(PromptCacheResourceOperation::Create),
        PromptCacheResourceState::Expiring => Some(PromptCacheResourceOperation::Renew),
        PromptCacheResourceState::Deleting => Some(PromptCacheResourceOperation::Delete),
        PromptCacheResourceState::Ambiguous => before,
        _ => None,
    }
}

/// The content of one resource record.
pub struct RecordView {
    pub id: Seq<char>,
    pub binding: BindingView,
    pub handle: Option<Seq<char>>,
    pub state: PromptCacheResourceState,
    pub pending: Option<PromptCacheResourceOperation>,
    pub created_at: u64,
    pub expires_at: Option<u64>,
    pub last_reconciled_at: Option<u64>,
}

impl RecordView {
    /// Whether this record's fields form a valid lifecycle state.
    pub open spec fn valid(self) -> bool {
        lifecycle_valid(self.state, self.pending, self.handle is Some, self.expires_at is Some)
    }

    /// Whether this record may serve a request for `binding` at `now`.
    pub open spec fn reusable(self, binding: BindingView, now: u64) -> bool {
        &&& self.binding == binding
        &&& self.state == PromptCacheResourceState::Ready
        &&& self.handle is Some
        &&& self.expires_at is Some
        &&& now < self.expires_at->0
    }
}

/// Bounded private metadata for one persistent remote resource.
#[derive(Clone)]
pub struct PromptCacheResourceRecord {
    id: PromptCacheResourceId,
    binding: PromptCacheResourceBinding,
    handle: Option<PromptCacheResourceHandle>,
    state: PromptCacheResourceState,
    pending: Option<PromptCacheResourceOperation>,
    created_at: u64,
    expires_at: Option<u64>,
    last_reconciled_at: Option<u64>,
}

impl View for PromptCacheResourceRecord {
    type V = RecordView;

    closed spec fn view(&self) -> RecordView {
        RecordView {
            id: self.id@,
            binding: self.binding@,
            handle: match self.handle {
                Some(h) => Some(h@),
                None => None,
            },
            state: self.state,
            pending: self.pending,
            created_at: self.created_at,
            expires_at: self.expires_at,
            last_reconciled_at: self.last_reconciled_at,
        }
    }
}

/// The view of an optional handle.
pub open spec fn handle_view(handle: Option<PromptCacheResourceHandle>) -> Option<Seq<char>> {
    match handle {
        Some(h) => Some(h@),
        None => None,
    }
}

impl PromptCacheResourceRecord {
    /// Starts a local idempotency record before remote creation is attempted.
    pub fn creating(id: PromptCacheResourceId, binding: PromptCacheResourceBinding, created_at: u64) -> (record:
        Self)
        ensures
            record@ == (RecordView {
                id: id@,
                binding: binding@,
                handle: None,
                state: PromptCacheResourceState::Creating,
                pending: Some(PromptCacheResourceOperation::Create),
                created_at,
                expires_at: None,
                last_reconciled_at: None,
            }),
    {
        Self {
            id,
            binding,
            handle: None,
            state: PromptCacheResourceState::Creating,
            pending: Some(PromptCacheResourceOperation::Create),
            created_at,
            expires_at: None,
            last_reconciled_at: None,
        }
    }

    /// Restores a fully validated record from private local metadata.
    pub fn restored(
        id: PromptCacheResourceId,
        binding: PromptCacheResourceBinding,
        handle: Option<PromptCacheResourceHandle>,
        state: PromptCacheResourceState,
        pending: Option<PromptCacheResourceOperation>,
        created_at: u64,
        expires_at: Option<u64>,
        last_reconciled_at: Option<u64>,
    ) -> (record: Result<Self, PromptCacheResourceError>)
        ensures
            record is Ok <==> lifecycle_valid(state, pending, handle is Some, expires_at is Some),
            record matches Ok(r) ==> r@ == (RecordView {
                id: id@,
                binding: binding@,
                handle: handle_view(handle),
                state,
                pending,
                created_at,
                expires_at,
                last_reconciled_at,
            }),
            record matches Err(e) ==> e is InvalidMetadata,
    {
        let valid = match state {
            PromptCacheResourceState::Creating => pending == Some(
                PromptCacheResourceOperation::Create,
            ) && handle.is_none() && expires_at.is_none(),
            PromptCacheResourceState::Ready => pending.is_none() && handle.is_some()
                && expires_at.is_some(),
            PromptCacheResourceState::Expiring => pending == Some(
                PromptCacheResourceOperation::Renew,
            ) && handle.is_some() && expires_at.is_some(),
            PromptCacheResourceState::Deleting => pending == Some(
                PromptCacheResourceOperation::Delete,
            ),
            PromptCacheResourceState::Ambiguous => pending.is_some(),
            PromptCacheResourceState::Deleted
            | PromptCacheResourceState::Expired
            | PromptCacheResourceState::Orphaned => pending.is_none(),
        };
        if !valid {
            return Err(PromptCacheResourceError::InvalidMetadata);
        }
        Ok(
            Self {
                id,
                binding,
                handle,
                state,
                pending,
                created_at,
                expires_at,
                last_reconciled_at,
            },
        )
    }

    /// Marks successful creation or reconciliation.
    pub fn ready(&mut self, handle: PromptCacheResourceHandle, expires_at: u64, reconciled_at: u64)
        ensures
            final(self)@ == (RecordView {
                handle: Some(handle@),
                state: PromptCacheResourceState::Ready,
                pending: None,
                expires_at: Some(expires_at),
                last_reconciled_at: Some(reconciled_at),
                ..old(self)@
            }),
    {
        self.handle = Some(handle);
        self.state = PromptCacheResourceState::Ready;
        self.pending = None;
        self.expires_at = Some(expires_at);
        self.last_reconciled_at = Some(reconciled_at);
    }

    /// Records a lifecycle state transition without changing sensitive fields.
    pub fn set_state(&mut self, state: PromptCacheResourceState, at: u64)
        ensures
            final(self)@ == (RecordView {
                state,
                pending: pending_after(state, old(self)@.pending),
                last_reconciled_at: Some(at),
                ..old(self)@
            }),
    {
        let pending = match state {
            PromptCacheResourceState::Creating => Some(PromptCacheResourceOperation::Create),
            PromptCacheResourceState::Expiring => Some(PromptCacheResourceOperation::Renew),
            PromptCacheResourceState::Deleting => Some(PromptCacheResourceOperation::Delete),
            PromptCacheResourceState::Ready
            | PromptCacheResourceState::Deleted
            | PromptCacheResourceState::Expired
            | PromptCacheResourceState::Orphaned => None,
            PromptCacheResourceState::Ambiguous => self.pending,
        };
        self.state = state;
        self.pending = pending;
        self.last_reconciled_at = Some(at);
    }

    /// Records an operation whose provider outcome is unknown.
    pub fn ambiguous(&mut self, operation: PromptCacheResourceOperation, at: u64)
        ensures
            final(self)@ == (RecordView {
                state: PromptCacheResourceState::Ambiguous,
                pending: Some(operation),
                last_reconciled_at: Some(at),
                ..old(self)@
            }),
    {
        self.state = PromptCacheResourceState::Ambiguous;
        self.pending = Some(operation);
        self.last_reconciled_at = Some(at);
    }

    /// Whether this exact binding is confirmed ready before its expiry.
    pub fn can_reuse(&self, binding: &PromptCacheResourceBinding, now: u64) -> (reusable: bool)
        ensures
            reusable == self@.reusable(binding@, now),
    {
        let live = match self.expires_at {
            Some(expiry) => now < expiry,
            None => false,
        };
        self.binding.same_as(binding) && self.state == PromptCacheResourceState::Ready
            && self.handle.is_some() && live
    }

    /// Local opaque record identity.
    pub fn id(&self) -> (id: &PromptCacheResourceId)
        ensures
            id@ == self@.id,
    {
        &self.id
    }

    /// Exact redacted binding.
    pub fn binding(&self) -> (binding: &PromptCacheResourceBinding)
        ensures
            binding@ == self@.binding,
    {
        &self.binding
    }

    /// Provider handle, for private storage and lifecycle calls only.
    pub fn handle(&self) -> (handle: Option<&PromptCacheResourceHandle>)
        ensures
            match handle {
                Some(h) => self@.handle == Some(h@),
                None => self@.handle is None,
            },
    {
        match &self.handle {
            Some(h) => Some(h),
            None => None,
        }
    }

    /// Current durable state.
    pub fn state(&self) -> (state: PromptCacheResourceState)
        ensures
            state == self@.state,
    {
        self.state
    }

    /// Operation requiring reconciliation, where one exists.
    pub fn pending(&self) -> (pending: Option<PromptCacheResourceOperation>)
        ensures
            pending == self@.pending,
    {
        self.pending
    }

    /// Creation time as Unix seconds.
    pub fn created_at(&self) -> (at: u64)
        ensures
            at == self@.created_at,
    {
        self.created_at
    }

    /// Provider expiry as Unix seconds.
    pub fn expires_at(&self) -> (at: Option<u64>)
        ensures
            at == self@.expires_at,
    {
        self.expires_at
    }

    /// Last bounded reconciliation attempt as Unix seconds.
    pub fn last_reconciled_at(&self) -> (at: Option<u64>)
        ensures
            at == self@.last_reconciled_at,
    {
        self.last_reconciled_at
    }
}

/// Only a ready record with a handle, for the exact binding and before its
/// expiry, is ever reused: a creating, expiring, deleting, deleted, expired,
/// ambiguous or orphaned record never is.
pub proof fn lemma_only_ready_records_are_reused(record: RecordView, binding: BindingView, now: u64)
    ensures
        record.reusable(binding, now) ==> record.state == PromptCacheResourceState::Ready
            && record.binding == binding && record.handle is Some && now < record.expires_at->0,
        record.state != PromptCacheResourceState::Ready ==> !record.reusable(binding, now),
{
}

/// Whether recording `state` on `record` keeps it valid: ready and expiring
/// need a handle and an expiry already held, creating needs neither, and
/// ambiguous needs an operation already pending.
pub open spec fn recordable(record: RecordView, state: PromptCacheResourceState) -> bool {
    match state {
        PromptCacheResourceState::Ready | PromptCacheResourceState::Expiring => record.handle is Some
            && record.expires_at is Some,
        PromptCacheResourceState::Creating => record.handle is None && record.expires_at is None,
        PromptCacheResourceState::Ambiguous => record.pending is Some,
        _ => true,
    }
}

/// Every lifecycle step keeps a valid record valid: confirming readiness,
/// recording an ambiguous operation, and recording a state the record can
/// hold.
pub proof fn lemma_lifecycle_steps_keep_records_valid(
    record: RecordView,
    state: PromptCacheResourceState,
    operation: PromptCacheResourceOperation,
    handle: Seq<char>,
    expires_at: u64,
    at: u64,
)
    requires
        record.valid(),
    ensures
        (RecordView {
            handle: Some(handle),
            state: PromptCacheResourceState::Ready,
            pending: None,
            expires_at: Some(expires_at),
            last_reconciled_at: Some(at),
            ..record
        }).valid(),
        (RecordView {
            state: PromptCacheResourceState::Ambiguous,
            pending: Some(operation),
            last_reconciled_at: Some(at),
            ..record
        }).valid(),
        recordable(record, state) ==> (RecordView {
            state,
            pending: pending_after(state, record.pending),
            last_reconciled_at: Some(at),
            ..record
        }).valid(),
{
}

/// A successful remote creation.
#[derive(Clone)]
pub struct PromptCacheResourceCreated {
    /// Opaque provider handle.
    pub handle: PromptCacheResourceHandle,
    /// Exact provider expiry as Unix seconds.
    pub expires_at: u64,
}

/// Provider-side status returned by resolve, renew, reconcile, or inspect.
#[derive(Clone)]
pub struct PromptCacheResourceRemote {
    /// Provider handle where reconciliation recovered or retained one.
    pub handle: Option<PromptCacheResourceHandle>,
    /// Provider-observed lifecycle state.
    pub state: PromptCacheResourceState,
    /// Provider-observed expiry where the resource still exists.
    pub expires_at: Option<u64>,
}

/// An operating-system failure, carried through a resource error.
#[verifier::external_type_specification]
#[verifier::external_body]
pub struct ExIoError(std::io::Error);

/// Bounded reason a persistent-resource operation failed.
#[derive(Debug)]
pub enum PromptCacheResourceError {
    /// Cancellation was observed before a conclusive result.
    Cancelled,
    /// The operation's explicit deadline elapsed.
    Deadline,
    /// This provider/model exposes no matching lifecycle.
    Unsupported,
    /// Provider rejected the bounded lifecycle operation.
    Rejected,
    /// The provider may have applied this operation and must be reconciled.
    Ambiguous(PromptCacheResourceOperation),
    /// Private metadata was invalid or from another format.
    InvalidMetadata,
    /// The bounded store has reached its record ceiling.
    StoreFull,
    /// A private filesystem operation failed.
    Local {
        /// Stable operation name, without a path or resource handle.
        operation: &'static str,
        /// Operating-system failure.
        source: std::io::Error,
    },
}

/// The diagnostic sentence for a failed private filesystem operation, with the
/// operating system's own description of `source` (its `Display` text).
/// What follows the prefix is the operating system's own description, which
/// is not stated.
#[verifier::external_body]
fn local_failure_text(operation: &'static str, source: &std::io::Error) -> (text: String)
    ensures
        exists|described: Seq<char>|
            text@ == "could not "@ + operation@ + " prompt-cache resource metadata: "@ + described,
{
    format!("could not {operation} prompt-cache resource metadata: {source}")
}

/// The sentence a resource failure reads as, for every failure but a local
/// one, whose sentence ends in the operating system's words.
pub open spec fn resource_error_text(error: PromptCacheResourceError) -> Seq<char> {
    match error {
        PromptCacheResourceError::Cancelled => "prompt-cache resource operation was cancelled"@,
        PromptCacheResourceError::Deadline => "prompt-cache resource operation reached its deadline"@,
        PromptCacheResourceError::Unsupported => "prompt-cache persistent resources are unsupported"@,
        PromptCacheResourceError::Rejected => "provider rejected the prompt-cache resource operation"@,
        PromptCacheResourceError::Ambiguous(operation) => match operation {
            PromptCacheResourceOperation::Create => "prompt-cache resource Create outcome is ambiguous"@,
            PromptCacheResourceOperation::Renew => "prompt-cache resource Renew outcome is ambiguous"@,
            PromptCacheResourceOperation::Delete => "prompt-cache resource Delete outcome is ambiguous"@,
        },
        PromptCacheResourceError::InvalidMetadata => "prompt-cache resource metadata is invalid"@,
        PromptCacheResourceError::StoreFull => "prompt-cache resource metadata store is full"@,
        PromptCacheResourceError::Local { operation, .. } => "could not "@ + operation@
            + " prompt-cache resource metadata: "@,
    }
}

impl PromptCacheResourceError {
    /// The diagnostic sentence.
    pub fn message(&self) -> (text: String)
        ensures
            !(*self is Local) ==> text@ == resource_error_text(*self),
            *self is Local ==> exists|described: Seq<char>|
                text@ == resource_error_text(*self) + described,
    {
        match self {
            Self::Cancelled => "prompt-cache resource operation was cancelled".to_owned(),
            Self::Deadline => "prompt-cache resource operation reached its deadline".to_owned(),
            Self::Unsupported => "prompt-cache persistent resources are unsupported".to_owned(),
            Self::Rejected => "provider rejected the prompt-cache resource operation".to_owned(),
            Self::Ambiguous(operation) => match operation {
                PromptCacheResourceOperation::Create =>
                    "prompt-cache resource Create outcome is ambiguous".to_owned(),
                PromptCacheResourceOperation::Renew =>
                    "prompt-cache resource Renew outcome is ambiguous".to_owned(),
                PromptCacheResourceOperation::Delete =>
                    "prompt-cache resource Delete outcome is ambiguous".to_owned(),
            },
            Self::InvalidMetadata => "prompt-cache resource metadata is invalid".to_owned(),
            Self::StoreFull => "prompt-cache resource metadata store is full".to_owned(),
            Self::Local { operation, source } => {
                let text = local_failure_text(operation, source);
                proof {
                    let described = choose|described: Seq<char>|
                        text@ == "could not "@ + operation@ + " prompt-cache resource metadata: "@
                            + described;
                    assert(text@ == resource_error_text(*self) + described);
                }
                text
            },
        }
    }
}

/// Private bounded metadata store, implemented above core using a resolved user-home path.
pub trait PromptCacheResourceStore: Send {
    /// Finds the newest exact binding, including non-ready records for reconciliation.
    fn matching(&mut self, binding: &PromptCacheResourceBinding) -> Result<
        Option<PromptCacheResourceRecord>,
        PromptCacheResourceError,
    >;

    /// Inserts or replaces one record by local id.
    fn put(&mut self, record: &PromptCacheResourceRecord) -> Result<(), PromptCacheResourceError>;

    /// Removes one confirmed-deleted local record.
    fn remove(&mut self, id: &PromptCacheResourceId) -> Result<(), PromptCacheResourceError>;

    /// Returns at most `maximum` records for bounded inspection or cleanup.
    fn inspect(&mut self, maximum: usize) -> Result<
        Vec<PromptCacheResourceRecord>,
        PromptCacheResourceError,
    >;
}

/// A point on the monotonic clock.
#[verifier::external_type_specification]
#[verifier::external_body]
pub struct ExInstant(std::time::Instant);

/// The monotonic clock's current reading, `std::time::Instant::now`; which
/// instant comes back depends on the time, so nothing is promised of it.
#[verifier::external_body]
fn clock_now() -> (now: std::time::Instant) {
    std::time::Instant::now()
}

/// Whether `later` is at or after `earlier` (`Instant`'s `>=`). Instants are
/// opaque here, so the comparison is left unstated.
#[verifier::external_body]
fn at_or_after(later: std::time::Instant, earlier: std::time::Instant) -> (reached: bool) {
    later >= earlier
}

/// One absolute deadline for a blocking lifecycle operation.
#[derive(Debug, Clone, Copy)]
pub struct PromptCacheResourceDeadline(std::time::Instant);

impl PromptCacheResourceDeadline {
    /// The deadline instant.
    pub closed spec fn spec_instant(self) -> std::time::Instant {
        self.0
    }

    /// Sets an absolute deadline.
    pub fn new(deadline: std::time::Instant) -> (made: Self)
        ensures
            made.spec_instant() == deadline,
    {
        Self(deadline)
    }

    /// Absolute deadline used to derive a child cancellation token.
    pub fn instant(self) -> (deadline: std::time::Instant)
        ensures
            deadline == self.spec_instant(),
    {
        self.0
    }

    /// Whether the operation has no time remaining: the clock has reached the deadline.
    pub fn expired(self) -> (expired: bool) {
        at_or_after(clock_now(), self.0)
    }
}

} // verus!
