//! Prompt-cache authority, defaults, and narrowing.

use vstd::prelude::*;
use vstd::string::StringSliceAdditionalSpecFns;

use super::capability::{PromptCacheMechanism, PromptCacheRetentionClass};
use crate::text::{all_ascii, lemma_ascii_is_utf8, same_text, utf8_text};

verus! {

/// Largest user-controlled namespace retained in policy or identity metadata.
pub const MAX_PROMPT_CACHE_NAMESPACE_BYTES: usize = 64;

/// Largest explicit cache-retention ceiling Crucible accepts: one year.
pub const MAX_PROMPT_CACHE_RETENTION_SECONDS: u32 = 31_536_000;

/// The label of the policy semantics compiled into this library.
pub open spec fn current_policy_version() -> Seq<char> {
    "prompt-cache-policy-v1"@
}

/// Version of the policy semantics compiled into the process.
#[derive(Debug, Clone, Copy, PartialEq, Eq)]
pub struct PromptCachePolicyVersion(&'static str);

impl PromptCachePolicyVersion {
    /// Current merge, narrowing, and selection contract.
    pub fn current() -> (version: Self)
        ensures
            version.label() == current_policy_version(),
    {
        Self("prompt-cache-policy-v1")
    }

    /// The label's text.
    pub closed spec fn label(self) -> Seq<char> {
        self.0@
    }

    /// Stable version label carried into facts and journals.
    pub fn as_str(self) -> (label: &'static str)
        ensures
            label@ == self.label(),
    {
        self.0
    }
}

/// Where one effective policy ceiling came from.
#[derive(Debug, Clone, Copy, PartialEq, Eq, Structural)]
pub enum PromptCachePolicySource {
    /// No layer stated a value.
    Default,
    /// A file outside the workspace, owned by the user.
    User,
    /// A project or project-local layer, which may only narrow.
    Workspace,
    /// A run/SDK choice, also held under the inherited ceiling.
    Run,
}

/// Whether Crucible adds cache controls to provider requests.
#[derive(Debug, Clone, Copy, PartialEq, Eq, Structural)]
pub enum PromptCacheMode {
    /// Add no Crucible cache control, but retain reported provider usage.
    ObserveOnly,
    /// Select the first eligible reviewed mechanism and otherwise fall back.
    Prefer,
    /// Require an eligible reviewed mechanism before sending.
    Require,
    /// Require a real documented provider opt-out before sending.
    Prohibit,
}

/// Canonical configuration spelling of a mode.
pub open spec fn mode_word(mode: PromptCacheMode) -> Seq<char> {
    match mode {
        PromptCacheMode::ObserveOnly => "observeOnly"@,
        PromptCacheMode::Prefer => "prefer"@,
        PromptCacheMode::Require => "require"@,
        PromptCacheMode::Prohibit => "prohibit"@,
    }
}

impl PromptCacheMode {
    /// Canonical configuration spelling.
    pub fn as_str(self) -> (word: &'static str)
        ensures
            word@ == mode_word(self),
    {
        match self {
            Self::ObserveOnly => "observeOnly",
            Self::Prefer => "prefer",
            Self::Require => "require",
            Self::Prohibit => "prohibit",
        }
    }

    /// Reads a canonical spelling; any other word is refused.
    pub fn from_word(value: &str) -> (parsed: Result<Self, PromptCachePolicyError>)
        ensures
            parsed matches Ok(m) ==> mode_word(m) == value@,
            parsed is Err ==> parsed == Err::<Self, _>(PromptCachePolicyError::UnknownMode)
                && forall|m: PromptCacheMode| mode_word(m) != value@,
    {
        if same_text(value, "observeOnly") {
            Ok(Self::ObserveOnly)
        } else if same_text(value, "prefer") {
            Ok(Self::Prefer)
        } else if same_text(value, "require") {
            Ok(Self::Require)
        } else if same_text(value, "prohibit") {
            Ok(Self::Prohibit)
        } else {
            proof {
                assert forall|m: PromptCacheMode| mode_word(m) != value@ by {
                    match m {
                        PromptCacheMode::ObserveOnly => {},
                        PromptCacheMode::Prefer => {},
                        PromptCacheMode::Require => {},
                        PromptCacheMode::Prohibit => {},
                    }
                }
            }
            Err(PromptCachePolicyError::UnknownMode)
        }
    }
}

impl std::str::FromStr for PromptCacheMode {
    type Err = PromptCachePolicyError;

    fn from_str(value: &str) -> Result<Self, Self::Err> {
        Self::from_word(value)
    }
}

/// The broadest identity scope a selected cache may share across.
#[derive(Debug, Clone, Copy, PartialEq, Eq, PartialOrd, Ord, Structural)]
pub enum PromptCacheIsolation {
    /// One execution only.
    Run,
    /// One conversation session.
    Session,
    /// One trusted workspace.
    Workspace,
    /// One user/tenant identity.
    User,
}

/// How widely an isolation scope shares, narrowest first.
pub open spec fn isolation_rank(isolation: PromptCacheIsolation) -> int {
    match isolation {
        PromptCacheIsolation::Run => 0,
        PromptCacheIsolation::Session => 1,
        PromptCacheIsolation::Workspace => 2,
        PromptCacheIsolation::User => 3,
    }
}

/// Canonical configuration spelling of an isolation scope.
pub open spec fn isolation_word(isolation: PromptCacheIsolation) -> Seq<char> {
    match isolation {
        PromptCacheIsolation::Run => "run"@,
        PromptCacheIsolation::Session => "session"@,
        PromptCacheIsolation::Workspace => "workspace"@,
        PromptCacheIsolation::User => "user"@,
    }
}

impl PromptCacheIsolation {
    /// Canonical configuration spelling.
    pub fn as_str(self) -> (word: &'static str)
        ensures
            word@ == isolation_word(self),
    {
        match self {
            Self::Run => "run",
            Self::Session => "session",
            Self::Workspace => "workspace",
            Self::User => "user",
        }
    }

    /// Reads a canonical spelling; any other word is refused.
    pub fn from_word(value: &str) -> (parsed: Result<Self, PromptCachePolicyError>)
        ensures
            parsed matches Ok(i) ==> isolation_word(i) == value@,
            parsed is Err ==> parsed == Err::<Self, _>(PromptCachePolicyError::UnknownIsolation)
                && forall|i: PromptCacheIsolation| isolation_word(i) != value@,
    {
        if same_text(value, "run") {
            Ok(Self::Run)
        } else if same_text(value, "session") {
            Ok(Self::Session)
        } else if same_text(value, "workspace") {
            Ok(Self::Workspace)
        } else if same_text(value, "user") {
            Ok(Self::User)
        } else {
            proof {
                assert forall|i: PromptCacheIsolation| isolation_word(i) != value@ by {
                    match i {
                        PromptCacheIsolation::Run => {},
                        PromptCacheIsolation::Session => {},
                        PromptCacheIsolation::Workspace => {},
                        PromptCacheIsolation::User => {},
                    }
                }
            }
            Err(PromptCachePolicyError::UnknownIsolation)
        }
    }

    fn rank(self) -> (rank: u8)
        ensures
            rank == isolation_rank(self),
    {
        match self {
            Self::Run => 0,
            Self::Session => 1,
            Self::Workspace => 2,
            Self::User => 3,
        }
    }
}

impl std::str::FromStr for PromptCacheIsolation {
    type Err = PromptCachePolicyError;

    fn from_str(value: &str) -> Result<Self, Self::Err> {
        Self::from_word(value)
    }
}

/// Authority over separately managed remote cached-content resources.
#[derive(Debug, Clone, Copy, PartialEq, Eq, Structural)]
pub enum PromptCachePersistentMode {
    /// Neither resolve nor create a persistent resource.
    Forbid,
    /// Reuse an already authorized matching resource, but never create one.
    Reuse,
    /// Create, reuse, or renew within the other ceilings.
    Create,
    /// Carry creation authority and fail when no resource can be ready.
    Require,
}

/// How much resource authority a mode carries.
pub open spec fn persistent_authority(mode: PromptCachePersistentMode) -> u8 {
    match mode {
        PromptCachePersistentMode::Forbid => 0,
        PromptCachePersistentMode::Reuse => 1,
        PromptCachePersistentMode::Create | PromptCachePersistentMode::Require => 2,
    }
}

/// Canonical configuration spelling of a persistent-resource mode.
pub open spec fn persistent_word(mode: PromptCachePersistentMode) -> Seq<char> {
    match mode {
        PromptCachePersistentMode::Forbid => "forbid"@,
        PromptCachePersistentMode::Reuse => "reuse"@,
        PromptCachePersistentMode::Create => "create"@,
        PromptCachePersistentMode::Require => "require"@,
    }
}

impl PromptCachePersistentMode {
    /// Canonical configuration spelling.
    pub fn as_str(self) -> (word: &'static str)
        ensures
            word@ == persistent_word(self),
    {
        match self {
            Self::Forbid => "forbid",
            Self::Reuse => "reuse",
            Self::Create => "create",
            Self::Require => "require",
        }
    }

    /// Reads a canonical spelling; any other word is refused.
    pub fn from_word(value: &str) -> (parsed: Result<Self, PromptCachePolicyError>)
        ensures
            parsed matches Ok(m) ==> persistent_word(m) == value@,
            parsed is Err ==> parsed == Err::<Self, _>(
                PromptCachePolicyError::UnknownPersistentMode,
            ) && forall|m: PromptCachePersistentMode| persistent_word(m) != value@,
    {
        if same_text(value, "forbid") {
            Ok(Self::Forbid)
        } else if same_text(value, "reuse") {
            Ok(Self::Reuse)
        } else if same_text(value, "create") {
            Ok(Self::Create)
        } else if same_text(value, "require") {
            Ok(Self::Require)
        } else {
            proof {
                assert forall|m: PromptCachePersistentMode| persistent_word(m) != value@ by {
                    match m {
                        PromptCachePersistentMode::Forbid => {},
                        PromptCachePersistentMode::Reuse => {},
                        PromptCachePersistentMode::Create => {},
                        PromptCachePersistentMode::Require => {},
                    }
                }
            }
            Err(PromptCachePolicyError::UnknownPersistentMode)
        }
    }

    /// How much resource authority this mode carries.
    pub fn authority(self) -> (authority: u8)
        ensures
            authority == persistent_authority(self),
    {
        match self {
            Self::Forbid => 0,
            Self::Reuse => 1,
            Self::Create | Self::Require => 2,
        }
    }
}

impl std::str::FromStr for PromptCachePersistentMode {
    type Err = PromptCachePolicyError;

    fn from_str(value: &str) -> Result<Self, Self::Err> {
        Self::from_word(value)
    }
}

/// A hard upper bound on provider retention behavior.
#[derive(Debug, Clone, Copy, PartialEq, Eq, Structural)]
pub struct PromptCacheRetention {
    class: PromptCacheRetentionClass,
    maximum_seconds: Option<u32>,
}

/// How long-lived a retention class is, shortest first.
pub open spec fn retention_rank(class: PromptCacheRetentionClass) -> u8 {
    match class {
        PromptCacheRetentionClass::ProviderDefault => 0,
        PromptCacheRetentionClass::Ephemeral => 1,
        PromptCacheRetentionClass::Extended => 2,
    }
}

fn retention_rank_exec(class: PromptCacheRetentionClass) -> (rank: u8)
    ensures
        rank == retention_rank(class),
{
    match class {
        PromptCacheRetentionClass::ProviderDefault => 0,
        PromptCacheRetentionClass::Ephemeral => 1,
        PromptCacheRetentionClass::Extended => 2,
    }
}

/// The tighter of two optional ceilings; an absent ceiling bounds nothing.
pub open spec fn tighter_ceiling(held: Option<u32>, wanted: Option<u32>) -> Option<u32> {
    match (held, wanted) {
        (Some(h), Some(w)) => Some(if h <= w { h } else { w }),
        (Some(h), None) => Some(h),
        (None, bound) => bound,
    }
}

impl PromptCacheRetention {
    /// Requested provider-neutral retention class.
    pub closed spec fn spec_class(self) -> PromptCacheRetentionClass {
        self.class
    }

    /// Hard maximum, absent only for the unchanged provider default.
    pub closed spec fn spec_maximum_seconds(self) -> Option<u32> {
        self.maximum_seconds
    }

    /// A retention value as the constructors make them: the provider default
    /// carries no ceiling, and every other class carries one inside the
    /// global bound.
    pub open spec fn well_formed(self) -> bool {
        if self.spec_class() == PromptCacheRetentionClass::ProviderDefault {
            self.spec_maximum_seconds() is None
        } else {
            self.spec_maximum_seconds() matches Some(s) && 0 < s
                <= MAX_PROMPT_CACHE_RETENTION_SECONDS
        }
    }

    /// No provider retention override.
    pub fn provider_default() -> (made: Self)
        ensures
            made.spec_class() == PromptCacheRetentionClass::ProviderDefault,
            made.spec_maximum_seconds() is None,
    {
        Self { class: PromptCacheRetentionClass::ProviderDefault, maximum_seconds: None }
    }

    /// A bounded short-lived class.
    pub fn ephemeral(maximum_seconds: u32) -> (made: Result<Self, PromptCachePolicyError>)
        ensures
            made matches Ok(r) ==> r.spec_class() == PromptCacheRetentionClass::Ephemeral
                && r.spec_maximum_seconds() == Some(maximum_seconds),
            made is Ok <==> 0 < maximum_seconds <= MAX_PROMPT_CACHE_RETENTION_SECONDS,
            made is Err ==> made == Err::<Self, _>(PromptCachePolicyError::RetentionOutOfRange),
    {
        Self::bounded(PromptCacheRetentionClass::Ephemeral, maximum_seconds)
    }

    /// A bounded longer-lived class, which configuration restricts to user origin.
    pub fn extended(maximum_seconds: u32) -> (made: Result<Self, PromptCachePolicyError>)
        ensures
            made matches Ok(r) ==> r.spec_class() == PromptCacheRetentionClass::Extended
                && r.spec_maximum_seconds() == Some(maximum_seconds),
            made is Ok <==> 0 < maximum_seconds <= MAX_PROMPT_CACHE_RETENTION_SECONDS,
            made is Err ==> made == Err::<Self, _>(PromptCachePolicyError::RetentionOutOfRange),
    {
        Self::bounded(PromptCacheRetentionClass::Extended, maximum_seconds)
    }

    fn bounded(class: PromptCacheRetentionClass, maximum_seconds: u32) -> (made: Result<
        Self,
        PromptCachePolicyError,
    >)
        ensures
            made matches Ok(r) ==> r.spec_class() == class && r.spec_maximum_seconds() == Some(
                maximum_seconds,
            ),
            made is Ok <==> 0 < maximum_seconds <= MAX_PROMPT_CACHE_RETENTION_SECONDS,
            made is Err ==> made == Err::<Self, _>(PromptCachePolicyError::RetentionOutOfRange),
    {
        if maximum_seconds == 0 || maximum_seconds > MAX_PROMPT_CACHE_RETENTION_SECONDS {
            return Err(PromptCachePolicyError::RetentionOutOfRange);
        }
        Ok(Self { class, maximum_seconds: Some(maximum_seconds) })
    }

    /// Requested provider-neutral retention class.
    pub fn class(self) -> (class: PromptCacheRetentionClass)
        ensures
            class == self.spec_class(),
    {
        self.class
    }

    /// Hard maximum, absent only for the unchanged provider default.
    pub fn maximum_seconds(self) -> (maximum: Option<u32>)
        ensures
            maximum == self.spec_maximum_seconds(),
    {
        self.maximum_seconds
    }

    /// This ceiling held over a descendant's request.
    pub closed spec fn narrowing(self, wanted: Self) -> Self {
        let class = if retention_rank(self.class) <= retention_rank(wanted.class) {
            self.class
        } else {
            wanted.class
        };
        if class == PromptCacheRetentionClass::ProviderDefault {
            Self { class, maximum_seconds: None }
        } else {
            Self { class, maximum_seconds: tighter_ceiling(self.maximum_seconds, wanted.maximum_seconds) }
        }
    }

    /// The narrowing keeps the shorter-lived class and the tighter bound, and
    /// the provider default carries no bound.
    pub proof fn lemma_narrowing(self, wanted: Self)
        ensures
            self.narrowing(wanted).spec_class() == (if retention_rank(self.spec_class())
                <= retention_rank(wanted.spec_class()) {
                self.spec_class()
            } else {
                wanted.spec_class()
            }),
            self.narrowing(wanted).spec_maximum_seconds() == (if self.narrowing(wanted).spec_class()
                == PromptCacheRetentionClass::ProviderDefault {
                None
            } else {
                tighter_ceiling(self.spec_maximum_seconds(), wanted.spec_maximum_seconds())
            }),
    {
    }

    /// Two retentions with the same class and bound are the same value.
    pub proof fn lemma_same(self, other: Self)
        requires
            self.spec_class() == other.spec_class(),
            self.spec_maximum_seconds() == other.spec_maximum_seconds(),
        ensures
            self == other,
    {
    }

    /// This ceiling held over a descendant's request: the shorter-lived class
    /// and the tighter time bound, collapsing to the provider default when
    /// that is the class left.
    pub fn narrowed(self, wanted: Self) -> (narrowed: Self)
        ensures
            narrowed == self.narrowing(wanted),
            narrowed.spec_class() == (if retention_rank(self.spec_class()) <= retention_rank(
                wanted.spec_class(),
            ) {
                self.spec_class()
            } else {
                wanted.spec_class()
            }),
            narrowed.spec_maximum_seconds() == (if narrowed.spec_class()
                == PromptCacheRetentionClass::ProviderDefault {
                None
            } else {
                tighter_ceiling(self.spec_maximum_seconds(), wanted.spec_maximum_seconds())
            }),
    {
        let class = if retention_rank_exec(self.class) <= retention_rank_exec(wanted.class) {
            self.class
        } else {
            wanted.class
        };
        let maximum_seconds = match (self.maximum_seconds, wanted.maximum_seconds) {
            (Some(held), Some(wanted)) => Some(
                if held <= wanted {
                    held
                } else {
                    wanted
                },
            ),
            (Some(held), None) => Some(held),
            (None, bound) => bound,
        };
        if class == PromptCacheRetentionClass::ProviderDefault {
            Self::provider_default()
        } else {
            Self { class, maximum_seconds }
        }
    }
}

/// A compact allowlist over the four neutral mechanism kinds.
#[derive(Debug, Clone, Copy, PartialEq, Eq, Structural)]
pub struct PromptCacheMechanisms(u8);

/// The bit that stands for one mechanism in an allowlist.
pub open spec fn mechanism_bit(mechanism: PromptCacheMechanism) -> u8 {
    match mechanism {
        PromptCacheMechanism::ProviderManagedUsageOnly => 1,
        PromptCacheMechanism::AutomaticPrefix => 2,
        PromptCacheMechanism::ExplicitBreakpoints => 4,
        PromptCacheMechanism::PersistentContent => 8,
    }
}

fn bit(mechanism: PromptCacheMechanism) -> (b: u8)
    ensures
        b == mechanism_bit(mechanism),
{
    match mechanism {
        PromptCacheMechanism::ProviderManagedUsageOnly => 1,
        PromptCacheMechanism::AutomaticPrefix => 2,
        PromptCacheMechanism::ExplicitBreakpoints => 4,
        PromptCacheMechanism::PersistentContent => 8,
    }
}

impl PromptCacheMechanisms {
    /// No mechanism is permitted.
    pub fn none() -> (set: Self)
        ensures
            forall|m: PromptCacheMechanism| !set.permits(m),
    {
        let set = Self(0);
        proof {
            assert forall|m: PromptCacheMechanism| !set.permits(m) by {
                let b = mechanism_bit(m);
                assert(0u8 & b == 0) by (bit_vector);
            }
        }
        set
    }

    /// Every neutral mechanism is permitted.
    pub fn all() -> (set: Self)
        ensures
            forall|m: PromptCacheMechanism| set.permits(m),
    {
        let set = Self(15);
        proof {
            assert forall|m: PromptCacheMechanism| set.permits(m) by {
                let b = mechanism_bit(m);
                assert(b == 1 || b == 2 || b == 4 || b == 8);
                assert((b == 1 || b == 2 || b == 4 || b == 8) ==> 15u8 & b != 0) by (bit_vector);
            }
        }
        set
    }

    /// Whether this allowlist permits no mechanism at all.
    pub open spec fn permits_none(self) -> bool {
        forall|m: PromptCacheMechanism| !#[trigger] self.permits(m)
    }

    /// Whether this allowlist permits `mechanism`.
    pub closed spec fn permits(self, mechanism: PromptCacheMechanism) -> bool {
        self.0 & mechanism_bit(mechanism) != 0
    }

    /// The allowlist holds only the four mechanism bits.
    #[verifier::type_invariant]
    spec fn bounded(self) -> bool {
        self.0 < 16
    }

    /// A set containing one mechanism.
    pub fn one(mechanism: PromptCacheMechanism) -> (set: Self)
        ensures
            forall|m: PromptCacheMechanism| set.permits(m) <==> m == mechanism,
    {
        let b = bit(mechanism);
        let set = Self(b);
        proof {
            assert forall|m: PromptCacheMechanism| set.permits(m) <==> m == mechanism by {
                let c = mechanism_bit(m);
                assert((b == 1 || b == 2 || b == 4 || b == 8) && (c == 1 || c == 2 || c == 4 || c
                    == 8) ==> ((b & c != 0) <==> b == c)) by (bit_vector);
            }
        }
        set
    }

    /// Adds one mechanism.
    pub fn with(self, mechanism: PromptCacheMechanism) -> (set: Self)
        ensures
            forall|m: PromptCacheMechanism| set.permits(m) <==> (self.permits(m) || m == mechanism),
    {
        proof {
            use_type_invariant(&self);
        }
        let b = bit(mechanism);
        let a = self.0;
        proof {
            assert((b == 1 || b == 2 || b == 4 || b == 8) && a < 16 ==> (a | b) < 16) by (bit_vector);
        }
        let set = Self(a | b);
        proof {
            assert forall|m: PromptCacheMechanism| set.permits(m) <==> (self.permits(m) || m
                == mechanism) by {
                let c = mechanism_bit(m);
                assert((b == 1 || b == 2 || b == 4 || b == 8) && (c == 1 || c == 2 || c == 4 || c
                    == 8) ==> (((a | b) & c != 0) <==> ((a & c != 0) || b == c))) by (bit_vector);
            }
        }
        set
    }

    /// The mechanisms both allowlists permit.
    pub closed spec fn meet(self, other: Self) -> Self {
        Self(self.0 & other.0)
    }

    /// The meet permits exactly what both permit.
    pub proof fn lemma_meet(self, other: Self)
        ensures
            forall|m: PromptCacheMechanism| #[trigger]
                self.meet(other).permits(m) <==> (self.permits(m) && other.permits(m)),
    {
        let a = self.0;
        let o = other.0;
        assert forall|m: PromptCacheMechanism| #[trigger]
            self.meet(other).permits(m) <==> (self.permits(m) && other.permits(m)) by {
            let c = mechanism_bit(m);
            assert((c == 1 || c == 2 || c == 4 || c == 8) ==> (((a & o) & c != 0) <==> ((a & c
                != 0) && (o & c != 0)))) by (bit_vector);
        }
    }

    /// The intersection of two allowlists.
    pub fn intersection(self, other: Self) -> (set: Self)
        ensures
            set == self.meet(other),
            forall|m: PromptCacheMechanism| set.permits(m) <==> (self.permits(m) && other.permits(m)),
    {
        proof {
            use_type_invariant(&self);
        }
        let a = self.0;
        let o = other.0;
        proof {
            assert(a < 16 ==> (a & o) < 16) by (bit_vector);
        }
        let set = Self(a & o);
        proof {
            assert forall|m: PromptCacheMechanism| set.permits(m) <==> (self.permits(m)
                && other.permits(m)) by {
                let c = mechanism_bit(m);
                assert((c == 1 || c == 2 || c == 4 || c == 8) ==> (((a & o) & c != 0) <==> ((a & c
                    != 0) && (o & c != 0)))) by (bit_vector);
            }
        }
        set
    }

    /// Whether this set permits a mechanism.
    pub fn contains(self, mechanism: PromptCacheMechanism) -> (permitted: bool)
        ensures
            permitted == self.permits(mechanism),
    {
        self.0 & bit(mechanism) != 0
    }

    /// Whether every mechanism has been filtered out.
    pub fn is_empty(self) -> (empty: bool)
        ensures
            empty <==> self.permits_none(),
    {
        proof {
            use_type_invariant(&self);
        }
        let a = self.0;
        proof {
            assert(a < 16 ==> (a == 0 <==> (a & 1 == 0 && a & 2 == 0 && a & 4 == 0 && a & 8 == 0)))
                by (bit_vector);
            assert(a == 0 ==> forall|m: PromptCacheMechanism| !self.permits(m)) by {
                assert forall|m: PromptCacheMechanism| a == 0 implies !self.permits(m) by {
                    let c = mechanism_bit(m);
                    assert(0u8 & c == 0) by (bit_vector);
                }
            }
            if a != 0 {
                assert(self.permits(PromptCacheMechanism::ProviderManagedUsageOnly) || self.permits(
                    PromptCacheMechanism::AutomaticPrefix,
                ) || self.permits(PromptCacheMechanism::ExplicitBreakpoints) || self.permits(
                    PromptCacheMechanism::PersistentContent,
                ));
            }
        }
        a == 0
    }
}

/// A bounded opaque label contributing to cache scope identity.
#[derive(Clone, Copy, PartialEq, Eq, Hash)]
pub struct PromptCacheNamespace {
    bytes: [u8; 64],
    length: u8,
}

/// Whether a byte may appear in a namespace label.
pub open spec fn namespace_byte(b: u8) -> bool {
    (0x30 <= b <= 0x39) || (0x41 <= b <= 0x5a) || (0x61 <= b <= 0x7a) || b == 0x2d || b == 0x5f
        || b == 0x2e
}

/// Whether `label` is an acceptable namespace: 1 to 64 bytes, each an ASCII
/// letter, digit, `-`, `_` or `.`.
pub open spec fn valid_namespace(label: Seq<u8>) -> bool {
    &&& 0 < label.len() <= MAX_PROMPT_CACHE_NAMESPACE_BYTES
    &&& forall|i: int| 0 <= i < label.len() ==> namespace_byte(#[trigger] label[i])
}

fn is_namespace_byte(b: u8) -> (ok: bool)
    ensures
        ok == namespace_byte(b),
{
    (0x30 <= b && b <= 0x39) || (0x41 <= b && b <= 0x5a) || (0x61 <= b && b <= 0x7a) || b == 0x2d
        || b == 0x5f || b == 0x2e
}

impl PromptCacheNamespace {
    /// The label's bytes.
    pub closed spec fn label(self) -> Seq<u8> {
        self.bytes@.take(self.length as int)
    }

    /// Every namespace holds an accepted label.
    #[verifier::type_invariant]
    spec fn wf(self) -> bool {
        self.length as int <= 64 && valid_namespace(self.label())
    }

    /// Accepts only a short portable label, never an arbitrary provider key.
    pub fn new(value: &str) -> (made: Result<Self, PromptCachePolicyError>)
        ensures
            made matches Ok(n) ==> n.label() == value.spec_bytes(),
            made is Ok <==> valid_namespace(value.spec_bytes()),
            made is Err ==> made == Err::<Self, _>(PromptCachePolicyError::InvalidNamespace),
    {
        let raw = value.as_bytes();
        let n = raw.len();
        if n == 0 || n > MAX_PROMPT_CACHE_NAMESPACE_BYTES {
            return Err(PromptCachePolicyError::InvalidNamespace);
        }
        let mut bytes = [0u8; 64];
        let mut i: usize = 0;
        while i < n
            invariant
                raw@ == value.spec_bytes(),
                n == raw@.len(),
                0 < n <= 64,
                0 <= i <= n,
                forall|j: int| 0 <= j < i ==> namespace_byte(#[trigger] raw@[j]),
                forall|j: int| 0 <= j < i ==> bytes@[j] == raw@[j],
                bytes@.len() == 64,
            decreases n - i,
        {
            if !is_namespace_byte(raw[i]) {
                assert(!namespace_byte(value.spec_bytes()[i as int]));
                assert(!valid_namespace(value.spec_bytes()));
                return Err(PromptCachePolicyError::InvalidNamespace);
            }
            bytes[i] = raw[i];
            i = i + 1;
        }
        let made = Self { bytes, length: n as u8 };
        assert(made.label() =~= raw@);
        Ok(made)
    }

    /// The validated label.
    pub fn as_str(&self) -> (text: &str)
        ensures
            text.spec_bytes() == self.label(),
            valid_namespace(self.label()),
    {
        proof {
            use_type_invariant(self);
        }
        let bytes = self.bytes.as_slice();
        let (label, _) = bytes.split_at(self.length as usize);
        proof {
            assert(label@ =~= self.label());
            assert(all_ascii(label@));
            lemma_ascii_is_utf8(label@);
        }
        match utf8_text(label) {
            Some(text) => text,
            None => "",
        }
    }
}

/// A contradictory inherited policy that preparation must report, not erase.
#[derive(Debug, Clone, Copy, PartialEq, Eq, Structural)]
pub enum PromptCachePolicyConflict {
    /// A user requirement met a descendant prohibition.
    RequiredAndProhibited,
    /// Narrowing removed every mechanism while caching remained required.
    RequiredWithoutMechanism,
}

/// Invalid policy construction.
#[derive(Debug, Clone, Copy, PartialEq, Eq, Structural)]
pub enum PromptCachePolicyError {
    /// `PromptCacheMode` received no canonical word.
    UnknownMode,
    /// `PromptCacheIsolation` received no canonical word.
    UnknownIsolation,
    /// `PromptCachePersistentMode` received no canonical word.
    UnknownPersistentMode,
    /// The namespace was empty, too long, or not a portable opaque label.
    InvalidNamespace,
    /// The retention bound was zero or exceeded the hard maximum.
    RetentionOutOfRange,
    /// Privacy prohibition cannot coexist with remote-resource authority.
    ProhibitWithPersistentResource,
}

impl PromptCachePolicyError {
    /// The diagnostic sentence.
    pub fn message(&self) -> (text: &'static str)
        ensures
            text@ == match *self {
                PromptCachePolicyError::UnknownMode => "unknown prompt-cache mode"@,
                PromptCachePolicyError::UnknownIsolation => "unknown prompt-cache isolation scope"@,
                PromptCachePolicyError::UnknownPersistentMode => "unknown prompt-cache persistent-resource mode"@,
                PromptCachePolicyError::InvalidNamespace => "prompt-cache namespace must be 1..=64 ASCII letters, digits, '.', '-' or '_'"@,
                PromptCachePolicyError::RetentionOutOfRange => "prompt-cache retention must be 1..=31536000 seconds"@,
                PromptCachePolicyError::ProhibitWithPersistentResource => "prompt-cache prohibit mode cannot authorize persistent resources"@,
            },
    {
        match self {
            Self::UnknownMode => "unknown prompt-cache mode",
            Self::UnknownIsolation => "unknown prompt-cache isolation scope",
            Self::UnknownPersistentMode => "unknown prompt-cache persistent-resource mode",
            Self::InvalidNamespace =>
                "prompt-cache namespace must be 1..=64 ASCII letters, digits, '.', '-' or '_'",
            Self::RetentionOutOfRange => "prompt-cache retention must be 1..=31536000 seconds",
            Self::ProhibitWithPersistentResource =>
                "prompt-cache prohibit mode cannot authorize persistent resources",
        }
    }
}

/// Where each independently narrowed policy field came from.
pub struct PolicySourcesView {
    pub mode: PromptCachePolicySource,
    pub mechanisms: PromptCachePolicySource,
    pub isolation: PromptCachePolicySource,
    pub retention: PromptCachePolicySource,
    pub persistent_resources: PromptCachePolicySource,
    pub namespace: PromptCachePolicySource,
}

/// Every field from one source.
pub open spec fn sources_all_from(source: PromptCachePolicySource) -> PolicySourcesView {
    PolicySourcesView {
        mode: source,
        mechanisms: source,
        isolation: source,
        retention: source,
        persistent_resources: source,
        namespace: source,
    }
}

/// The source of every independently narrowed policy field.
#[derive(Debug, Clone, Copy, PartialEq, Eq, Structural)]
pub struct PromptCachePolicySources {
    mode: PromptCachePolicySource,
    mechanisms: PromptCachePolicySource,
    isolation: PromptCachePolicySource,
    retention: PromptCachePolicySource,
    persistent_resources: PromptCachePolicySource,
    namespace: PromptCachePolicySource,
}

impl View for PromptCachePolicySources {
    type V = PolicySourcesView;

    closed spec fn view(&self) -> PolicySourcesView {
        PolicySourcesView {
            mode: self.mode,
            mechanisms: self.mechanisms,
            isolation: self.isolation,
            retention: self.retention,
            persistent_resources: self.persistent_resources,
            namespace: self.namespace,
        }
    }
}

impl PromptCachePolicySources {
    /// Every field came from no layer at all.
    fn unset() -> (sources: Self)
        ensures
            sources@ == sources_all_from(PromptCachePolicySource::Default),
    {
        Self {
            mode: PromptCachePolicySource::Default,
            mechanisms: PromptCachePolicySource::Default,
            isolation: PromptCachePolicySource::Default,
            retention: PromptCachePolicySource::Default,
            persistent_resources: PromptCachePolicySource::Default,
            namespace: PromptCachePolicySource::Default,
        }
    }

    /// Origin of the selected mode ceiling.
    pub fn mode(self) -> (source: PromptCachePolicySource)
        ensures
            source == self@.mode,
    {
        self.mode
    }

    /// Origin of the mechanism allowlist ceiling.
    pub fn mechanisms(self) -> (source: PromptCachePolicySource)
        ensures
            source == self@.mechanisms,
    {
        self.mechanisms
    }

    /// Origin of the isolation ceiling.
    pub fn isolation(self) -> (source: PromptCachePolicySource)
        ensures
            source == self@.isolation,
    {
        self.isolation
    }

    /// Origin of the retention ceiling.
    pub fn retention(self) -> (source: PromptCachePolicySource)
        ensures
            source == self@.retention,
    {
        self.retention
    }

    /// Origin of persistent-resource authority.
    pub fn persistent_resources(self) -> (source: PromptCachePolicySource)
        ensures
            source == self@.persistent_resources,
    {
        self.persistent_resources
    }

    /// Origin of the optional namespace.
    pub fn namespace(self) -> (source: PromptCachePolicySource)
        ensures
            source == self@.namespace,
    {
        self.namespace
    }
}

/// The content of one resolved policy.
pub struct PolicyView {
    pub mode: PromptCacheMode,
    pub allowed: PromptCacheMechanisms,
    pub isolation: PromptCacheIsolation,
    pub retention: PromptCacheRetention,
    pub persistent: PromptCachePersistentMode,
    pub namespace: Option<PromptCacheNamespace>,
    pub sources: PolicySourcesView,
    pub version: Seq<char>,
    pub conflict: Option<PromptCachePolicyConflict>,
}

/// Fully resolved prompt-cache policy, compact enough to travel in `RunPolicy`.
#[derive(Clone, Copy, PartialEq, Eq)]
pub struct PromptCachePolicy {
    mode: PromptCacheMode,
    allowed_mechanisms: PromptCacheMechanisms,
    isolation: PromptCacheIsolation,
    retention: PromptCacheRetention,
    persistent_resources: PromptCachePersistentMode,
    namespace: Option<PromptCacheNamespace>,
    sources: PromptCachePolicySources,
    version: PromptCachePolicyVersion,
    conflict: Option<PromptCachePolicyConflict>,
}

impl View for PromptCachePolicy {
    type V = PolicyView;

    closed spec fn view(&self) -> PolicyView {
        PolicyView {
            mode: self.mode,
            allowed: self.allowed_mechanisms,
            isolation: self.isolation,
            retention: self.retention,
            persistent: self.persistent_resources,
            namespace: self.namespace,
            sources: self.sources@,
            version: self.version.label(),
            conflict: self.conflict,
        }
    }
}

/// The clean-install policy: prefer native session caching with every
/// mechanism allowed, the provider's own retention, and no persistent
/// resources.
pub open spec fn default_policy(view: PolicyView) -> bool {
    &&& view.mode == PromptCacheMode::Prefer
    &&& forall|m: PromptCacheMechanism| view.allowed.permits(m)
    &&& view.isolation == PromptCacheIsolation::Session
    &&& view.retention.spec_class() == PromptCacheRetentionClass::ProviderDefault
    &&& view.retention.spec_maximum_seconds() is None
    &&& view.persistent == PromptCachePersistentMode::Forbid
    &&& view.namespace is None
    &&& view.sources == sources_all_from(PromptCachePolicySource::Default)
    &&& view.version == current_policy_version()
    &&& view.conflict is None
}

/// A held mode over a wanted one: an inherited requirement stays and turns a
/// wanted prohibition or observation into a conflict; prohibition and
/// observation stay; preference yields only to a wanted narrowing.
pub open spec fn mode_narrowing(
    held: PromptCacheMode,
    held_source: PromptCachePolicySource,
    wanted: PromptCacheMode,
    wanted_source: PromptCachePolicySource,
) -> (PromptCacheMode, PromptCachePolicySource, Option<PromptCachePolicyConflict>) {
    match held {
        PromptCacheMode::Require => if wanted is Prohibit || wanted is ObserveOnly {
            (held, held_source, Some(PromptCachePolicyConflict::RequiredAndProhibited))
        } else {
            (held, held_source, None)
        },
        PromptCacheMode::Prefer => if wanted is Prohibit || wanted is ObserveOnly {
            (wanted, wanted_source, None)
        } else {
            (held, held_source, None)
        },
        _ => (held, held_source, None),
    }
}

/// The lesser of two resource authorities; on a tie the held mode stays.
pub open spec fn persistent_narrowing(
    held: PromptCachePersistentMode,
    wanted: PromptCachePersistentMode,
) -> PromptCachePersistentMode {
    if persistent_authority(wanted) < persistent_authority(held) {
        wanted
    } else {
        held
    }
}

/// The narrower of two isolation scopes; on a tie the held scope stays.
pub open spec fn isolation_narrowing(
    held: PromptCacheIsolation,
    wanted: PromptCacheIsolation,
) -> PromptCacheIsolation {
    if isolation_rank(held) <= isolation_rank(wanted) {
        held
    } else {
        wanted
    }
}

/// A descendant policy held under every axis of an inherited one.
pub open spec fn policy_narrowing(held: PolicyView, wanted: PolicyView) -> PolicyView {
    let (mode, mode_source, mode_conflict) = mode_narrowing(
        held.mode,
        held.sources.mode,
        wanted.mode,
        wanted.sources.mode,
    );
    let isolation = isolation_narrowing(held.isolation, wanted.isolation);
    let retention = held.retention.narrowing(wanted.retention);
    let persistent = persistent_narrowing(held.persistent, wanted.persistent);
    let allowed = held.allowed.meet(wanted.allowed);
    let conflict = if mode_conflict is Some {
        mode_conflict
    } else if held.conflict is Some {
        held.conflict
    } else if wanted.conflict is Some {
        wanted.conflict
    } else if mode == PromptCacheMode::Require && allowed.permits_none() {
        Some(PromptCachePolicyConflict::RequiredWithoutMechanism)
    } else {
        None
    };
    PolicyView {
        mode,
        allowed,
        isolation,
        retention,
        persistent,
        namespace: if held.namespace is Some {
            held.namespace
        } else {
            wanted.namespace
        },
        sources: PolicySourcesView {
            mode: mode_source,
            mechanisms: if allowed == held.allowed {
                held.sources.mechanisms
            } else {
                wanted.sources.mechanisms
            },
            isolation: if isolation_rank(held.isolation) <= isolation_rank(wanted.isolation) {
                held.sources.isolation
            } else {
                wanted.sources.isolation
            },
            retention: if retention == held.retention {
                held.sources.retention
            } else {
                wanted.sources.retention
            },
            persistent_resources: if persistent == held.persistent {
                held.sources.persistent_resources
            } else {
                wanted.sources.persistent_resources
            },
            namespace: if held.namespace is Some {
                held.sources.namespace
            } else {
                wanted.sources.namespace
            },
        },
        version: current_policy_version(),
        conflict,
    }
}

fn narrow_mode(held: &PromptCachePolicy, wanted: &PromptCachePolicy) -> (narrowed: (
    PromptCacheMode,
    PromptCachePolicySource,
    Option<PromptCachePolicyConflict>,
))
    ensures
        narrowed == mode_narrowing(
            held@.mode,
            held@.sources.mode,
            wanted@.mode,
            wanted@.sources.mode,
        ),
{
    match (held.mode, wanted.mode) {
        (PromptCacheMode::Require, PromptCacheMode::Prohibit)
        | (PromptCacheMode::Require, PromptCacheMode::ObserveOnly) => (
            PromptCacheMode::Require,
            held.sources.mode,
            Some(PromptCachePolicyConflict::RequiredAndProhibited),
        ),
        (PromptCacheMode::Require, _) => (PromptCacheMode::Require, held.sources.mode, None),
        (PromptCacheMode::Prohibit, _) => (PromptCacheMode::Prohibit, held.sources.mode, None),
        (PromptCacheMode::ObserveOnly, _) => (
            PromptCacheMode::ObserveOnly,
            held.sources.mode,
            None,
        ),
        (PromptCacheMode::Prefer, PromptCacheMode::ObserveOnly)
        | (PromptCacheMode::Prefer, PromptCacheMode::Prohibit) => (
            wanted.mode,
            wanted.sources.mode,
            None,
        ),
        (PromptCacheMode::Prefer, _) => (PromptCacheMode::Prefer, held.sources.mode, None),
    }
}

fn narrow_persistent(held: PromptCachePersistentMode, wanted: PromptCachePersistentMode) -> (mode:
    PromptCachePersistentMode)
    ensures
        mode == persistent_narrowing(held, wanted),
{
    if held.authority() < wanted.authority() {
        held
    } else if wanted.authority() < held.authority() {
        wanted
    } else {
        // Equal create authority does not let a descendant turn Create into
        // Require or weaken an inherited Require into Create.
        held
    }
}

impl Default for PromptCachePolicy {
    fn default() -> (policy: Self)
        ensures
            default_policy(policy@),
    {
        Self {
            mode: PromptCacheMode::Prefer,
            allowed_mechanisms: PromptCacheMechanisms::all(),
            isolation: PromptCacheIsolation::Session,
            retention: PromptCacheRetention::provider_default(),
            persistent_resources: PromptCachePersistentMode::Forbid,
            namespace: None,
            sources: PromptCachePolicySources::unset(),
            version: PromptCachePolicyVersion::current(),
            conflict: None,
        }
    }
}

impl PromptCachePolicy {
    /// Replaces the requested mode from one authority source.
    pub fn with_mode(self, mode: PromptCacheMode) -> (policy: Self)
        ensures
            policy@ == (PolicyView {
                mode,
                sources: PolicySourcesView { mode: PromptCachePolicySource::Run, ..self@.sources },
                ..self@
            }),
    {
        self.with_mode_from(mode, PromptCachePolicySource::Run)
    }

    /// Replaces the requested mode and records its origin.
    pub fn with_mode_from(self, mode: PromptCacheMode, source: PromptCachePolicySource) -> (policy:
        Self)
        ensures
            policy@ == (PolicyView {
                mode,
                sources: PolicySourcesView { mode: source, ..self@.sources },
                ..self@
            }),
    {
        let mut policy = self;
        policy.mode = mode;
        policy.sources.mode = source;
        policy
    }

    /// Replaces the requested isolation from run/SDK construction.
    pub fn with_isolation(self, isolation: PromptCacheIsolation) -> (policy: Self)
        ensures
            policy@ == (PolicyView {
                isolation,
                sources: PolicySourcesView {
                    isolation: PromptCachePolicySource::Run,
                    ..self@.sources
                },
                ..self@
            }),
    {
        self.with_isolation_from(isolation, PromptCachePolicySource::Run)
    }

    /// Replaces isolation and records its origin.
    pub fn with_isolation_from(
        self,
        isolation: PromptCacheIsolation,
        source: PromptCachePolicySource,
    ) -> (policy: Self)
        ensures
            policy@ == (PolicyView {
                isolation,
                sources: PolicySourcesView { isolation: source, ..self@.sources },
                ..self@
            }),
    {
        let mut policy = self;
        policy.isolation = isolation;
        policy.sources.isolation = source;
        policy
    }

    /// Replaces retention from run/SDK construction.
    pub fn with_retention(self, retention: PromptCacheRetention) -> (policy: Self)
        ensures
            policy@ == (PolicyView {
                retention,
                sources: PolicySourcesView {
                    retention: PromptCachePolicySource::Run,
                    ..self@.sources
                },
                ..self@
            }),
    {
        self.with_retention_from(retention, PromptCachePolicySource::Run)
    }

    /// Replaces retention and records its origin.
    pub fn with_retention_from(
        self,
        retention: PromptCacheRetention,
        source: PromptCachePolicySource,
    ) -> (policy: Self)
        ensures
            policy@ == (PolicyView {
                retention,
                sources: PolicySourcesView { retention: source, ..self@.sources },
                ..self@
            }),
    {
        let mut policy = self;
        policy.retention = retention;
        policy.sources.retention = source;
        policy
    }

    /// Replaces persistent-resource authority from run/SDK construction.
    pub fn with_persistent_resources(self, mode: PromptCachePersistentMode) -> (policy: Self)
        ensures
            policy@ == (PolicyView {
                persistent: mode,
                sources: PolicySourcesView {
                    persistent_resources: PromptCachePolicySource::Run,
                    ..self@.sources
                },
                ..self@
            }),
    {
        self.with_persistent_resources_from(mode, PromptCachePolicySource::Run)
    }

    /// Replaces resource authority and records its origin.
    pub fn with_persistent_resources_from(
        self,
        mode: PromptCachePersistentMode,
        source: PromptCachePolicySource,
    ) -> (policy: Self)
        ensures
            policy@ == (PolicyView {
                persistent: mode,
                sources: PolicySourcesView { persistent_resources: source, ..self@.sources },
                ..self@
            }),
    {
        let mut policy = self;
        policy.persistent_resources = mode;
        policy.sources.persistent_resources = source;
        policy
    }

    /// Replaces the mechanism allowlist from run/SDK construction.
    pub fn allowing(self, mechanisms: PromptCacheMechanisms) -> (policy: Self)
        ensures
            policy@ == (PolicyView {
                allowed: mechanisms,
                sources: PolicySourcesView {
                    mechanisms: PromptCachePolicySource::Run,
                    ..self@.sources
                },
                ..self@
            }),
    {
        self.allowing_from(mechanisms, PromptCachePolicySource::Run)
    }

    /// Replaces the allowlist and records its origin.
    pub fn allowing_from(self, mechanisms: PromptCacheMechanisms, source: PromptCachePolicySource) -> (policy: Self)
        ensures
            policy@ == (PolicyView {
                allowed: mechanisms,
                sources: PolicySourcesView { mechanisms: source, ..self@.sources },
                ..self@
            }),
    {
        let mut policy = self;
        policy.allowed_mechanisms = mechanisms;
        policy.sources.mechanisms = source;
        policy
    }

    /// Replaces the bounded namespace from run/SDK construction.
    pub fn with_namespace(self, namespace: PromptCacheNamespace) -> (policy: Self)
        ensures
            policy@ == (PolicyView {
                namespace: Some(namespace),
                sources: PolicySourcesView {
                    namespace: PromptCachePolicySource::Run,
                    ..self@.sources
                },
                ..self@
            }),
    {
        self.with_namespace_from(namespace, PromptCachePolicySource::Run)
    }

    /// Replaces the namespace and records its origin.
    pub fn with_namespace_from(self, namespace: PromptCacheNamespace, source: PromptCachePolicySource) -> (policy: Self)
        ensures
            policy@ == (PolicyView {
                namespace: Some(namespace),
                sources: PolicySourcesView { namespace: source, ..self@.sources },
                ..self@
            }),
    {
        let mut policy = self;
        policy.namespace = Some(namespace);
        policy.sources.namespace = source;
        policy
    }

    /// Holds a descendant policy under every axis of this policy.
    pub fn narrowed(self, wanted: Self) -> (policy: Self)
        ensures
            policy@ == policy_narrowing(self@, wanted@),
    {
        let (mode, mode_source, mode_conflict) = narrow_mode(&self, &wanted);
        let (isolation, isolation_source) = if self.isolation.rank() <= wanted.isolation.rank() {
            (self.isolation, self.sources.isolation)
        } else {
            (wanted.isolation, wanted.sources.isolation)
        };
        let retention = self.retention.narrowed(wanted.retention);
        let retention_source = if retention == self.retention {
            self.sources.retention
        } else {
            wanted.sources.retention
        };
        let persistent_resources = narrow_persistent(
            self.persistent_resources,
            wanted.persistent_resources,
        );
        let persistent_source = if persistent_resources == self.persistent_resources {
            self.sources.persistent_resources
        } else {
            wanted.sources.persistent_resources
        };
        let allowed_mechanisms = self.allowed_mechanisms.intersection(wanted.allowed_mechanisms);
        let mechanism_source = if allowed_mechanisms == self.allowed_mechanisms {
            self.sources.mechanisms
        } else {
            wanted.sources.mechanisms
        };
        let conflict = if mode_conflict.is_some() {
            mode_conflict
        } else if self.conflict.is_some() {
            self.conflict
        } else if wanted.conflict.is_some() {
            wanted.conflict
        } else if mode == PromptCacheMode::Require && allowed_mechanisms.is_empty() {
            Some(PromptCachePolicyConflict::RequiredWithoutMechanism)
        } else {
            None
        };
        let namespace_source = if self.namespace.is_some() {
            self.sources.namespace
        } else {
            wanted.sources.namespace
        };
        let namespace = match self.namespace {
            Some(namespace) => Some(namespace),
            None => wanted.namespace,
        };
        Self {
            mode,
            allowed_mechanisms,
            isolation,
            retention,
            persistent_resources,
            namespace,
            sources: PromptCachePolicySources {
                mode: mode_source,
                mechanisms: mechanism_source,
                isolation: isolation_source,
                retention: retention_source,
                persistent_resources: persistent_source,
                namespace: namespace_source,
            },
            version: PromptCachePolicyVersion::current(),
            conflict,
        }
    }

    /// Validates contradictions within one constructed policy.
    pub fn validate(self) -> (checked: Result<Self, PromptCachePolicyError>)
        ensures
            checked is Err <==> (self@.mode == PromptCacheMode::Prohibit && self@.persistent
                != PromptCachePersistentMode::Forbid),
            checked matches Ok(p) ==> p@ == self@,
            checked is Err ==> checked == Err::<Self, _>(
                PromptCachePolicyError::ProhibitWithPersistentResource,
            ),
    {
        if self.mode == PromptCacheMode::Prohibit && self.persistent_resources
            != PromptCachePersistentMode::Forbid {
            return Err(PromptCachePolicyError::ProhibitWithPersistentResource);
        }
        Ok(self)
    }

    /// Selected mode.
    pub fn mode(self) -> (mode: PromptCacheMode)
        ensures
            mode == self@.mode,
    {
        self.mode
    }

    /// Permitted neutral mechanisms.
    pub fn allowed_mechanisms(self) -> (mechanisms: PromptCacheMechanisms)
        ensures
            mechanisms == self@.allowed,
    {
        self.allowed_mechanisms
    }

    /// Broadest sharing scope.
    pub fn isolation(self) -> (isolation: PromptCacheIsolation)
        ensures
            isolation == self@.isolation,
    {
        self.isolation
    }

    /// Retention ceiling.
    pub fn retention(self) -> (retention: PromptCacheRetention)
        ensures
            retention == self@.retention,
    {
        self.retention
    }

    /// Persistent-resource authority.
    pub fn persistent_resources(self) -> (mode: PromptCachePersistentMode)
        ensures
            mode == self@.persistent,
    {
        self.persistent_resources
    }

    /// Optional opaque namespace.
    pub fn namespace(self) -> (namespace: Option<PromptCacheNamespace>)
        ensures
            namespace == self@.namespace,
    {
        self.namespace
    }

    /// Source of each effective ceiling.
    pub fn sources(self) -> (sources: PromptCachePolicySources)
        ensures
            sources@ == self@.sources,
    {
        self.sources
    }

    /// Policy semantics version.
    pub fn version(self) -> (version: PromptCachePolicyVersion)
        ensures
            version.label() == self@.version,
    {
        self.version
    }

    /// A conflict carried to request preparation for an explicit failure.
    pub fn conflict(self) -> (conflict: Option<PromptCachePolicyConflict>)
        ensures
            conflict == self@.conflict,
    {
        self.conflict
    }
}

/// A descendant can only narrow an inherited policy. The effective scope is
/// no wider and the resource authority no greater than either side's, every
/// effective mechanism is allowed by both, the retention class lives no longer
/// than either side's and keeps within the held time bound, a held
/// observation, prohibition or requirement stays, and a conflict on either
/// side is never dropped.
pub proof fn lemma_narrowing_never_widens(held: PolicyView, wanted: PolicyView)
    ensures
        ({
            let n = policy_narrowing(held, wanted);
            &&& isolation_rank(n.isolation) <= isolation_rank(held.isolation)
            &&& isolation_rank(n.isolation) <= isolation_rank(wanted.isolation)
            &&& persistent_authority(n.persistent) <= persistent_authority(held.persistent)
            &&& persistent_authority(n.persistent) <= persistent_authority(wanted.persistent)
            &&& forall|m: PromptCacheMechanism| #[trigger]
                n.allowed.permits(m) ==> held.allowed.permits(m) && wanted.allowed.permits(m)
            &&& retention_rank(n.retention.spec_class()) <= retention_rank(
                held.retention.spec_class(),
            )
            &&& retention_rank(n.retention.spec_class()) <= retention_rank(
                wanted.retention.spec_class(),
            )
            &&& (n.retention.spec_class() != PromptCacheRetentionClass::ProviderDefault
                && held.retention.spec_maximum_seconds() is Some ==> (
            n.retention.spec_maximum_seconds() is Some
                && n.retention.spec_maximum_seconds()->0 <= held.retention.spec_maximum_seconds()->0))
            &&& (held.mode != PromptCacheMode::Prefer ==> n.mode == held.mode)
            &&& (held.mode == PromptCacheMode::Prefer ==> n.mode != PromptCacheMode::Require)
            &&& (held.conflict is Some || wanted.conflict is Some ==> n.conflict is Some)
        }),
{
    held.allowed.lemma_meet(wanted.allowed);
    held.retention.lemma_narrowing(wanted.retention);
}

/// An inherited requirement met by a wanted prohibition or observation keeps
/// the requirement and reports the conflict instead of erasing it; a required
/// mode left with no mechanism reports that conflict.
pub proof fn lemma_narrowing_reports_conflicts(held: PolicyView, wanted: PolicyView)
    ensures
        held.mode == PromptCacheMode::Require && (wanted.mode == PromptCacheMode::Prohibit
            || wanted.mode == PromptCacheMode::ObserveOnly) ==> policy_narrowing(held, wanted).mode
            == PromptCacheMode::Require && policy_narrowing(held, wanted).conflict == Some(
            PromptCachePolicyConflict::RequiredAndProhibited,
        ),
        policy_narrowing(held, wanted).mode == PromptCacheMode::Require && policy_narrowing(
            held,
            wanted,
        ).allowed.permits_none() ==> policy_narrowing(held, wanted).conflict is Some,
{
}

/// Narrowing a policy by itself changes none of its ceilings.
pub proof fn lemma_self_narrowing_keeps_ceilings(policy: PolicyView)
    requires
        policy.retention.well_formed(),
    ensures
        policy_narrowing(policy, policy).mode == policy.mode,
        policy_narrowing(policy, policy).isolation == policy.isolation,
        policy_narrowing(policy, policy).persistent == policy.persistent,
        policy_narrowing(policy, policy).retention == policy.retention,
        policy_narrowing(policy, policy).namespace == policy.namespace,
        forall|m: PromptCacheMechanism| #[trigger]
            policy_narrowing(policy, policy).allowed.permits(m) == policy.allowed.permits(m),
{
    policy.allowed.lemma_meet(policy.allowed);
    policy.retention.lemma_narrowing(policy.retention);
    let n = policy.retention.narrowing(policy.retention);
    policy.retention.lemma_same(n);
}


/// A descendant's withdrawal from caching is never overridden: where the
/// wanted mode prohibits or only observes, the effective mode prohibits or
/// only observes too, or the narrowing reports a conflict; under a held
/// preference the wanted withdrawal is exactly the effective mode. The
/// effective mode is always one of the two modes.
pub proof fn lemma_withdrawal_is_never_overridden(held: PolicyView, wanted: PolicyView)
    ensures
        ({
            let n = policy_narrowing(held, wanted);
            &&& n.mode == held.mode || n.mode == wanted.mode
            &&& (wanted.mode == PromptCacheMode::Prohibit || wanted.mode
                == PromptCacheMode::ObserveOnly) ==> (n.mode == PromptCacheMode::Prohibit
                || n.mode == PromptCacheMode::ObserveOnly || n.conflict is Some)
            &&& (held.mode == PromptCacheMode::Prefer && (wanted.mode == PromptCacheMode::Prohibit
                || wanted.mode == PromptCacheMode::ObserveOnly)) ==> n.mode == wanted.mode
        }),
{
}

} // verus!
