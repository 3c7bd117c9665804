//! Effective adapter and model prompt-cache capabilities.

use vstd::prelude::*;

use crate::coded::{Coded, common, copied, distinct_in_order, kept_in, unique};
use crate::text::same_text;

verus! {

/// Maximum mechanisms one reviewed endpoint/model record can advertise.
pub const MAX_PROMPT_CACHE_MECHANISMS: usize = 8;

/// Whether the exact adapter/endpoint/model combination is known to cache.
///
/// `Unknown` is deliberately not a permissive answer: no cache-specific request
/// field may be inferred from it.
#[derive(Debug, Clone, Copy, PartialEq, Eq, Structural)]
pub enum PromptCacheSupport {
    /// No reviewed record establishes either answer.
    Unknown,
    /// A reviewed record establishes that no supported mechanism exists.
    Unsupported,
    /// At least one reviewed adapter/model mechanism remains after intersection.
    Supported,
}

/// Stateful response continuation, kept separate from prompt caching.
#[derive(Debug, Clone, Copy, PartialEq, Eq, Structural)]
pub enum StatefulTransportCapability {
    /// The route has not been verified.
    Unknown,
    /// Every logical request must carry its complete provider transcript.
    Unsupported,
    /// The provider has a distinct continuation transport.
    Supported,
}

/// The weaker of two transport answers: unknown absorbs, then unsupported.
pub open spec fn transport_meet(
    a: StatefulTransportCapability,
    b: StatefulTransportCapability,
) -> StatefulTransportCapability {
    if a is Unknown || b is Unknown {
        StatefulTransportCapability::Unknown
    } else if a is Unsupported || b is Unsupported {
        StatefulTransportCapability::Unsupported
    } else {
        StatefulTransportCapability::Supported
    }
}

impl StatefulTransportCapability {
    /// The capability both routes share.
    pub fn intersection(self, other: Self) -> (met: Self)
        ensures
            met == transport_meet(self, other),
    {
        match (self, other) {
            (Self::Unknown, _) | (_, Self::Unknown) => Self::Unknown,
            (Self::Unsupported, _) | (_, Self::Unsupported) => Self::Unsupported,
            (Self::Supported, Self::Supported) => Self::Supported,
        }
    }
}

/// Provider-neutral cache mechanisms, in reviewed preference order.
#[derive(Debug, Clone, Copy, PartialEq, Eq, Hash, Structural)]
pub enum PromptCacheMechanism {
    /// The provider may cache automatically and only reports usage.
    ProviderManagedUsageOnly,
    /// The provider automatically reuses an eligible stable prefix.
    AutomaticPrefix,
    /// The request marks legal stable-prefix boundaries.
    ExplicitBreakpoints,
    /// The request references a separately managed cached-content resource.
    PersistentContent,
}

/// Canonical configuration spelling of a mechanism.
pub open spec fn mechanism_word(mechanism: PromptCacheMechanism) -> Seq<char> {
    match mechanism {
        PromptCacheMechanism::ProviderManagedUsageOnly => "providerManagedUsageOnly"@,
        PromptCacheMechanism::AutomaticPrefix => "automaticPrefix"@,
        PromptCacheMechanism::ExplicitBreakpoints => "explicitBreakpoints"@,
        PromptCacheMechanism::PersistentContent => "persistentContent"@,
    }
}

impl PromptCacheMechanism {
    /// Canonical configuration spelling.
    pub fn as_str(self) -> (word: &'static str)
        ensures
            word@ == mechanism_word(self),
    {
        match self {
            Self::ProviderManagedUsageOnly => "providerManagedUsageOnly",
            Self::AutomaticPrefix => "automaticPrefix",
            Self::ExplicitBreakpoints => "explicitBreakpoints",
            Self::PersistentContent => "persistentContent",
        }
    }

    /// Reads a canonical spelling; any other word is refused.
    pub fn from_word(value: &str) -> (parsed: Result<Self, PromptCacheCapabilityWordError>)
        ensures
            parsed matches Ok(m) ==> mechanism_word(m) == value@,
            parsed is Err ==> (forall|m: PromptCacheMechanism| mechanism_word(m) != value@),
    {
        if same_text(value, "providerManagedUsageOnly") {
            Ok(Self::ProviderManagedUsageOnly)
        } else if same_text(value, "automaticPrefix") {
            Ok(Self::AutomaticPrefix)
        } else if same_text(value, "explicitBreakpoints") {
            Ok(Self::ExplicitBreakpoints)
        } else if same_text(value, "persistentContent") {
            Ok(Self::PersistentContent)
        } else {
            proof {
                assert forall|m: PromptCacheMechanism| mechanism_word(m) != value@ by {
                    match m {
                        PromptCacheMechanism::ProviderManagedUsageOnly => {},
                        PromptCacheMechanism::AutomaticPrefix => {},
                        PromptCacheMechanism::ExplicitBreakpoints => {},
                        PromptCacheMechanism::PersistentContent => {},
                    }
                }
            }
            Err(PromptCacheCapabilityWordError)
        }
    }
}

impl Coded for PromptCacheMechanism {
    open spec fn spec_code(self) -> u8 {
        match self {
            Self::ProviderManagedUsageOnly => 0,
            Self::AutomaticPrefix => 1,
            Self::ExplicitBreakpoints => 2,
            Self::PersistentContent => 3,
        }
    }

    fn code(self) -> (c: u8) {
        match self {
            Self::ProviderManagedUsageOnly => 0,
            Self::AutomaticPrefix => 1,
            Self::ExplicitBreakpoints => 2,
            Self::PersistentContent => 3,
        }
    }

    proof fn lemma_code_injective(a: Self, b: Self) {
    }
}

impl std::str::FromStr for PromptCacheMechanism {
    type Err = PromptCacheCapabilityWordError;

    fn from_str(value: &str) -> Result<Self, Self::Err> {
        Self::from_word(value)
    }
}

/// Classes of provider-visible content a mechanism can retain.
#[derive(Debug, Clone, Copy, PartialEq, Eq, Hash, Structural)]
pub enum PromptCacheContent {
    /// Standing instructions and text message blocks.
    Text,
    /// Ordered visible tool descriptors.
    Tools,
    /// Images already present in the provider request.
    Images,
    /// Documents already present in the provider request.
    Documents,
    /// Audio already present in the provider request.
    Audio,
    /// Video already present in the provider request.
    Video,
}

impl Coded for PromptCacheContent {
    open spec fn spec_code(self) -> u8 {
        match self {
            Self::Text => 0,
            Self::Tools => 1,
            Self::Images => 2,
            Self::Documents => 3,
            Self::Audio => 4,
            Self::Video => 5,
        }
    }

    fn code(self) -> (c: u8) {
        match self {
            Self::Text => 0,
            Self::Tools => 1,
            Self::Images => 2,
            Self::Documents => 3,
            Self::Audio => 4,
            Self::Video => 5,
        }
    }

    proof fn lemma_code_injective(a: Self, b: Self) {
    }
}

/// Neutral positions an explicit-breakpoint adapter may map to its wire.
#[derive(Debug, Clone, Copy, PartialEq, Eq, Hash, Structural)]
pub enum PromptCacheBoundary {
    /// After the standing system instructions.
    AfterSystem,
    /// After the exact ordered visible tool snapshot.
    AfterTools,
    /// After a complete provider-visible message.
    AfterMessage,
    /// After one legal content block within a message.
    AfterContent,
}

impl Coded for PromptCacheBoundary {
    open spec fn spec_code(self) -> u8 {
        match self {
            Self::AfterSystem => 0,
            Self::AfterTools => 1,
            Self::AfterMessage => 2,
            Self::AfterContent => 3,
        }
    }

    fn code(self) -> (c: u8) {
        match self {
            Self::AfterSystem => 0,
            Self::AfterTools => 1,
            Self::AfterMessage => 2,
            Self::AfterContent => 3,
        }
    }

    proof fn lemma_code_injective(a: Self, b: Self) {
    }
}

/// Retention classes policy may select without naming a vendor TTL.
#[derive(Debug, Clone, Copy, PartialEq, Eq, Hash, Structural)]
pub enum PromptCacheRetentionClass {
    /// Do not ask the provider to alter its ordinary retention.
    ProviderDefault,
    /// A verified short-lived cache class.
    Ephemeral,
    /// A verified longer-lived class requiring user authority.
    Extended,
}

/// Canonical configuration spelling of a retention class.
pub open spec fn retention_class_word(class: PromptCacheRetentionClass) -> Seq<char> {
    match class {
        PromptCacheRetentionClass::ProviderDefault => "providerDefault"@,
        PromptCacheRetentionClass::Ephemeral => "ephemeral"@,
        PromptCacheRetentionClass::Extended => "extended"@,
    }
}

impl PromptCacheRetentionClass {
    /// Canonical configuration spelling.
    pub fn as_str(self) -> (word: &'static str)
        ensures
            word@ == retention_class_word(self),
    {
        match self {
            Self::ProviderDefault => "providerDefault",
            Self::Ephemeral => "ephemeral",
            Self::Extended => "extended",
        }
    }

    /// Reads a canonical spelling; any other word is refused.
    pub fn from_word(value: &str) -> (parsed: Result<Self, PromptCacheCapabilityWordError>)
        ensures
            parsed matches Ok(c) ==> retention_class_word(c) == value@,
            parsed is Err ==> (forall|c: PromptCacheRetentionClass|
                retention_class_word(c) != value@),
    {
        if same_text(value, "providerDefault") {
            Ok(Self::ProviderDefault)
        } else if same_text(value, "ephemeral") {
            Ok(Self::Ephemeral)
        } else if same_text(value, "extended") {
            Ok(Self::Extended)
        } else {
            proof {
                assert forall|c: PromptCacheRetentionClass| retention_class_word(c) != value@ by {
                    match c {
                        PromptCacheRetentionClass::ProviderDefault => {},
                        PromptCacheRetentionClass::Ephemeral => {},
                        PromptCacheRetentionClass::Extended => {},
                    }
                }
            }
            Err(PromptCacheCapabilityWordError)
        }
    }
}

impl Coded for PromptCacheRetentionClass {
    open spec fn spec_code(self) -> u8 {
        match self {
            Self::ProviderDefault => 0,
            Self::Ephemeral => 1,
            Self::Extended => 2,
        }
    }

    fn code(self) -> (c: u8) {
        match self {
            Self::ProviderDefault => 0,
            Self::Ephemeral => 1,
            Self::Extended => 2,
        }
    }

    proof fn lemma_code_injective(a: Self, b: Self) {
    }
}

impl std::str::FromStr for PromptCacheRetentionClass {
    type Err = PromptCacheCapabilityWordError;

    fn from_str(value: &str) -> Result<Self, Self::Err> {
        Self::from_word(value)
    }
}

/// A non-canonical capability/policy word.
#[derive(Debug, Clone, Copy, PartialEq, Eq, Structural)]
pub struct PromptCacheCapabilityWordError;

impl PromptCacheCapabilityWordError {
    /// The diagnostic sentence.
    pub fn message(&self) -> (text: &'static str)
        ensures
            text@ == "unknown prompt-cache capability value"@,
    {
        "unknown prompt-cache capability value"
    }
}

/// Which cache-specific input buckets a provider can report.
#[derive(Debug, Clone, Copy, PartialEq, Eq, PartialOrd, Ord, Structural)]
pub enum PromptCacheUsageReporting {
    /// No cache-specific usage is documented.
    NoDetail,
    /// Cache reads can be distinguished.
    ReadTokens,
    /// Cache reads and writes/creation can both be distinguished.
    ReadAndWriteTokens,
}

/// Position of a reporting level, fewest buckets first.
pub open spec fn usage_rank(usage: PromptCacheUsageReporting) -> int {
    match usage {
        PromptCacheUsageReporting::NoDetail => 0,
        PromptCacheUsageReporting::ReadTokens => 1,
        PromptCacheUsageReporting::ReadAndWriteTokens => 2,
    }
}

/// The less detailed of two reporting levels.
pub open spec fn usage_meet(
    a: PromptCacheUsageReporting,
    b: PromptCacheUsageReporting,
) -> PromptCacheUsageReporting {
    if usage_rank(a) <= usage_rank(b) {
        a
    } else {
        b
    }
}

fn usage_meet_exec(a: PromptCacheUsageReporting, b: PromptCacheUsageReporting) -> (met:
    PromptCacheUsageReporting)
    ensures
        met == usage_meet(a, b),
{
    let rank_a: u8 = match a {
        PromptCacheUsageReporting::NoDetail => 0,
        PromptCacheUsageReporting::ReadTokens => 1,
        PromptCacheUsageReporting::ReadAndWriteTokens => 2,
    };
    let rank_b: u8 = match b {
        PromptCacheUsageReporting::NoDetail => 0,
        PromptCacheUsageReporting::ReadTokens => 1,
        PromptCacheUsageReporting::ReadAndWriteTokens => 2,
    };
    if rank_a <= rank_b {
        a
    } else {
        b
    }
}

/// Immutable source metadata for a reviewed capability record.
#[derive(Debug, Clone, Copy, PartialEq, Eq)]
pub struct PromptCacheProvenance {
    source_url: &'static str,
    reviewed_on: &'static str,
    record_version: &'static str,
}

impl PromptCacheProvenance {
    /// Records one official source and the date/version reviewed into the build.
    pub fn new(
        source_url: &'static str,
        reviewed_on: &'static str,
        record_version: &'static str,
    ) -> (made: Self)
        ensures
            made.spec_source_url() == source_url,
            made.spec_reviewed_on() == reviewed_on,
            made.spec_record_version() == record_version,
    {
        Self { source_url, reviewed_on, record_version }
    }

    /// The official documentation used for the record.
    pub closed spec fn spec_source_url(self) -> &'static str {
        self.source_url
    }

    /// The ISO date on which the source was reviewed.
    pub closed spec fn spec_reviewed_on(self) -> &'static str {
        self.reviewed_on
    }

    /// The version of the compiled record.
    pub closed spec fn spec_record_version(self) -> &'static str {
        self.record_version
    }

    /// Official documentation used for the record.
    pub fn source_url(self) -> (url: &'static str)
        ensures
            url == self.spec_source_url(),
    {
        self.source_url
    }

    /// ISO date on which the source was reviewed.
    pub fn reviewed_on(self) -> (date: &'static str)
        ensures
            date == self.spec_reviewed_on(),
    {
        self.reviewed_on
    }

    /// Version of the compiled record.
    pub fn record_version(self) -> (version: &'static str)
        ensures
            version == self.spec_record_version(),
    {
        self.record_version
    }
}

/// The mathematical content of one mechanism capability.
pub struct MechanismCapabilityView {
    pub mechanism: PromptCacheMechanism,
    pub minimum_prefix_tokens: u32,
    pub maximum_breakpoints: u8,
    pub routing_key: bool,
    pub retention_hint: bool,
    pub opt_out: bool,
    pub content: Seq<PromptCacheContent>,
    pub boundaries: Seq<PromptCacheBoundary>,
    pub retentions: Seq<PromptCacheRetentionClass>,
}

/// One mechanism after adapter and model constraints are applied.
#[derive(Debug, Clone, PartialEq, Eq)]
pub struct PromptCacheMechanismCapability {
    mechanism: PromptCacheMechanism,
    minimum_prefix_tokens: u32,
    maximum_breakpoints: u8,
    routing_key: bool,
    retention_hint: bool,
    opt_out: bool,
    content: Vec<PromptCacheContent>,
    boundaries: Vec<PromptCacheBoundary>,
    retentions: Vec<PromptCacheRetentionClass>,
}

impl View for PromptCacheMechanismCapability {
    type V = MechanismCapabilityView;

    closed spec fn view(&self) -> MechanismCapabilityView {
        MechanismCapabilityView {
            mechanism: self.mechanism,
            minimum_prefix_tokens: self.minimum_prefix_tokens,
            maximum_breakpoints: self.maximum_breakpoints,
            routing_key: self.routing_key,
            retention_hint: self.retention_hint,
            opt_out: self.opt_out,
            content: self.content@,
            boundaries: self.boundaries@,
            retentions: self.retentions@,
        }
    }
}

/// Both mechanisms' limits at once: the larger threshold, the fewer
/// breakpoints, each flag only where both have it, and each set narrowed to
/// what both accept in the adapter's order.
pub open spec fn mechanism_meet(
    adapter: MechanismCapabilityView,
    model: MechanismCapabilityView,
) -> Option<MechanismCapabilityView> {
    if adapter.mechanism == model.mechanism {
        Some(
            MechanismCapabilityView {
                mechanism: adapter.mechanism,
                minimum_prefix_tokens: if adapter.minimum_prefix_tokens
                    >= model.minimum_prefix_tokens {
                    adapter.minimum_prefix_tokens
                } else {
                    model.minimum_prefix_tokens
                },
                maximum_breakpoints: if adapter.maximum_breakpoints <= model.maximum_breakpoints {
                    adapter.maximum_breakpoints
                } else {
                    model.maximum_breakpoints
                },
                routing_key: adapter.routing_key && model.routing_key,
                retention_hint: adapter.retention_hint && model.retention_hint,
                opt_out: adapter.opt_out && model.opt_out,
                content: kept_in(adapter.content, model.content),
                boundaries: kept_in(adapter.boundaries, model.boundaries),
                retentions: kept_in(adapter.retentions, model.retentions),
            },
        )
    } else {
        None
    }
}

/// Whether an intersected mechanism still describes something encodable.
pub open spec fn mechanism_usable(m: MechanismCapabilityView) -> bool {
    &&& m.content.len() != 0
    &&& m.retentions.len() != 0
    &&& (m.mechanism != PromptCacheMechanism::ExplicitBreakpoints || (m.boundaries.len() != 0
        && m.maximum_breakpoints > 0))
}

/// The first of `records` at or after `from` whose kind is `kind`.
pub open spec fn first_of_kind(
    records: Seq<MechanismCapabilityView>,
    kind: PromptCacheMechanism,
    from: int,
) -> Option<MechanismCapabilityView>
    decreases records.len() - from,
{
    if from < 0 || from >= records.len() {
        None
    } else if records[from].mechanism == kind {
        Some(records[from])
    } else {
        first_of_kind(records, kind, from + 1)
    }
}

/// Every adapter mechanism, in adapter order, met with the model's first
/// record of the same kind, keeping only the usable results.
pub open spec fn mechanisms_meet(
    adapter: Seq<MechanismCapabilityView>,
    model: Seq<MechanismCapabilityView>,
) -> Seq<MechanismCapabilityView>
    decreases adapter.len(),
{
    if adapter.len() == 0 {
        Seq::empty()
    } else {
        let before = mechanisms_meet(adapter.drop_last(), model);
        match first_of_kind(model, adapter.last().mechanism, 0) {
            Some(candidate) => match mechanism_meet(adapter.last(), candidate) {
                Some(met) => if mechanism_usable(met) {
                    before.push(met)
                } else {
                    before
                },
                None => before,
            },
            None => before,
        }
    }
}

/// The retention classes a freshly built mechanism of each kind carries.
pub open spec fn default_retentions(mechanism: PromptCacheMechanism) -> Seq<
    PromptCacheRetentionClass,
> {
    match mechanism {
        PromptCacheMechanism::ProviderManagedUsageOnly => seq![
            PromptCacheRetentionClass::ProviderDefault,
        ],
        PromptCacheMechanism::AutomaticPrefix => seq![
            PromptCacheRetentionClass::ProviderDefault,
            PromptCacheRetentionClass::Ephemeral,
        ],
        PromptCacheMechanism::ExplicitBreakpoints => seq![
            PromptCacheRetentionClass::ProviderDefault,
            PromptCacheRetentionClass::Ephemeral,
            PromptCacheRetentionClass::Extended,
        ],
        PromptCacheMechanism::PersistentContent => seq![
            PromptCacheRetentionClass::ProviderDefault,
            PromptCacheRetentionClass::Extended,
        ],
    }
}

impl PromptCacheMechanismCapability {
    /// A provider-managed automatic prefix cache.
    pub fn automatic_prefix(
        minimum_prefix_tokens: u32,
        routing_key: bool,
        retention_hint: bool,
        content: &[PromptCacheContent],
    ) -> (made: Self)
        ensures
            made@ == (MechanismCapabilityView {
                mechanism: PromptCacheMechanism::AutomaticPrefix,
                minimum_prefix_tokens,
                maximum_breakpoints: 0,
                routing_key,
                retention_hint,
                opt_out: false,
                content: distinct_in_order(content@),
                boundaries: Seq::empty(),
                retentions: default_retentions(PromptCacheMechanism::AutomaticPrefix),
            }),
    {
        let mut retentions = Vec::new();
        retentions.push(PromptCacheRetentionClass::ProviderDefault);
        retentions.push(PromptCacheRetentionClass::Ephemeral);
        let made = Self {
            mechanism: PromptCacheMechanism::AutomaticPrefix,
            minimum_prefix_tokens,
            maximum_breakpoints: 0,
            routing_key,
            retention_hint,
            opt_out: false,
            content: unique(content),
            boundaries: Vec::new(),
            retentions,
        };
        assert(made@.retentions =~= default_retentions(PromptCacheMechanism::AutomaticPrefix));
        assert(made@.boundaries =~= Seq::<PromptCacheBoundary>::empty());
        made
    }

    /// Automatic cache usage reporting with no request control.
    pub fn provider_managed(minimum_prefix_tokens: u32, content: &[PromptCacheContent]) -> (made:
        Self)
        ensures
            made@ == (MechanismCapabilityView {
                mechanism: PromptCacheMechanism::ProviderManagedUsageOnly,
                minimum_prefix_tokens,
                maximum_breakpoints: 0,
                routing_key: false,
                retention_hint: false,
                opt_out: false,
                content: distinct_in_order(content@),
                boundaries: Seq::empty(),
                retentions: default_retentions(PromptCacheMechanism::ProviderManagedUsageOnly),
            }),
    {
        let mut retentions = Vec::new();
        retentions.push(PromptCacheRetentionClass::ProviderDefault);
        let made = Self {
            mechanism: PromptCacheMechanism::ProviderManagedUsageOnly,
            minimum_prefix_tokens,
            maximum_breakpoints: 0,
            routing_key: false,
            retention_hint: false,
            opt_out: false,
            content: unique(content),
            boundaries: Vec::new(),
            retentions,
        };
        assert(made@.retentions =~= default_retentions(
            PromptCacheMechanism::ProviderManagedUsageOnly,
        ));
        assert(made@.boundaries =~= Seq::<PromptCacheBoundary>::empty());
        made
    }

    /// A request that marks explicit legal prefix boundaries.
    pub fn explicit_breakpoints(
        minimum_prefix_tokens: u32,
        maximum_breakpoints: u8,
        boundaries: &[PromptCacheBoundary],
        content: &[PromptCacheContent],
    ) -> (made: Self)
        ensures
            made@ == (MechanismCapabilityView {
                mechanism: PromptCacheMechanism::ExplicitBreakpoints,
                minimum_prefix_tokens,
                maximum_breakpoints,
                routing_key: false,
                retention_hint: true,
                opt_out: false,
                content: distinct_in_order(content@),
                boundaries: distinct_in_order(boundaries@),
                retentions: default_retentions(PromptCacheMechanism::ExplicitBreakpoints),
            }),
    {
        let mut retentions = Vec::new();
        retentions.push(PromptCacheRetentionClass::ProviderDefault);
        retentions.push(PromptCacheRetentionClass::Ephemeral);
        retentions.push(PromptCacheRetentionClass::Extended);
        let made = Self {
            mechanism: PromptCacheMechanism::ExplicitBreakpoints,
            minimum_prefix_tokens,
            maximum_breakpoints,
            routing_key: false,
            retention_hint: true,
            opt_out: false,
            content: unique(content),
            boundaries: unique(boundaries),
            retentions,
        };
        assert(made@.retentions =~= default_retentions(
            PromptCacheMechanism::ExplicitBreakpoints,
        ));
        made
    }

    /// A separately managed cached-content resource.
    pub fn persistent_content(minimum_prefix_tokens: u32, content: &[PromptCacheContent]) -> (made:
        Self)
        ensures
            made@ == (MechanismCapabilityView {
                mechanism: PromptCacheMechanism::PersistentContent,
                minimum_prefix_tokens,
                maximum_breakpoints: 0,
                routing_key: false,
                retention_hint: true,
                opt_out: false,
                content: distinct_in_order(content@),
                boundaries: Seq::empty(),
                retentions: default_retentions(PromptCacheMechanism::PersistentContent),
            }),
    {
        let mut retentions = Vec::new();
        retentions.push(PromptCacheRetentionClass::ProviderDefault);
        retentions.push(PromptCacheRetentionClass::Extended);
        let made = Self {
            mechanism: PromptCacheMechanism::PersistentContent,
            minimum_prefix_tokens,
            maximum_breakpoints: 0,
            routing_key: false,
            retention_hint: true,
            opt_out: false,
            content: unique(content),
            boundaries: Vec::new(),
            retentions,
        };
        assert(made@.retentions =~= default_retentions(PromptCacheMechanism::PersistentContent));
        assert(made@.boundaries =~= Seq::<PromptCacheBoundary>::empty());
        made
    }

    /// Marks that this mechanism can encode a documented cache opt-out.
    pub fn with_opt_out(self) -> (made: Self)
        ensures
            made@ == (MechanismCapabilityView { opt_out: true, ..self@ }),
    {
        let mut made = self;
        made.opt_out = true;
        made
    }

    /// Replaces the reviewed retention classes for this exact mechanism.
    pub fn with_retentions(self, retentions: &[PromptCacheRetentionClass]) -> (made: Self)
        ensures
            made@ == (MechanismCapabilityView {
                retentions: distinct_in_order(retentions@),
                ..self@
            }),
    {
        let mut made = self;
        made.retentions = unique(retentions);
        made
    }

    /// The neutral mechanism kind.
    pub fn mechanism(&self) -> (m: PromptCacheMechanism)
        ensures
            m == self@.mechanism,
    {
        self.mechanism
    }

    /// Smallest eligible stable prefix in tokens.
    pub fn minimum_prefix_tokens(&self) -> (tokens: u32)
        ensures
            tokens == self@.minimum_prefix_tokens,
    {
        self.minimum_prefix_tokens
    }

    /// Greatest explicit markers accepted; zero for other mechanisms.
    pub fn maximum_breakpoints(&self) -> (markers: u8)
        ensures
            markers == self@.maximum_breakpoints,
    {
        self.maximum_breakpoints
    }

    /// Whether a stable routing key can be encoded.
    pub fn supports_routing_key(&self) -> (supported: bool)
        ensures
            supported == self@.routing_key,
    {
        self.routing_key
    }

    /// Whether a retention hint can be encoded.
    pub fn supports_retention_hint(&self) -> (supported: bool)
        ensures
            supported == self@.retention_hint,
    {
        self.retention_hint
    }

    /// Whether a documented cache opt-out can be encoded.
    pub fn supports_opt_out(&self) -> (supported: bool)
        ensures
            supported == self@.opt_out,
    {
        self.opt_out
    }

    /// Provider-visible content kinds eligible under this mechanism.
    pub fn content(&self) -> (content: &[PromptCacheContent])
        ensures
            content@ == self@.content,
    {
        self.content.as_slice()
    }

    /// Neutral boundary positions the adapter may encode.
    pub fn boundaries(&self) -> (boundaries: &[PromptCacheBoundary])
        ensures
            boundaries@ == self@.boundaries,
    {
        self.boundaries.as_slice()
    }

    /// Retention classes the model/endpoint record permits.
    pub fn retentions(&self) -> (retentions: &[PromptCacheRetentionClass])
        ensures
            retentions@ == self@.retentions,
    {
        self.retentions.as_slice()
    }

    /// An exact copy.
    pub fn copy(&self) -> (copied: Self)
        ensures
            copied@ == self@,
    {
        Self {
            mechanism: self.mechanism,
            minimum_prefix_tokens: self.minimum_prefix_tokens,
            maximum_breakpoints: self.maximum_breakpoints,
            routing_key: self.routing_key,
            retention_hint: self.retention_hint,
            opt_out: self.opt_out,
            content: copied(self.content.as_slice()),
            boundaries: copied(self.boundaries.as_slice()),
            retentions: copied(self.retentions.as_slice()),
        }
    }

    /// What this adapter mechanism and one model record of the same kind
    /// support together; `None` for two different kinds.
    pub fn intersection(&self, model: &Self) -> (met: Option<Self>)
        ensures
            met matches Some(m) ==> mechanism_meet(self@, model@) == Some(m@),
            met is None <==> mechanism_meet(self@, model@) is None,
    {
        if self.mechanism.code() != model.mechanism.code() {
            proof {
                PromptCacheMechanism::lemma_code_injective(self.mechanism, model.mechanism);
            }
            return None;
        }
        proof {
            PromptCacheMechanism::lemma_code_injective(self.mechanism, model.mechanism);
        }
        let minimum_prefix_tokens = if self.minimum_prefix_tokens >= model.minimum_prefix_tokens {
            self.minimum_prefix_tokens
        } else {
            model.minimum_prefix_tokens
        };
        let maximum_breakpoints = if self.maximum_breakpoints <= model.maximum_breakpoints {
            self.maximum_breakpoints
        } else {
            model.maximum_breakpoints
        };
        Some(
            Self {
                mechanism: self.mechanism,
                minimum_prefix_tokens,
                maximum_breakpoints,
                routing_key: self.routing_key && model.routing_key,
                retention_hint: self.retention_hint && model.retention_hint,
                opt_out: self.opt_out && model.opt_out,
                content: common(self.content.as_slice(), model.content.as_slice()),
                boundaries: common(self.boundaries.as_slice(), model.boundaries.as_slice()),
                retentions: common(self.retentions.as_slice(), model.retentions.as_slice()),
            },
        )
    }

    fn usable(&self) -> (usable: bool)
        ensures
            usable == mechanism_usable(self@),
    {
        self.content.len() != 0 && self.retentions.len() != 0 && (self.mechanism.code() != 2 || (
        self.boundaries.len() != 0 && self.maximum_breakpoints > 0))
    }
}

/// The mathematical content of one effective capability record.
pub struct CapabilitiesView {
    pub support: PromptCacheSupport,
    pub record_version: &'static str,
    pub model_revision: Option<&'static str>,
    pub provenance: Option<PromptCacheProvenance>,
    pub transport: StatefulTransportCapability,
    pub mechanisms: Seq<MechanismCapabilityView>,
    pub usage: PromptCacheUsageReporting,
}

/// The exact effective cache capabilities for one provider request route.
#[derive(Debug, Clone, PartialEq, Eq)]
pub struct PromptCacheCapabilities {
    support: PromptCacheSupport,
    record_version: &'static str,
    model_revision: Option<&'static str>,
    provenance: Option<PromptCacheProvenance>,
    transport: StatefulTransportCapability,
    mechanisms: Vec<PromptCacheMechanismCapability>,
    usage: PromptCacheUsageReporting,
}

impl View for PromptCacheCapabilities {
    type V = CapabilitiesView;

    closed spec fn view(&self) -> CapabilitiesView {
        CapabilitiesView {
            support: self.support,
            record_version: self.record_version,
            model_revision: self.model_revision,
            provenance: self.provenance,
            transport: self.transport,
            mechanisms: self.mechanisms@.map_values(|m: PromptCacheMechanismCapability| m@),
            usage: self.usage,
        }
    }
}

/// What an adapter can encode and what the exact model/route supports, taken
/// together: an unknown side decides the whole answer, an unsupported side
/// keeps its record with the shared transport, and two supported records meet
/// mechanism by mechanism in the adapter's order under the model's record.
pub open spec fn capabilities_meet(adapter: CapabilitiesView, model: CapabilitiesView) -> CapabilitiesView {
    if adapter.support is Unknown {
        adapter
    } else if model.support is Unknown {
        model
    } else if adapter.support is Unsupported {
        CapabilitiesView { transport: transport_meet(adapter.transport, model.transport), ..adapter }
    } else if model.support is Unsupported {
        CapabilitiesView { transport: transport_meet(adapter.transport, model.transport), ..model }
    } else {
        let mechanisms = mechanisms_meet(adapter.mechanisms, model.mechanisms);
        CapabilitiesView {
            support: if mechanisms.len() == 0 {
                PromptCacheSupport::Unsupported
            } else {
                PromptCacheSupport::Supported
            },
            record_version: model.record_version,
            model_revision: model.model_revision,
            provenance: model.provenance,
            transport: transport_meet(adapter.transport, model.transport),
            mechanisms,
            usage: usage_meet(adapter.usage, model.usage),
        }
    }
}

/// How two capability records meet: an unknown side (the adapter's first)
/// decides the whole answer; otherwise the result is never unknown, it is
/// supported exactly where both sides are and some mechanism survives, else
/// unsupported, and its transport is unknown if either side's is, else
/// unsupported if either side's is, else supported.
pub proof fn lemma_capabilities_meet(adapter: CapabilitiesView, model: CapabilitiesView)
    ensures
        adapter.support is Unknown ==> capabilities_meet(adapter, model) == adapter,
        !(adapter.support is Unknown) && model.support is Unknown ==> capabilities_meet(
            adapter,
            model,
        ) == model,
        !(adapter.support is Unknown) && !(model.support is Unknown) ==> {
            let met = capabilities_meet(adapter, model);
            &&& !(met.support is Unknown)
            &&& met.support is Supported <==> (adapter.support is Supported && model.support
                is Supported && met.mechanisms.len() != 0)
            &&& (met.transport is Unknown <==> (adapter.transport is Unknown
                || model.transport is Unknown))
            &&& (met.transport is Unsupported <==> (!(adapter.transport is Unknown)
                && !(model.transport is Unknown) && (adapter.transport is Unsupported
                || model.transport is Unsupported)))
        },
{
}

proof fn lemma_first_of_kind_is_of_kind(
    records: Seq<MechanismCapabilityView>,
    kind: PromptCacheMechanism,
    from: int,
)
    ensures
        first_of_kind(records, kind, from) matches Some(m) ==> m.mechanism == kind,
    decreases records.len() - from,
{
    if 0 <= from < records.len() && records[from].mechanism != kind {
        lemma_first_of_kind_is_of_kind(records, kind, from + 1);
    }
}

/// The adapter positions the kept mechanisms come from, in order.
proof fn meet_sources(adapter: Seq<MechanismCapabilityView>, model: Seq<MechanismCapabilityView>) -> (sources: Seq<int>)
    ensures
        sources.len() == mechanisms_meet(adapter, model).len(),
        forall|j: int, k: int| 0 <= j < k < sources.len() ==> sources[j] < sources[k],
        forall|k: int|
            0 <= k < sources.len() ==> {
                &&& 0 <= #[trigger] sources[k] < adapter.len()
                &&& first_of_kind(model, adapter[sources[k]].mechanism, 0) matches Some(m)
                    && mechanism_meet(adapter[sources[k]], m) == Some(
                    mechanisms_meet(adapter, model)[k],
                )
                &&& mechanism_usable(mechanisms_meet(adapter, model)[k])
            },
    decreases adapter.len(),
{
    if adapter.len() == 0 {
        Seq::empty()
    } else {
        let rest = adapter.drop_last();
        let before = meet_sources(rest, model);
        assert forall|k: int| 0 <= k < before.len() implies adapter[before[k]] == rest[before[k]] by {}
        let last = (adapter.len() - 1) as int;
        match first_of_kind(model, adapter.last().mechanism, 0) {
            Some(candidate) => match mechanism_meet(adapter.last(), candidate) {
                Some(met) => if mechanism_usable(met) {
                    before.push(last)
                } else {
                    before
                },
                None => before,
            },
            None => before,
        }
    }
}

/// Two supported records meet mechanism by mechanism: every mechanism the
/// intersection keeps comes from an adapter mechanism whose kind the model
/// also offers, the kept ones stand in the adapter's order, each takes the
/// larger minimum prefix and the fewer breakpoints of the adapter's record and
/// the model's first record of that kind, and each is still usable.
pub proof fn lemma_intersection_keeps_shared_kinds_in_adapter_order(
    adapter: CapabilitiesView,
    model: CapabilitiesView,
)
    requires
        adapter.support is Supported,
        model.support is Supported,
    ensures
        ({
            let met = capabilities_meet(adapter, model).mechanisms;
            exists|sources: Seq<int>|
                {
                    &&& sources.len() == met.len()
                    &&& forall|j: int, k: int| 0 <= j < k < sources.len() ==> sources[j] < sources[k]
                    &&& forall|k: int|
                        0 <= k < met.len() ==> {
                            let offered = adapter.mechanisms[#[trigger] sources[k]];
                            &&& 0 <= sources[k] < adapter.mechanisms.len()
                            &&& first_of_kind(model.mechanisms, offered.mechanism, 0) matches Some(
                                served,
                            ) && {
                                &&& served.mechanism == offered.mechanism
                                &&& met[k].mechanism == offered.mechanism
                                &&& met[k].minimum_prefix_tokens == if offered.minimum_prefix_tokens
                                    >= served.minimum_prefix_tokens {
                                    offered.minimum_prefix_tokens
                                } else {
                                    served.minimum_prefix_tokens
                                }
                                &&& met[k].maximum_breakpoints == if offered.maximum_breakpoints
                                    <= served.maximum_breakpoints {
                                    offered.maximum_breakpoints
                                } else {
                                    served.maximum_breakpoints
                                }
                            }
                            &&& mechanism_usable(met[k])
                        }
                }
        }),
{
    let met = capabilities_meet(adapter, model).mechanisms;
    let sources = meet_sources(adapter.mechanisms, model.mechanisms);
    assert forall|k: int| 0 <= k < met.len() implies {
        let offered = adapter.mechanisms[#[trigger] sources[k]];
        first_of_kind(model.mechanisms, offered.mechanism, 0) matches Some(served) ==> served.mechanism
            == offered.mechanism
    } by {
        lemma_first_of_kind_is_of_kind(model.mechanisms, adapter.mechanisms[sources[k]].mechanism, 0);
    }
}

fn copy_mechanisms(records: &Vec<PromptCacheMechanismCapability>) -> (out: Vec<
    PromptCacheMechanismCapability,
>)
    ensures
        out@.map_values(|m: PromptCacheMechanismCapability| m@) == records@.map_values(
            |m: PromptCacheMechanismCapability| m@,
        ),
{
    let mut out: Vec<PromptCacheMechanismCapability> = Vec::new();
    let mut i: usize = 0;
    while i < records.len()
        invariant
            0 <= i <= records@.len(),
            out@.len() == i,
            forall|j: int| 0 <= j < i ==> (#[trigger] out@[j])@ == records@[j]@,
        decreases records@.len() - i,
    {
        out.push(records[i].copy());
        i = i + 1;
    }
    assert(out@.map_values(|m: PromptCacheMechanismCapability| m@) =~= records@.map_values(
        |m: PromptCacheMechanismCapability| m@,
    ));
    out
}

impl PromptCacheCapabilities {
    /// No verified record exists, so no request control may be guessed.
    pub fn unknown(reason: &'static str) -> (made: Self)
        ensures
            made@ == (CapabilitiesView {
                support: PromptCacheSupport::Unknown,
                record_version: reason,
                model_revision: None,
                provenance: None,
                transport: StatefulTransportCapability::Unknown,
                mechanisms: Seq::empty(),
                usage: PromptCacheUsageReporting::NoDetail,
            }),
    {
        let made = Self {
            support: PromptCacheSupport::Unknown,
            record_version: reason,
            model_revision: None,
            provenance: None,
            transport: StatefulTransportCapability::Unknown,
            mechanisms: Vec::new(),
            usage: PromptCacheUsageReporting::NoDetail,
        };
        assert(made@.mechanisms =~= Seq::<MechanismCapabilityView>::empty());
        made
    }

    /// A verified negative record.
    pub fn unsupported(
        record_version: &'static str,
        provenance: PromptCacheProvenance,
        transport: StatefulTransportCapability,
    ) -> (made: Self)
        ensures
            made@ == (CapabilitiesView {
                support: PromptCacheSupport::Unsupported,
                record_version,
                model_revision: None,
                provenance: Some(provenance),
                transport,
                mechanisms: Seq::empty(),
                usage: PromptCacheUsageReporting::NoDetail,
            }),
    {
        let made = Self {
            support: PromptCacheSupport::Unsupported,
            record_version,
            model_revision: None,
            provenance: Some(provenance),
            transport,
            mechanisms: Vec::new(),
            usage: PromptCacheUsageReporting::NoDetail,
        };
        assert(made@.mechanisms =~= Seq::<MechanismCapabilityView>::empty());
        made
    }

    /// A reviewed, ordered set of one to [`MAX_PROMPT_CACHE_MECHANISMS`]
    /// mechanisms. Records are compiled code, so a record outside that bound is
    /// a developer defect that callers must not construct.
    pub fn supported(
        record_version: &'static str,
        model_revision: Option<&'static str>,
        provenance: PromptCacheProvenance,
        transport: StatefulTransportCapability,
        mechanisms: &[PromptCacheMechanismCapability],
        usage: PromptCacheUsageReporting,
    ) -> (made: Self)
        requires
            1 <= mechanisms@.len() <= MAX_PROMPT_CACHE_MECHANISMS,
        ensures
            made@ == (CapabilitiesView {
                support: PromptCacheSupport::Supported,
                record_version,
                model_revision,
                provenance: Some(provenance),
                transport,
                mechanisms: mechanisms@.map_values(|m: PromptCacheMechanismCapability| m@),
                usage,
            }),
    {
        let mut copies: Vec<PromptCacheMechanismCapability> = Vec::new();
        let mut i: usize = 0;
        while i < mechanisms.len()
            invariant
                0 <= i <= mechanisms@.len(),
                copies@.len() == i,
                forall|j: int| 0 <= j < i ==> (#[trigger] copies@[j])@ == mechanisms@[j]@,
            decreases mechanisms@.len() - i,
        {
            copies.push(mechanisms[i].copy());
            i = i + 1;
        }
        let made = Self {
            support: PromptCacheSupport::Supported,
            record_version,
            model_revision,
            provenance: Some(provenance),
            transport,
            mechanisms: copies,
            usage,
        };
        assert(made@.mechanisms =~= mechanisms@.map_values(|m: PromptCacheMechanismCapability| m@));
        made
    }

    /// An exact copy.
    pub fn copy(&self) -> (copied: Self)
        ensures
            copied@ == self@,
    {
        Self {
            support: self.support,
            record_version: self.record_version,
            model_revision: self.model_revision,
            provenance: self.provenance,
            transport: self.transport,
            mechanisms: copy_mechanisms(&self.mechanisms),
            usage: self.usage,
        }
    }

    /// Intersects what the adapter can encode with what the exact model/route supports.
    pub fn intersection(&self, model: &Self) -> (met: Self)
        ensures
            met@ == capabilities_meet(self@, model@),
    {
        if self.support == PromptCacheSupport::Unknown {
            return self.copy();
        }
        if model.support == PromptCacheSupport::Unknown {
            return model.copy();
        }
        let transport = self.transport.intersection(model.transport);
        if self.support == PromptCacheSupport::Unsupported {
            let mut answer = self.copy();
            answer.transport = transport;
            return answer;
        }
        if model.support == PromptCacheSupport::Unsupported {
            let mut answer = model.copy();
            answer.transport = transport;
            return answer;
        }
        let ghost adapter_view = self@.mechanisms;
        let ghost model_view = model@.mechanisms;
        let mut mechanisms: Vec<PromptCacheMechanismCapability> = Vec::new();
        let mut i: usize = 0;
        while i < self.mechanisms.len()
            invariant
                0 <= i <= self.mechanisms@.len(),
                adapter_view == self@.mechanisms,
                model_view == model@.mechanisms,
                adapter_view.len() == self.mechanisms@.len(),
                mechanisms@.map_values(|m: PromptCacheMechanismCapability| m@) == mechanisms_meet(
                    adapter_view.take(i as int),
                    model_view,
                ),
            decreases self.mechanisms@.len() - i,
        {
            let adapter = &self.mechanisms[i];
            assert(adapter_view.take(i + 1).drop_last() =~= adapter_view.take(i as int));
            assert(adapter_view.take(i + 1).last() == adapter@);
            let kind = adapter.mechanism;
            let mut j: usize = 0;
            let mut found: Option<usize> = None;
            while j < model.mechanisms.len()
                invariant_except_break
                    found is None,
                    first_of_kind(model_view, kind, 0) == first_of_kind(model_view, kind, j as int),
                invariant
                    0 <= j <= model.mechanisms@.len(),
                    model_view == model@.mechanisms,
                    model_view.len() == model.mechanisms@.len(),
                ensures
                    found matches Some(at) ==> at < model.mechanisms@.len() && first_of_kind(
                        model_view,
                        kind,
                        0,
                    ) == Some(model_view[at as int]),
                    found is None ==> first_of_kind(model_view, kind, 0) is None,
                decreases model.mechanisms@.len() - j,
            {
                if model.mechanisms[j].mechanism.code() == kind.code() {
                    proof {
                        PromptCacheMechanism::lemma_code_injective(
                            model.mechanisms@[j as int].mechanism,
                            kind,
                        );
                        assert(model_view[j as int] == model.mechanisms@[j as int]@);
                    }
                    found = Some(j);
                    break;
                }
                proof {
                    PromptCacheMechanism::lemma_code_injective(
                        model.mechanisms@[j as int].mechanism,
                        kind,
                    );
                    assert(model_view[j as int] == model.mechanisms@[j as int]@);
                }
                j = j + 1;
            }
            let ghost before = mechanisms@.map_values(|m: PromptCacheMechanismCapability| m@);
            match found {
                Some(at) => {
                    assert(first_of_kind(model_view, kind, 0) == Some(model_view[at as int]));
                    let met = adapter.intersection(&model.mechanisms[at]);
                    match met {
                        Some(met) => {
                            if met.usable() {
                                mechanisms.push(met);
                                assert(mechanisms@.map_values(
                                    |m: PromptCacheMechanismCapability| m@,
                                ) =~= before.push(met@));
                            }
                        },
                        None => {},
                    }
                },
                None => {
                    assert(first_of_kind(model_view, kind, 0) is None);
                },
            }
            i = i + 1;
        }
        assert(adapter_view.take(self.mechanisms@.len() as int) =~= adapter_view);
        let usage = usage_meet_exec(self.usage, model.usage);
        if mechanisms.len() == 0 {
            return Self {
                support: PromptCacheSupport::Unsupported,
                record_version: model.record_version,
                model_revision: model.model_revision,
                provenance: model.provenance,
                transport,
                mechanisms,
                usage,
            };
        }
        Self {
            support: PromptCacheSupport::Supported,
            record_version: model.record_version,
            model_revision: model.model_revision,
            provenance: model.provenance,
            transport,
            mechanisms,
            usage,
        }
    }

    /// Declared support state.
    pub fn support(&self) -> (support: PromptCacheSupport)
        ensures
            support == self@.support,
    {
        self.support
    }

    /// Exact ordered effective mechanisms.
    pub fn mechanisms(&self) -> (mechanisms: &[PromptCacheMechanismCapability])
        ensures
            mechanisms@.map_values(|m: PromptCacheMechanismCapability| m@) == self@.mechanisms,
    {
        self.mechanisms.as_slice()
    }

    /// Stateful response-continuation capability, on its own axis.
    pub fn transport(&self) -> (transport: StatefulTransportCapability)
        ensures
            transport == self@.transport,
    {
        self.transport
    }

    /// Cache-specific usage detail available from the response.
    pub fn usage(&self) -> (usage: PromptCacheUsageReporting)
        ensures
            usage == self@.usage,
    {
        self.usage
    }

    /// Version of the exact compiled endpoint/model record.
    pub fn record_version(&self) -> (version: &'static str)
        ensures
            version == self@.record_version,
    {
        self.record_version
    }

    /// Resolved model revision, when the provider publishes one.
    pub fn model_revision(&self) -> (revision: Option<&'static str>)
        ensures
            revision == self@.model_revision,
    {
        self.model_revision
    }

    /// Source and review date behind this claim, absent for unknown routes.
    pub fn provenance(&self) -> (provenance: Option<PromptCacheProvenance>)
        ensures
            provenance == self@.provenance,
    {
        self.provenance
    }
}

} // verus!
