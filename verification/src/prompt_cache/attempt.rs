//! One planned provider prompt-cache attempt: identity, plan and selection.

use vstd::prelude::*;
use vstd::string::StringSliceAdditionalSpecFns;

use super::capability::{
    CapabilitiesView, MechanismCapabilityView, PromptCacheBoundary, PromptCacheCapabilities,
    PromptCacheMechanism, PromptCacheMechanismCapability, PromptCacheRetentionClass,
    PromptCacheSupport,
};
use super::policy::{PolicyView, PromptCacheMode, PromptCachePersistentMode, PromptCachePolicy};
use super::projection::{
    content_within, PromptCacheBoundaryPoint, PromptCacheContentSet, PromptCacheProjection,
};
use crate::text::{all_ascii, lemma_ascii_is_utf8, utf8_text};

verus! {

/// Cryptographic fingerprint of only the canonical stable provider prefix.
#[derive(Clone, Copy, PartialEq, Eq, Hash)]
pub struct PromptCacheFingerprint([u8; 32]);

impl PromptCacheFingerprint {
    /// The digest bytes.
    pub closed spec fn digest(self) -> Seq<u8> {
        self.0@
    }

    /// Takes the output of the domain-separated stable-prefix digest.
    pub fn new(digest: [u8; 32]) -> (fingerprint: Self)
        ensures
            fingerprint.digest() == digest@,
    {
        Self(digest)
    }

    /// Bytes for the second, scope-binding identity digest.
    pub fn bytes(self) -> (bytes: [u8; 32])
        ensures
            bytes@ == self.digest(),
    {
        self.0
    }
}

/// Digest of authority, endpoint, credential, model, and sharing scope.
#[derive(Clone, Copy, PartialEq, Eq, Hash)]
pub struct PromptCacheScopeDigest([u8; 32]);

impl PromptCacheScopeDigest {
    /// The digest bytes.
    pub closed spec fn digest(self) -> Seq<u8> {
        self.0@
    }

    /// Takes a domain-separated digest derived by the runner.
    pub fn new(digest: [u8; 32]) -> (scope: Self)
        ensures
            scope.digest() == digest@,
    {
        Self(digest)
    }

    /// Bytes used to derive the bounded provider routing key.
    pub fn bytes(self) -> (bytes: [u8; 32])
        ensures
            bytes@ == self.digest(),
    {
        self.0
    }
}

/// Complete local cache identity before provider-specific key encoding.
#[derive(Clone, Copy, PartialEq, Eq)]
pub struct PromptCacheIdentity {
    scope: PromptCacheScopeDigest,
    prefix: PromptCacheFingerprint,
    request_shape_version: &'static str,
}

/// The parts of one cache identity.
pub struct IdentityView {
    pub scope: PromptCacheScopeDigest,
    pub prefix: PromptCacheFingerprint,
    pub request_shape_version: &'static str,
}

impl View for PromptCacheIdentity {
    type V = IdentityView;

    closed spec fn view(&self) -> IdentityView {
        IdentityView {
            scope: self.scope,
            prefix: self.prefix,
            request_shape_version: self.request_shape_version,
        }
    }
}

impl PromptCacheIdentity {
    /// Binds a prefix to one exact authority/request-shape scope.
    pub fn new(
        scope: PromptCacheScopeDigest,
        prefix: PromptCacheFingerprint,
        request_shape_version: &'static str,
    ) -> (identity: Self)
        ensures
            identity@ == (IdentityView { scope, prefix, request_shape_version }),
    {
        Self { scope, prefix, request_shape_version }
    }

    /// Redacted scope digest.
    pub fn scope(self) -> (scope: PromptCacheScopeDigest)
        ensures
            scope == self@.scope,
    {
        self.scope
    }

    /// Redacted stable-prefix fingerprint.
    pub fn prefix(self) -> (prefix: PromptCacheFingerprint)
        ensures
            prefix == self@.prefix,
    {
        self.prefix
    }

    /// Adapter request-shape version bound into the identity.
    pub fn request_shape_version(self) -> (version: &'static str)
        ensures
            version == self@.request_shape_version,
    {
        self.request_shape_version
    }
}

/// The lowercase hexadecimal digit for a value below sixteen.
pub open spec fn hex_digit(value: u8) -> u8 {
    if value < 10 {
        (0x30 + value) as u8
    } else {
        (0x61 + value - 10) as u8
    }
}

/// Lowercase hexadecimal text of `digest`, two digits per byte, high first.
pub open spec fn hex_text(digest: Seq<u8>) -> Seq<u8> {
    Seq::new(
        2 * digest.len(),
        |i: int|
            if i % 2 == 0 {
                hex_digit(digest[i / 2] / 16)
            } else {
                hex_digit(digest[i / 2] % 16)
            },
    )
}

fn nybble(value: u8) -> (digit: u8)
    requires
        value < 16,
    ensures
        digit == hex_digit(value),
{
    if value < 10 {
        0x30 + value
    } else {
        0x61 + value - 10
    }
}

/// A bounded provider routing key derived from an identity, never supplied by a project.
#[derive(Clone, Copy, PartialEq, Eq, Hash)]
pub struct PromptCacheKey {
    hex: [u8; 64],
    length: u8,
}

impl PromptCacheKey {
    /// Every key is at most 64 lowercase hexadecimal digits.
    #[verifier::type_invariant]
    spec fn wf(self) -> bool {
        &&& self.length <= 64
        &&& all_ascii(self.hex@)
    }

    /// The provider-visible text.
    pub closed spec fn text(self) -> Seq<u8> {
        self.hex@.take(self.length as int)
    }

    /// Encodes a digest as lowercase hexadecimal under a provider's length limit.
    pub fn from_digest(digest: [u8; 32], maximum: usize) -> (key: Self)
        ensures
            key.text() == hex_text(digest@).take(if maximum < 64 {
                maximum as int
            } else {
                64
            }),
    {
        let length: usize = if maximum < 64 {
            maximum
        } else {
            64
        };
        let mut hex = [0u8; 64];
        let mut i: usize = 0;
        while i < 32
            invariant
                0 <= i <= 32,
                hex@.len() == 64,
                forall|j: int| 0 <= j < 2 * i ==> hex@[j] == #[trigger] hex_text(digest@)[j],
                forall|j: int| 0 <= j < 64 ==> hex@[j] < 0x80,
            decreases 32 - i,
        {
            let byte = digest[i];
            proof {
                assert(byte >> 4 == byte / 16 && byte / 16 < 16) by (bit_vector);
                assert(byte & 0x0f == byte % 16 && byte % 16 < 16) by (bit_vector);
            }
            let high = nybble(byte >> 4);
            let low = nybble(byte & 0x0f);
            hex[2 * i] = high;
            hex[2 * i + 1] = low;
            i = i + 1;
        }
        let key = Self { hex, length: length as u8 };
        assert(key.text() =~= hex_text(digest@).take(length as int));
        key
    }

    /// Provider-visible opaque text.
    pub fn as_str(&self) -> (text: &str)
        ensures
            text.spec_bytes() == self.text(),
    {
        proof {
            use_type_invariant(self);
        }
        let (label, _) = self.hex.as_slice().split_at(self.length as usize);
        proof {
            assert(label@ =~= self.text());
            assert(all_ascii(label@));
            lemma_ascii_is_utf8(label@);
        }
        match utf8_text(label) {
            Some(text) => text,
            None => "",
        }
    }
}

/// The content of one plan.
pub struct PlanView {
    pub fingerprint: PromptCacheFingerprint,
    pub stable_bytes: u64,
    pub estimated_tokens: u64,
    pub boundaries: Seq<PromptCacheBoundaryPoint>,
    pub content: PromptCacheContentSet,
}

/// Stable projection plus its fingerprint, ready for policy selection.
#[derive(Clone, PartialEq, Eq)]
pub struct PromptCachePlan {
    fingerprint: PromptCacheFingerprint,
    stable_bytes: u64,
    estimated_tokens: u64,
    boundaries: Vec<PromptCacheBoundaryPoint>,
    content: PromptCacheContentSet,
}

impl View for PromptCachePlan {
    type V = PlanView;

    closed spec fn view(&self) -> PlanView {
        PlanView {
            fingerprint: self.fingerprint,
            stable_bytes: self.stable_bytes,
            estimated_tokens: self.estimated_tokens,
            boundaries: self.boundaries@,
            content: self.content,
        }
    }
}

fn copy_points(points: &[PromptCacheBoundaryPoint]) -> (out: Vec<PromptCacheBoundaryPoint>)
    ensures
        out@ == points@,
{
    let mut out: Vec<PromptCacheBoundaryPoint> = Vec::new();
    let mut i: usize = 0;
    while i < points.len()
        invariant
            0 <= i <= points@.len(),
            out@ == points@.take(i as int),
        decreases points@.len() - i,
    {
        out.push(points[i]);
        assert(points@.take(i + 1) =~= points@.take(i as int).push(points@[i as int]));
        i = i + 1;
    }
    assert(points@.take(points@.len() as int) =~= points@);
    out
}

impl PromptCachePlan {
    /// Joins a projection with the digest produced by its canonical byte stream.
    pub fn new(projection: &PromptCacheProjection, fingerprint: PromptCacheFingerprint) -> (plan:
        Self)
        ensures
            plan@ == (PlanView {
                fingerprint,
                stable_bytes: projection@.stable_bytes,
                estimated_tokens: projection@.estimated_tokens,
                boundaries: projection@.boundaries,
                content: projection@.content,
            }),
    {
        Self {
            fingerprint,
            stable_bytes: projection.stable_bytes(),
            estimated_tokens: projection.estimated_tokens(),
            boundaries: copy_points(projection.boundaries()),
            content: projection.content(),
        }
    }

    /// A plan over a fixed fingerprint whose boundaries are the given kinds
    /// after segments one, two, and so on.
    pub fn fixture(
        stable_bytes: u64,
        estimated_tokens: u64,
        boundaries: &[PromptCacheBoundary],
        content: PromptCacheContentSet,
    ) -> (plan: Self)
        requires
            boundaries@.len() < u32::MAX,
        ensures
            plan@.fingerprint.digest() == Seq::new(32, |i: int| 0x11u8),
            plan@.stable_bytes == stable_bytes,
            plan@.estimated_tokens == estimated_tokens,
            plan@.content == content,
            plan@.boundaries.len() == boundaries@.len(),
            forall|i: int|
                0 <= i < boundaries@.len() ==> (#[trigger] plan@.boundaries[i])@.kind
                    == boundaries@[i] && plan@.boundaries[i]@.segment == i + 1
                    && plan@.boundaries[i]@.message is None,
    {
        let mut points: Vec<PromptCacheBoundaryPoint> = Vec::new();
        let mut i: usize = 0;
        while i < boundaries.len()
            invariant
                0 <= i <= boundaries@.len(),
                boundaries@.len() < u32::MAX,
                points@.len() == i,
                forall|j: int|
                    0 <= j < i ==> (#[trigger] points@[j])@.kind == boundaries@[j]
                        && points@[j]@.segment == j + 1 && points@[j]@.message is None,
            decreases boundaries@.len() - i,
        {
            points.push(PromptCacheBoundaryPoint::fixture(boundaries[i], (i + 1) as u32));
            i = i + 1;
        }
        let fingerprint = PromptCacheFingerprint::new([0x11u8; 32]);
        assert(fingerprint.digest() =~= Seq::new(32, |i: int| 0x11u8));
        Self { fingerprint, stable_bytes, estimated_tokens, boundaries: points, content }
    }

    /// Redacted stable-prefix fingerprint.
    pub fn fingerprint(&self) -> (fingerprint: PromptCacheFingerprint)
        ensures
            fingerprint == self@.fingerprint,
    {
        self.fingerprint
    }

    /// Exact bytes in the canonical projection.
    pub fn stable_bytes(&self) -> (bytes: u64)
        ensures
            bytes == self@.stable_bytes,
    {
        self.stable_bytes
    }

    /// Conservative provider-neutral token estimate used only for eligibility.
    pub fn estimated_tokens(&self) -> (tokens: u64)
        ensures
            tokens == self@.estimated_tokens,
    {
        self.estimated_tokens
    }

    /// Legal neutral boundaries, in semantic order.
    pub fn boundaries(&self) -> (boundaries: &[PromptCacheBoundaryPoint])
        ensures
            boundaries@ == self@.boundaries,
    {
        self.boundaries.as_slice()
    }

    /// Provider-visible content kinds in the stable prefix.
    pub fn content(&self) -> (content: PromptCacheContentSet)
        ensures
            content == self@.content,
    {
        self.content
    }
}

/// Stable reason a candidate cannot be used for this request.
#[derive(Debug, Clone, Copy, PartialEq, Eq, Structural)]
pub enum PromptCacheIneligibleReason {
    /// Explicit observe-only policy requested no controls.
    ObserveOnly,
    /// Capability record is unknown for this route/model.
    UnknownSupport,
    /// Capability record is a verified negative.
    Unsupported,
    /// The stable prefix is empty.
    EmptyPrefix,
    /// The estimated prefix is below the provider's documented threshold.
    BelowMinimum,
    /// Stable content includes a kind this mechanism does not accept.
    UnsupportedContent,
    /// No legal explicit boundary remains.
    UnsupportedBoundary,
    /// More breakpoints are needed than the endpoint permits.
    TooManyBreakpoints,
    /// Requested retention is outside the capability/policy intersection.
    DisallowedRetention,
    /// Policy filtered out every mechanism.
    MechanismDisallowed,
    /// A persistent resource was forbidden or unavailable.
    ResourceUnavailable,
    /// Privacy prohibition had no verified opt-out.
    OptOutUnavailable,
    /// Inherited policy was contradictory.
    PolicyConflict,
}

/// Prediction made before the provider responds.
#[derive(Debug, Clone, Copy, PartialEq, Eq, Structural)]
pub enum PromptCacheEligibility {
    /// Request shape is eligible under the reviewed record.
    Eligible,
    /// Request shape is not eligible, for one stable reason.
    Ineligible(PromptCacheIneligibleReason),
}

/// The content of one selected mechanism.
pub struct SelectedView {
    pub mechanism: PromptCacheMechanism,
    pub retention: PromptCacheRetentionClass,
}

/// One selected mechanism and retention class.
#[derive(Debug, Clone, Copy, PartialEq, Eq, Structural)]
pub struct PromptCacheSelected {
    mechanism: PromptCacheMechanism,
    retention: PromptCacheRetentionClass,
}

impl View for PromptCacheSelected {
    type V = SelectedView;

    closed spec fn view(&self) -> SelectedView {
        SelectedView { mechanism: self.mechanism, retention: self.retention }
    }
}

impl PromptCacheSelected {
    /// A reviewed mechanism selected under policy.
    pub fn new(mechanism: PromptCacheMechanism, retention: PromptCacheRetentionClass) -> (selected:
        Self)
        ensures
            selected@ == (SelectedView { mechanism, retention }),
    {
        Self { mechanism, retention }
    }

    /// Neutral mechanism kind.
    pub fn mechanism(self) -> (mechanism: PromptCacheMechanism)
        ensures
            mechanism == self@.mechanism,
    {
        self.mechanism
    }

    /// Effective retention class.
    pub fn retention(self) -> (retention: PromptCacheRetentionClass)
        ensures
            retention == self@.retention,
    {
        self.retention
    }
}

/// The content of one selection.
pub struct SelectionView {
    pub selected: Option<SelectedView>,
    pub eligibility: PromptCacheEligibility,
}

/// A selection of `selected`, predicted eligible.
pub open spec fn eligible_view(selected: SelectedView) -> SelectionView {
    SelectionView { selected: Some(selected), eligibility: PromptCacheEligibility::Eligible }
}

/// No selection, for `reason`.
pub open spec fn ineligible_view(reason: PromptCacheIneligibleReason) -> SelectionView {
    SelectionView { selected: None, eligibility: PromptCacheEligibility::Ineligible(reason) }
}

/// Selection and predicted eligibility, kept distinct.
#[derive(Debug, Clone, Copy, PartialEq, Eq, Structural)]
pub struct PromptCacheSelection {
    selected: Option<PromptCacheSelected>,
    eligibility: PromptCacheEligibility,
}

impl View for PromptCacheSelection {
    type V = SelectionView;

    closed spec fn view(&self) -> SelectionView {
        SelectionView {
            selected: match self.selected {
                Some(s) => Some(s@),
                None => None,
            },
            eligibility: self.eligibility,
        }
    }
}

/// Preparation failure before a provider request can be sent.
#[derive(Debug, Clone, Copy, PartialEq, Eq, Structural)]
pub enum PromptCachePreparationError {
    /// Required caching had no eligible mechanism.
    Required(PromptCacheIneligibleReason),
    /// Privacy prohibition had no verified provider opt-out.
    ProhibitedWithoutOptOut,
    /// Inherited policy was contradictory.
    PolicyConflict,
    /// The selected mechanism could not be lowered at a reviewed wire boundary.
    Encoding(PromptCacheIneligibleReason),
}

impl PromptCachePreparationError {
    /// The diagnostic sentence.
    pub fn message(&self) -> (text: &'static str)
        ensures
            text@ == match *self {
                PromptCachePreparationError::Required(_) => "prompt caching is required but no eligible reviewed mechanism is available"@,
                PromptCachePreparationError::ProhibitedWithoutOptOut => "prompt caching is prohibited but this provider/model has no verified opt-out"@,
                PromptCachePreparationError::PolicyConflict => "prompt-cache policy has an inherited conflict"@,
                PromptCachePreparationError::Encoding(_) => "prompt-cache control could not be encoded at a legal provider boundary"@,
            },
    {
        match self {
            Self::Required(_) =>
                "prompt caching is required but no eligible reviewed mechanism is available",
            Self::ProhibitedWithoutOptOut =>
                "prompt caching is prohibited but this provider/model has no verified opt-out",
            Self::PolicyConflict => "prompt-cache policy has an inherited conflict",
            Self::Encoding(_) =>
                "prompt-cache control could not be encoded at a legal provider boundary",
        }
    }
}

/// Whether some plan boundary has a kind the mechanism can encode.
pub open spec fn has_legal_boundary(
    points: Seq<PromptCacheBoundaryPoint>,
    kinds: Seq<PromptCacheBoundary>,
) -> bool {
    exists|i: int| 0 <= i < points.len() && kinds.contains(#[trigger] points[i]@.kind)
}

/// Why one mechanism cannot serve this plan under this policy, checked in
/// order: threshold, content, retention, then the mechanism's own needs.
pub open spec fn mechanism_ineligibility(
    policy: PolicyView,
    capability: MechanismCapabilityView,
    plan: PlanView,
    resource_ready: bool,
) -> Option<PromptCacheIneligibleReason> {
    if plan.estimated_tokens < capability.minimum_prefix_tokens {
        Some(PromptCacheIneligibleReason::BelowMinimum)
    } else if !content_within(plan.content, capability.content) {
        Some(PromptCacheIneligibleReason::UnsupportedContent)
    } else if !capability.retentions.contains(policy.retention.spec_class()) {
        Some(PromptCacheIneligibleReason::DisallowedRetention)
    } else {
        match capability.mechanism {
            PromptCacheMechanism::ExplicitBreakpoints => if !has_legal_boundary(
                plan.boundaries,
                capability.boundaries,
            ) {
                Some(PromptCacheIneligibleReason::UnsupportedBoundary)
            } else if capability.maximum_breakpoints == 0 {
                Some(PromptCacheIneligibleReason::TooManyBreakpoints)
            } else {
                None
            },
            PromptCacheMechanism::PersistentContent => if policy.persistent
                == PromptCachePersistentMode::Forbid || !resource_ready {
                Some(PromptCacheIneligibleReason::ResourceUnavailable)
            } else {
                None
            },
            _ => None,
        }
    }
}

/// Walks the mechanisms in record order: the first one the policy allows and
/// that is eligible is selected; otherwise the reason of the last allowed
/// candidate (or `last` where none was tried) is returned.
pub open spec fn scan_mechanisms(
    policy: PolicyView,
    mechanisms: Seq<MechanismCapabilityView>,
    plan: PlanView,
    resource_ready: bool,
    last: PromptCacheIneligibleReason,
) -> Result<SelectedView, PromptCacheIneligibleReason>
    decreases mechanisms.len(),
{
    if mechanisms.len() == 0 {
        Err(last)
    } else {
        let candidate = mechanisms[0];
        let rest = mechanisms.drop_first();
        if !policy.allowed.permits(candidate.mechanism) {
            scan_mechanisms(policy, rest, plan, resource_ready, last)
        } else {
            match mechanism_ineligibility(policy, candidate, plan, resource_ready) {
                Some(reason) => scan_mechanisms(policy, rest, plan, resource_ready, reason),
                None => Ok(
                    SelectedView {
                        mechanism: candidate.mechanism,
                        retention: policy.retention.spec_class(),
                    },
                ),
            }
        }
    }
}

/// The first mechanism, in record order, that the policy allows and that can
/// encode a documented opt-out.
pub open spec fn first_opt_out(
    policy: PolicyView,
    mechanisms: Seq<MechanismCapabilityView>,
) -> Option<PromptCacheMechanism>
    decreases mechanisms.len(),
{
    if mechanisms.len() == 0 {
        None
    } else if policy.allowed.permits(mechanisms[0].mechanism) && mechanisms[0].opt_out {
        Some(mechanisms[0].mechanism)
    } else {
        first_opt_out(policy, mechanisms.drop_first())
    }
}

/// No mechanism was selected: a required mode fails before sending, any
/// other mode falls back to an unchanged request.
pub open spec fn finished_selection(mode: PromptCacheMode, reason: PromptCacheIneligibleReason) -> Result<
    SelectionView,
    PromptCachePreparationError,
> {
    if mode == PromptCacheMode::Require {
        Err(PromptCachePreparationError::Required(reason))
    } else {
        Ok(ineligible_view(reason))
    }
}

/// The complete selection decision for one request.
pub open spec fn preparation(
    policy: PolicyView,
    capabilities: CapabilitiesView,
    plan: PlanView,
    resource_ready: bool,
) -> Result<SelectionView, PromptCachePreparationError> {
    if policy.conflict is Some || (policy.mode == PromptCacheMode::Prohibit && policy.persistent
        != PromptCachePersistentMode::Forbid) {
        Err(PromptCachePreparationError::PolicyConflict)
    } else if policy.mode == PromptCacheMode::ObserveOnly {
        Ok(ineligible_view(PromptCacheIneligibleReason::ObserveOnly))
    } else if policy.mode == PromptCacheMode::Prohibit {
        match first_opt_out(policy, capabilities.mechanisms) {
            Some(mechanism) => Ok(
                eligible_view(
                    SelectedView {
                        mechanism,
                        retention: PromptCacheRetentionClass::ProviderDefault,
                    },
                ),
            ),
            None => Err(PromptCachePreparationError::ProhibitedWithoutOptOut),
        }
    } else if capabilities.support is Unknown {
        finished_selection(policy.mode, PromptCacheIneligibleReason::UnknownSupport)
    } else if capabilities.support is Unsupported {
        finished_selection(policy.mode, PromptCacheIneligibleReason::Unsupported)
    } else if plan.stable_bytes == 0 || plan.content.has_none() {
        finished_selection(policy.mode, PromptCacheIneligibleReason::EmptyPrefix)
    } else if policy.allowed.permits_none() {
        finished_selection(policy.mode, PromptCacheIneligibleReason::MechanismDisallowed)
    } else {
        match scan_mechanisms(
            policy,
            capabilities.mechanisms,
            plan,
            resource_ready,
            PromptCacheIneligibleReason::MechanismDisallowed,
        ) {
            Ok(selected) => Ok(eligible_view(selected)),
            Err(reason) => finished_selection(policy.mode, reason),
        }
    }
}

fn any_legal_boundary(points: &[PromptCacheBoundaryPoint], kinds: &[PromptCacheBoundary]) -> (found:
    bool)
    ensures
        found == has_legal_boundary(points@, kinds@),
{
    let mut i: usize = 0;
    while i < points.len()
        invariant
            0 <= i <= points@.len(),
            forall|j: int| 0 <= j < i ==> !kinds@.contains(#[trigger] points@[j]@.kind),
        decreases points@.len() - i,
    {
        if crate::coded::contains_coded(kinds, points[i].kind()) {
            return true;
        }
        i = i + 1;
    }
    false
}

fn mechanism_reason(
    policy: &PromptCachePolicy,
    capability: &PromptCacheMechanismCapability,
    plan: &PromptCachePlan,
    resource_ready: bool,
) -> (reason: Option<PromptCacheIneligibleReason>)
    ensures
        reason == mechanism_ineligibility(policy@, capability@, plan@, resource_ready),
{
    if plan.estimated_tokens() < capability.minimum_prefix_tokens() as u64 {
        return Some(PromptCacheIneligibleReason::BelowMinimum);
    }
    if !plan.content().is_subset_of(capability.content()) {
        return Some(PromptCacheIneligibleReason::UnsupportedContent);
    }
    if !crate::coded::contains_coded(capability.retentions(), policy.retention().class()) {
        return Some(PromptCacheIneligibleReason::DisallowedRetention);
    }
    match capability.mechanism() {
        PromptCacheMechanism::ExplicitBreakpoints => {
            if !any_legal_boundary(plan.boundaries(), capability.boundaries()) {
                return Some(PromptCacheIneligibleReason::UnsupportedBoundary);
            }
            if capability.maximum_breakpoints() == 0 {
                return Some(PromptCacheIneligibleReason::TooManyBreakpoints);
            }
        },
        PromptCacheMechanism::PersistentContent => {
            if policy.persistent_resources() == PromptCachePersistentMode::Forbid
                || !resource_ready {
                return Some(PromptCacheIneligibleReason::ResourceUnavailable);
            }
        },
        PromptCacheMechanism::ProviderManagedUsageOnly | PromptCacheMechanism::AutomaticPrefix => {},
    }
    None
}

fn finish_selection(policy: &PromptCachePolicy, reason: PromptCacheIneligibleReason) -> (finished:
    Result<PromptCacheSelection, PromptCachePreparationError>)
    ensures
        match finished {
            Ok(s) => finished_selection(policy@.mode, reason) == Ok::<
                SelectionView,
                PromptCachePreparationError,
            >(s@),
            Err(e) => finished_selection(policy@.mode, reason) == Err::<
                SelectionView,
                PromptCachePreparationError,
            >(e),
        },
{
    if policy.mode() == PromptCacheMode::Require {
        Err(PromptCachePreparationError::Required(reason))
    } else {
        Ok(PromptCacheSelection::ineligible(reason))
    }
}

/// The selection result, taken by its view.
pub open spec fn selection_result_view(
    result: Result<PromptCacheSelection, PromptCachePreparationError>,
) -> Result<SelectionView, PromptCachePreparationError> {
    match result {
        Ok(s) => Ok(s@),
        Err(e) => Err(e),
    }
}

impl PromptCacheSelection {
    /// Selects the first reviewed mechanism that remains eligible under policy.
    ///
    /// `resource_ready` means a separately authorized lifecycle operation has
    /// already resolved or created a scope-matching persistent resource. This
    /// function never creates one as a side effect.
    pub fn prepare(
        policy: PromptCachePolicy,
        capabilities: &PromptCacheCapabilities,
        plan: &PromptCachePlan,
        resource_ready: bool,
    ) -> (prepared: Result<Self, PromptCachePreparationError>)
        ensures
            selection_result_view(prepared) == preparation(
                policy@,
                capabilities@,
                plan@,
                resource_ready,
            ),
    {
        if policy.conflict().is_some() || policy.validate().is_err() {
            return Err(PromptCachePreparationError::PolicyConflict);
        }
        if policy.mode() == PromptCacheMode::ObserveOnly {
            return Ok(Self::ineligible(PromptCacheIneligibleReason::ObserveOnly));
        }
        let mechanisms = capabilities.mechanisms();
        let ghost views = capabilities@.mechanisms;
        if policy.mode() == PromptCacheMode::Prohibit {
            assert(views.skip(0) =~= views);
            let mut i: usize = 0;
            while i < mechanisms.len()
                invariant
                    0 <= i <= mechanisms@.len(),
                    mechanisms@.map_values(|m: PromptCacheMechanismCapability| m@) == views,
                    views == capabilities@.mechanisms,
                    policy@.conflict is None,
                    policy@.mode == PromptCacheMode::Prohibit,
                    policy@.persistent == PromptCachePersistentMode::Forbid,
                    first_opt_out(policy@, views) == first_opt_out(
                        policy@,
                        views.skip(i as int),
                    ),
                decreases mechanisms@.len() - i,
            {
                assert(views.skip(i as int)[0] == views[i as int]);
                assert(views.skip(i as int).drop_first() =~= views.skip(i + 1));
                let mechanism = &mechanisms[i];
                assert(views[i as int] == mechanism@);
                if policy.allowed_mechanisms().contains(mechanism.mechanism())
                    && mechanism.supports_opt_out() {
                    return Ok(
                        Self::eligible(
                            PromptCacheSelected::new(
                                mechanism.mechanism(),
                                PromptCacheRetentionClass::ProviderDefault,
                            ),
                        ),
                    );
                }
                i = i + 1;
            }
            assert(views.skip(i as int).len() == 0);
            return Err(PromptCachePreparationError::ProhibitedWithoutOptOut);
        }
        match capabilities.support() {
            PromptCacheSupport::Unknown => {
                return finish_selection(&policy, PromptCacheIneligibleReason::UnknownSupport);
            },
            PromptCacheSupport::Unsupported => {
                return finish_selection(&policy, PromptCacheIneligibleReason::Unsupported);
            },
            PromptCacheSupport::Supported => {},
        }
        if plan.stable_bytes() == 0 || plan.content().is_empty() {
            return finish_selection(&policy, PromptCacheIneligibleReason::EmptyPrefix);
        }
        if policy.allowed_mechanisms().is_empty() {
            return finish_selection(&policy, PromptCacheIneligibleReason::MechanismDisallowed);
        }
        let mut last_reason = PromptCacheIneligibleReason::MechanismDisallowed;
        assert(views.skip(0) =~= views);
        let mut i: usize = 0;
        while i < mechanisms.len()
            invariant
                0 <= i <= mechanisms@.len(),
                mechanisms@.map_values(|m: PromptCacheMechanismCapability| m@) == views,
                views == capabilities@.mechanisms,
                policy@.conflict is None,
                policy@.mode != PromptCacheMode::Prohibit,
                policy@.mode != PromptCacheMode::ObserveOnly,
                capabilities@.support is Supported,
                plan@.stable_bytes != 0,
                !plan@.content.has_none(),
                !policy@.allowed.permits_none(),
                scan_mechanisms(
                    policy@,
                    views,
                    plan@,
                    resource_ready,
                    PromptCacheIneligibleReason::MechanismDisallowed,
                ) == scan_mechanisms(
                    policy@,
                    views.skip(i as int),
                    plan@,
                    resource_ready,
                    last_reason,
                ),
            decreases mechanisms@.len() - i,
        {
            assert(views.skip(i as int)[0] == views[i as int]);
            assert(views.skip(i as int).drop_first() =~= views.skip(i + 1));
            let mechanism = &mechanisms[i];
            assert(views[i as int] == mechanism@);
            if policy.allowed_mechanisms().contains(mechanism.mechanism()) {
                match mechanism_reason(&policy, mechanism, plan, resource_ready) {
                    Some(reason) => {
                        last_reason = reason;
                    },
                    None => {
                        return Ok(
                            Self::eligible(
                                PromptCacheSelected::new(
                                    mechanism.mechanism(),
                                    policy.retention().class(),
                                ),
                            ),
                        );
                    },
                }
            }
            i = i + 1;
        }
        assert(views.skip(i as int).len() == 0);
        finish_selection(&policy, last_reason)
    }

    /// Records a selected eligible mechanism.
    pub fn eligible(selected: PromptCacheSelected) -> (selection: Self)
        ensures
            selection@ == eligible_view(selected@),
    {
        Self { selected: Some(selected), eligibility: PromptCacheEligibility::Eligible }
    }

    /// Records that no eligible mechanism was selected.
    pub fn ineligible(reason: PromptCacheIneligibleReason) -> (selection: Self)
        ensures
            selection@ == ineligible_view(reason),
    {
        Self { selected: None, eligibility: PromptCacheEligibility::Ineligible(reason) }
    }

    /// Selected mechanism, if any.
    pub fn selected(self) -> (selected: Option<PromptCacheSelected>)
        ensures
            match selected {
                Some(s) => self@.selected == Some(s@),
                None => self@.selected is None,
            },
    {
        self.selected
    }

    /// Predicted request eligibility, never a provider-reported hit.
    pub fn eligibility(self) -> (eligibility: PromptCacheEligibility)
        ensures
            eligibility == self@.eligibility,
    {
        self.eligibility
    }
}

/// What cache-specific metadata the adapter actually encoded.
#[derive(Debug, Clone, Copy, PartialEq, Eq, Structural)]
pub enum PromptCacheEncoding {
    /// Policy intentionally requested no control.
    NoControlIntended,
    /// A selected automatic mechanism needs no extra request field.
    NoExtraControlEncoded,
    /// A stable routing or retention hint was encoded.
    AutomaticHintEncoded,
    /// Legal explicit boundary markers were encoded.
    BreakpointsEncoded(u8),
    /// A validated persistent resource was referenced.
    PersistentResourceReferenced,
    /// Encoding was refused before network I/O.
    Failed(PromptCacheIneligibleReason),
}

/// Whether the provider is known to have accepted the request shape.
#[derive(Debug, Clone, Copy, PartialEq, Eq, Structural)]
pub enum PromptCacheRequestDisposition {
    /// Preparation failed or cancellation occurred before send.
    NotSent,
    /// Transport may have accepted the request but no answer proved it.
    Unknown,
    /// Provider explicitly rejected the request/control.
    Rejected,
    /// Provider accepted the request shape; this says nothing about a cache hit.
    Accepted,
}

/// Provider-reported cache activity only.
#[derive(Debug, Clone, Copy, PartialEq, Eq, Structural)]
pub enum PromptCacheOutcome {
    /// Provider supplied no cache detail.
    Unreported,
    /// Provider explicitly reported no read or write activity.
    NoActivity,
    /// Provider reported cache creation/write tokens.
    Write,
    /// Provider reported cache-read tokens.
    Read,
    /// Provider reported both categories for the attempt.
    ReadAndWrite,
}

/// A mechanism the scan selects is allowed by the policy, offered by the
/// record, eligible for the plan, and carries the policy's retention class.
pub proof fn lemma_scan_selects_an_offered_mechanism(
    policy: PolicyView,
    mechanisms: Seq<MechanismCapabilityView>,
    plan: PlanView,
    resource_ready: bool,
    last: PromptCacheIneligibleReason,
)
    ensures
        scan_mechanisms(policy, mechanisms, plan, resource_ready, last) matches Ok(selected) ==> {
            &&& policy.allowed.permits(selected.mechanism)
            &&& selected.retention == policy.retention.spec_class()
            &&& exists|i: int|
                0 <= i < mechanisms.len() && (#[trigger] mechanisms[i]).mechanism
                    == selected.mechanism && mechanism_ineligibility(
                    policy,
                    mechanisms[i],
                    plan,
                    resource_ready,
                ) is None
        },
    decreases mechanisms.len(),
{
    if mechanisms.len() > 0 {
        let rest = mechanisms.drop_first();
        let candidate = mechanisms[0];
        let next = if policy.allowed.permits(candidate.mechanism) {
            match mechanism_ineligibility(policy, candidate, plan, resource_ready) {
                Some(reason) => reason,
                None => last,
            }
        } else {
            last
        };
        lemma_scan_selects_an_offered_mechanism(policy, rest, plan, resource_ready, next);
        match scan_mechanisms(policy, rest, plan, resource_ready, next) {
            Ok(selected) => {
                let i = choose|i: int|
                    0 <= i < rest.len() && (#[trigger] rest[i]).mechanism == selected.mechanism
                        && mechanism_ineligibility(policy, rest[i], plan, resource_ready) is None;
                assert(mechanisms[i + 1] == rest[i]);
            },
            Err(_) => {},
        }
    }
}

/// An opt-out mechanism that is found is allowed and offered with an opt-out.
pub proof fn lemma_opt_out_is_offered(policy: PolicyView, mechanisms: Seq<MechanismCapabilityView>)
    ensures
        first_opt_out(policy, mechanisms) matches Some(mechanism) ==> {
            &&& policy.allowed.permits(mechanism)
            &&& exists|i: int|
                0 <= i < mechanisms.len() && (#[trigger] mechanisms[i]).mechanism == mechanism
                    && mechanisms[i].opt_out
        },
        first_opt_out(policy, mechanisms) is None ==> forall|i: int|
            0 <= i < mechanisms.len() ==> !(policy.allowed.permits(
                (#[trigger] mechanisms[i]).mechanism,
            ) && mechanisms[i].opt_out),
    decreases mechanisms.len(),
{
    if mechanisms.len() > 0 {
        let rest = mechanisms.drop_first();
        lemma_opt_out_is_offered(policy, rest);
        match first_opt_out(policy, rest) {
            Some(mechanism) => {
                if !(policy.allowed.permits(mechanisms[0].mechanism) && mechanisms[0].opt_out) {
                    let i = choose|i: int|
                        0 <= i < rest.len() && (#[trigger] rest[i]).mechanism == mechanism
                            && rest[i].opt_out;
                    assert(mechanisms[i + 1] == rest[i]);
                }
            },
            None => {},
        }
        if first_opt_out(policy, mechanisms) is None {
            assert forall|i: int| 0 <= i < mechanisms.len() implies !(policy.allowed.permits(
                (#[trigger] mechanisms[i]).mechanism,
            ) && mechanisms[i].opt_out) by {
                if i > 0 {
                    assert(mechanisms[i] == rest[i - 1]);
                }
            }
        }
    }
}

/// Observation only never selects a control: the answer is the observe-only
/// ineligibility, or the policy-conflict failure.
pub proof fn lemma_observe_only_never_selects(
    policy: PolicyView,
    capabilities: CapabilitiesView,
    plan: PlanView,
    resource_ready: bool,
)
    requires
        policy.mode == PromptCacheMode::ObserveOnly,
    ensures
        preparation(policy, capabilities, plan, resource_ready) == if policy.conflict is Some {
            Err::<SelectionView, PromptCachePreparationError>(
                PromptCachePreparationError::PolicyConflict,
            )
        } else {
            Ok(ineligible_view(PromptCacheIneligibleReason::ObserveOnly))
        },
{
}

/// Whatever is selected is allowed by the policy and offered by the
/// capability record; a selection is exactly a prediction of eligibility.
pub proof fn lemma_selection_is_allowed_and_offered(
    policy: PolicyView,
    capabilities: CapabilitiesView,
    plan: PlanView,
    resource_ready: bool,
)
    ensures
        preparation(policy, capabilities, plan, resource_ready) matches Ok(selection) ==> {
            &&& (selection.selected is Some <==> selection.eligibility
                == PromptCacheEligibility::Eligible)
            &&& (selection.selected matches Some(selected) ==> {
                &&& policy.allowed.permits(selected.mechanism)
                &&& exists|i: int|
                    0 <= i < capabilities.mechanisms.len()
                        && (#[trigger] capabilities.mechanisms[i]).mechanism
                        == selected.mechanism
            })
        },
{
    lemma_opt_out_is_offered(policy, capabilities.mechanisms);
    lemma_scan_selects_an_offered_mechanism(
        policy,
        capabilities.mechanisms,
        plan,
        resource_ready,
        PromptCacheIneligibleReason::MechanismDisallowed,
    );
}

/// Prohibition needs a real verified opt-out: it succeeds only by selecting
/// an allowed mechanism that can encode one, at the provider's default
/// retention, and fails when the record offers none.
pub proof fn lemma_prohibit_needs_an_opt_out(
    policy: PolicyView,
    capabilities: CapabilitiesView,
    plan: PlanView,
    resource_ready: bool,
)
    requires
        policy.mode == PromptCacheMode::Prohibit,
    ensures
        preparation(policy, capabilities, plan, resource_ready) matches Ok(selection) ==> {
            &&& selection.selected matches Some(selected)
            &&& selected.retention == PromptCacheRetentionClass::ProviderDefault
            &&& exists|i: int|
                0 <= i < capabilities.mechanisms.len()
                    && (#[trigger] capabilities.mechanisms[i]).mechanism == selected.mechanism
                    && capabilities.mechanisms[i].opt_out
        },
        policy.conflict is None && policy.persistent == PromptCachePersistentMode::Forbid
            && (forall|i: int|
            0 <= i < capabilities.mechanisms.len() ==> !(policy.allowed.permits(
                (#[trigger] capabilities.mechanisms[i]).mechanism,
            ) && capabilities.mechanisms[i].opt_out)) ==> preparation(
            policy,
            capabilities,
            plan,
            resource_ready,
        ) == Err::<SelectionView, PromptCachePreparationError>(
            PromptCachePreparationError::ProhibitedWithoutOptOut,
        ),
{
    lemma_opt_out_is_offered(policy, capabilities.mechanisms);

}

/// A required mode either selects a mechanism or fails before sending; it
/// never falls back to an unchanged request.
pub proof fn lemma_require_fails_instead_of_falling_back(
    policy: PolicyView,
    capabilities: CapabilitiesView,
    plan: PlanView,
    resource_ready: bool,
)
    requires
        policy.mode == PromptCacheMode::Require,
    ensures
        preparation(policy, capabilities, plan, resource_ready) matches Ok(selection)
            ==> selection.selected is Some && selection.eligibility
            == PromptCacheEligibility::Eligible,
{
}

/// A preferred mode never fails for want of a mechanism: it falls back
/// unchanged, and only a contradictory policy stops it.
pub proof fn lemma_prefer_falls_back(
    policy: PolicyView,
    capabilities: CapabilitiesView,
    plan: PlanView,
    resource_ready: bool,
)
    requires
        policy.mode == PromptCacheMode::Prefer,
    ensures
        preparation(policy, capabilities, plan, resource_ready) is Ok || preparation(
            policy,
            capabilities,
            plan,
            resource_ready,
        ) == Err::<SelectionView, PromptCachePreparationError>(
            PromptCachePreparationError::PolicyConflict,
        ),
{
}

} // verus!
