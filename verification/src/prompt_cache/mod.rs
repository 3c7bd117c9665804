//! Provider-neutral prompt-cache contracts.
//!
//! Prompt caching reuses an identical provider-visible input prefix. It never
//! supplies a model response, skips a provider request, or stands in for a
//! provider's stateful response-continuation transport.

pub mod attempt;
pub mod capability;
pub mod policy;
pub mod pricing;
pub mod projection;
pub mod resource;
pub mod usage;

pub use attempt::{
    PromptCacheEligibility, PromptCacheEncoding, PromptCacheFingerprint, PromptCacheIdentity,
    PromptCacheIneligibleReason, PromptCacheKey, PromptCacheOutcome, PromptCachePlan,
    PromptCachePreparationError, PromptCacheRequestDisposition, PromptCacheScopeDigest,
    PromptCacheSelected, PromptCacheSelection,
};
pub use capability::{
    PromptCacheBoundary, PromptCacheCapabilities, PromptCacheCapabilityWordError,
    PromptCacheContent, PromptCacheMechanism, PromptCacheMechanismCapability,
    PromptCacheProvenance, PromptCacheRetentionClass, PromptCacheSupport,
    PromptCacheUsageReporting, StatefulTransportCapability,
};
pub use policy::{
    PromptCacheIsolation, PromptCacheMechanisms, PromptCacheMode, PromptCacheNamespace,
    PromptCachePersistentMode, PromptCachePolicy, PromptCachePolicyConflict,
    PromptCachePolicyError, PromptCachePolicySource, PromptCachePolicySources,
    PromptCachePolicyVersion, PromptCacheRetention, MAX_PROMPT_CACHE_NAMESPACE_BYTES,
    MAX_PROMPT_CACHE_RETENTION_SECONDS,
};
pub use pricing::{
    select_pricing, CostAmount, PriceRate, PricingCurrency, PricingDate, PricingError,
    PricingQuery, PricingUnit, PromptCachePricing, PromptCacheRates, UsageCost, UsageRate,
};
pub use projection::{
    PromptCacheBoundaryPoint, PromptCacheContentSet, PromptCacheProjection,
    PromptCacheProjectionError, MAX_PROMPT_CACHE_BOUNDARIES,
};
pub use resource::{
    PromptCacheResourceBinding, PromptCacheResourceCreated, PromptCacheResourceDeadline,
    PromptCacheResourceError, PromptCacheResourceHandle, PromptCacheResourceId,
    PromptCacheResourceOperation, PromptCacheResourceOwner, PromptCacheResourceRecord,
    PromptCacheResourceReference, PromptCacheResourceRemote, PromptCacheResourceState,
    PromptCacheResourceStore, PromptCacheResourceWordError, PromptCachePolicyDigest,
    MAX_PROMPT_CACHE_HANDLE_BYTES, MAX_PROMPT_CACHE_RESOURCES,
    MAX_PROMPT_CACHE_RESOURCE_WORD_BYTES,
};
pub use usage::{
    InputTokenUsage, ProviderNumericDetail, ProviderUsage, UsageError,
    MAX_PROVIDER_USAGE_DETAILS, MAX_PROVIDER_USAGE_DETAIL_LABEL_BYTES,
};
