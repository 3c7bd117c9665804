use crucible_core::prompt_cache::{
    select_pricing, CostAmount, InputTokenUsage, PriceRate, PricingCurrency, PricingDate,
    PricingError, PricingQuery, PricingUnit, PromptCacheFingerprint, PromptCacheIsolation,
    PromptCachePolicyDigest, PromptCachePricing, PromptCacheRates,
    PromptCacheResourceBinding, PromptCacheResourceError, PromptCacheResourceHandle,
    PromptCacheResourceId, PromptCacheResourceOperation, PromptCacheResourceOwner,
    PromptCacheResourceRecord, PromptCacheResourceState, PromptCacheResourceWordError,
    PromptCacheRetentionClass, PromptCacheScopeDigest, ProviderUsage, UsageRate,
    MAX_PROMPT_CACHE_HANDLE_BYTES,
};

fn refusal<T, E>(result: Result<T, E>) -> E {
    match result {
        Ok(_) => panic!("accepted where a refusal was expected"),
        Err(error) => error,
    }
}

const SOURCE: &str = "https://provider.invalid/pricing";

fn usd() -> PricingCurrency {
    PricingCurrency::new("USD")
}

fn rates() -> PromptCacheRates {
    PromptCacheRates {
        uncached_input: UsageRate::priced(PriceRate::per_million(1_000_000_000)),
        cache_read: UsageRate::priced(PriceRate::per_million(100_000_000)),
        cache_write_or_creation: UsageRate::priced(PriceRate::per_million(1_250_000_000)),
        output: UsageRate::priced(PriceRate::per_million(5_000_000_000)),
        reasoning: UsageRate::NotApplicable,
        storage: UsageRate::NotApplicable,
        other: UsageRate::NotApplicable,
    }
}

fn record(model: &'static str, from: PricingDate) -> PromptCachePricing {
    PromptCachePricing::new(
        "fixture-protocol",
        "https://provider.invalid/v1",
        model,
        Some(model),
        from,
        "fixture-pricing-v1",
        SOURCE,
        usd(),
        PricingUnit::MillionTokens,
        rates(),
    )
}

#[test]
fn exact_route_model_revision_date_and_input_band_select_one_record() {
    let short = record("model-a", PricingDate::new(2026, 1, 1)).with_input_band(0, Some(272_000));
    let long = record("model-a", PricingDate::new(2026, 1, 1)).with_input_band(272_001, None);
    let newer = record("model-a", PricingDate::new(2026, 8, 1));
    let records = [short, long, newer];

    let selected = select_pricing(
        &records,
        PricingQuery {
            protocol: "fixture-protocol",
            endpoint: "https://provider.invalid/v1",
            model: "model-a",
            revision: Some("model-a"),
            at: PricingDate::new(2026, 7, 1),
            input_tokens: Some(272_001),
            retention: PromptCacheRetentionClass::ProviderDefault,
        },
    )
    .unwrap()
    .unwrap();

    assert_eq!(selected.minimum_input_tokens(), 272_001);
    assert!(select_pricing(
        &records,
        PricingQuery {
            endpoint: "https://proxy.invalid/v1",
            ..PricingQuery::fixture("model-a", PricingDate::new(2026, 7, 1), Some(1))
        },
    )
    .unwrap()
    .is_none());
}

#[test]
fn costs_are_exact_per_category_and_total_without_double_counting() {
    let usage = ProviderUsage::new(
        InputTokenUsage::disjoint(Some(100), Some(200), Some(300)).unwrap(),
        Some(40),
        None,
        None,
        &[],
    )
    .unwrap();

    let cost = record("model-a", PricingDate::new(2026, 1, 1))
        .cost(&usage)
        .unwrap();

    assert_eq!(cost.uncached_input.unwrap().femtocurrency(), 100_000_000_000);
    assert_eq!(cost.cache_read_input.unwrap().femtocurrency(), 20_000_000_000);
    assert_eq!(cost.cache_write_input.unwrap().femtocurrency(), 375_000_000_000);
    assert_eq!(cost.output.unwrap().femtocurrency(), 200_000_000_000);
    assert_eq!(cost.total.unwrap().femtocurrency(), 695_000_000_000);
}

#[test]
fn storage_uses_token_hours_and_joins_token_costs_in_one_currency_total() {
    let usage = ProviderUsage::new(
        InputTokenUsage::disjoint(Some(100), Some(200), Some(300)).unwrap(),
        Some(40),
        None,
        None,
        &[],
    )
    .unwrap()
    .with_storage_token_hours(50);
    let mut storage_rates = rates();
    storage_rates.storage = UsageRate::priced(PriceRate::per_million_token_hours(20_000_000));
    let pricing = PromptCachePricing::new(
        "fixture-protocol",
        "https://provider.invalid/v1",
        "model-a",
        Some("model-a"),
        PricingDate::new(2026, 1, 1),
        "fixture-pricing-v1",
        SOURCE,
        usd(),
        PricingUnit::MillionTokens,
        storage_rates,
    );

    let cost = pricing.cost(&usage).unwrap();

    assert_eq!(cost.storage.unwrap().femtocurrency(), 1_000_000_000);
    assert_eq!(cost.storage.unwrap().unit(), PricingUnit::MillionTokenHours);
    assert_eq!(cost.total.unwrap().femtocurrency(), 696_000_000_000);
    assert_eq!(cost.total.unwrap().unit(), PricingUnit::Mixed);
}

#[test]
fn a_category_rate_with_the_wrong_quantity_unit_is_rejected() {
    let usage = ProviderUsage::new(
        InputTokenUsage::inclusive_read(Some(100), Some(0)).unwrap(),
        Some(10),
        None,
        None,
        &[],
    )
    .unwrap()
    .with_storage_token_hours(50);
    let mut invalid = rates();
    invalid.storage = UsageRate::priced(PriceRate::per_million(20_000_000));
    let pricing = PromptCachePricing::new(
        "fixture-protocol",
        "https://provider.invalid/v1",
        "model-a",
        Some("model-a"),
        PricingDate::new(2026, 1, 1),
        "fixture-pricing-v1",
        SOURCE,
        usd(),
        PricingUnit::MillionTokens,
        invalid,
    );

    assert_eq!(pricing.cost(&usage), Err(PricingError::UnitMismatch));
}

#[test]
fn missing_usage_or_rate_keeps_the_category_and_total_unknown() {
    let usage = ProviderUsage::new(
        InputTokenUsage::inclusive_read(Some(100), None).unwrap(),
        Some(10),
        None,
        None,
        &[],
    )
    .unwrap();
    let mut unknown_rates = rates();
    unknown_rates.output = UsageRate::Unknown;
    let pricing = PromptCachePricing::new(
        "fixture-protocol",
        "https://provider.invalid/v1",
        "model-a",
        Some("model-a"),
        PricingDate::new(2026, 1, 1),
        "fixture-pricing-v1",
        SOURCE,
        usd(),
        PricingUnit::MillionTokens,
        unknown_rates,
    );

    let cost = pricing.cost(&usage).unwrap();

    assert!(cost.uncached_input.is_none());
    assert!(cost.cache_read_input.is_none());
    assert!(cost.output.is_none());
    assert!(cost.total.is_none());
}

#[test]
fn incompatible_currency_cannot_be_aggregated_and_mixed_rate_units_can() {
    let usd = CostAmount::new(usd(), PricingUnit::MillionTokens, 1);
    let eur = CostAmount::new(PricingCurrency::new("EUR"), PricingUnit::MillionTokens, 1);
    let storage = CostAmount::new(PricingCurrency::new("USD"), PricingUnit::MillionTokenHours, 1);

    assert_eq!(usd.checked_add(eur), Err(PricingError::CurrencyMismatch));
    assert_eq!(usd.checked_add(storage).unwrap().unit(), PricingUnit::Mixed);
}

#[test]
fn unix_date_conversion_handles_epoch_and_leap_days() {
    assert_eq!(
        PricingDate::from_unix_seconds(0),
        PricingDate::new(1970, 1, 1)
    );
    assert_eq!(
        PricingDate::from_unix_seconds(951_782_400),
        PricingDate::new(2000, 2, 29)
    );
}

#[test]
fn unix_dates_cross_years_months_and_the_calendar_ceiling() {
    assert_eq!(
        PricingDate::from_unix_seconds(1_767_225_599),
        PricingDate::new(2025, 12, 31)
    );
    assert_eq!(
        PricingDate::from_unix_seconds(1_767_225_600),
        PricingDate::new(2026, 1, 1)
    );
    assert_eq!(
        PricingDate::from_unix_seconds(1_709_164_800),
        PricingDate::new(2024, 2, 29)
    );
    assert_eq!(
        PricingDate::from_unix_seconds(253_402_300_799),
        PricingDate::new(9999, 12, 31)
    );
    assert_eq!(
        PricingDate::from_unix_seconds(253_402_300_800),
        PricingDate::new(9999, 1, 1)
    );
}

#[test]
fn equally_recent_matching_records_are_ambiguous() {
    let records = [
        record("model-a", PricingDate::new(2026, 1, 1)),
        record("model-a", PricingDate::new(2026, 1, 1)),
    ];
    assert_eq!(
        select_pricing(
            &records,
            PricingQuery::fixture("model-a", PricingDate::new(2026, 7, 1), None),
        ),
        Err(PricingError::Ambiguous)
    );
    let expired = [record("model-a", PricingDate::new(2026, 1, 1))
        .through(PricingDate::new(2026, 6, 30))];
    assert!(select_pricing(
        &expired,
        PricingQuery::fixture("model-a", PricingDate::new(2026, 7, 1), None),
    )
    .unwrap()
    .is_none());
}

#[test]
fn separately_priced_reasoning_is_taken_out_of_output() {
    let usage = ProviderUsage::new(
        InputTokenUsage::disjoint(Some(0), Some(0), Some(0)).unwrap(),
        Some(40),
        Some(10),
        None,
        &[],
    )
    .unwrap();
    let mut split = rates();
    split.reasoning = UsageRate::priced(PriceRate::per_million(1_000));
    let pricing = PromptCachePricing::new(
        "fixture-protocol",
        "https://provider.invalid/v1",
        "model-a",
        None,
        PricingDate::new(2026, 1, 1),
        "fixture-pricing-v1",
        SOURCE,
        usd(),
        PricingUnit::MillionTokens,
        split,
    );

    let cost = pricing.cost(&usage).unwrap();

    assert_eq!(cost.output.unwrap().femtocurrency(), 150_000_000_000);
    assert_eq!(cost.reasoning.unwrap().femtocurrency(), 10_000);
    assert_eq!(cost.total.unwrap().femtocurrency(), 150_000_010_000);
}

fn binding() -> PromptCacheResourceBinding {
    PromptCacheResourceBinding::new(
        PromptCacheScopeDigest::new([1; 32]),
        PromptCacheScopeDigest::new([4; 32]),
        PromptCacheScopeDigest::new([5; 32]),
        PromptCacheFingerprint::new([2; 32]),
        PromptCachePolicyDigest::new([3; 32]),
        PromptCacheResourceOwner::new(PromptCacheIsolation::Session, false),
        "fixture",
        "model-a",
        Some("revision-a"),
    )
    .unwrap()
}

#[test]
fn resource_words_are_bounded_and_handles_read_back() {
    assert!(PromptCacheResourceHandle::new(&"h".repeat(MAX_PROMPT_CACHE_HANDLE_BYTES)).is_ok());
    assert!(
        PromptCacheResourceHandle::new(&"h".repeat(MAX_PROMPT_CACHE_HANDLE_BYTES + 1)).is_err()
    );
    assert!(PromptCacheResourceHandle::new("line\nbreak").is_err());

    let handle = PromptCacheResourceHandle::new("provider-secret-handle").unwrap();
    assert_eq!(handle.expose(), "provider-secret-handle");
}

#[test]
fn reuse_requires_the_exact_binding_ready_and_unexpired() {
    let wanted = binding();
    let mut record =
        PromptCacheResourceRecord::creating(PromptCacheResourceId::new().expect("minted"), wanted.clone(), 100);
    assert!(!record.can_reuse(&wanted, 100));

    record.ready(
        PromptCacheResourceHandle::new("remote-1").unwrap(),
        200,
        110,
    );
    assert!(record.can_reuse(&wanted, 199));
    assert!(!record.can_reuse(&wanted, 200));

    let other = PromptCacheResourceBinding::new(
        PromptCacheScopeDigest::new([9; 32]),
        wanted.provider_scope(),
        wanted.owner_scope(),
        wanted.prefix(),
        wanted.policy(),
        wanted.owner(),
        wanted.protocol(),
        wanted.model(),
        wanted.revision(),
    )
    .unwrap();
    assert!(!record.can_reuse(&other, 150));
}

#[test]
fn ambiguous_and_orphaned_operations_are_never_reused() {
    let wanted = binding();
    for state in [
        PromptCacheResourceState::Ambiguous,
        PromptCacheResourceState::Orphaned,
        PromptCacheResourceState::Deleting,
        PromptCacheResourceState::Deleted,
        PromptCacheResourceState::Expired,
    ] {
        let mut record =
            PromptCacheResourceRecord::creating(PromptCacheResourceId::new().expect("minted"), wanted.clone(), 100);
        record.set_state(state, 120);
        assert!(!record.can_reuse(&wanted, 121), "{state:?}");
    }
}

#[test]
fn restored_records_enforce_lifecycle_state_invariants() {
    let invalid = PromptCacheResourceRecord::restored(
        PromptCacheResourceId::new().expect("minted"),
        binding(),
        Some(PromptCacheResourceHandle::new("remote-1").unwrap()),
        PromptCacheResourceState::Ready,
        Some(PromptCacheResourceOperation::Delete),
        100,
        Some(200),
        Some(110),
    );
    assert!(matches!(
        invalid,
        Err(PromptCacheResourceError::InvalidMetadata)
    ));

    let valid = PromptCacheResourceRecord::restored(
        PromptCacheResourceId::new().expect("minted"),
        binding(),
        Some(PromptCacheResourceHandle::new("remote-1").unwrap()),
        PromptCacheResourceState::Expiring,
        Some(PromptCacheResourceOperation::Renew),
        100,
        Some(200),
        Some(110),
    )
    .unwrap();
    assert_eq!(valid.state(), PromptCacheResourceState::Expiring);
}

#[test]
fn a_minted_identifier_parses_back_and_others_do_not() {
    let id = PromptCacheResourceId::new().expect("minted");
    assert_eq!(id.as_str().len(), 36);
    let parsed = PromptCacheResourceId::parse(id.as_str()).unwrap();
    assert_eq!(parsed.as_str(), id.as_str());
    assert_eq!(
        refusal(PromptCacheResourceId::parse("not-an-identifier")),
        PromptCacheResourceWordError::InvalidId
    );
    assert_eq!(
        refusal(PromptCacheResourceId::parse("550e8400-e29b-41d4-a716-446655440000")),
        PromptCacheResourceWordError::InvalidId
    );
    assert_eq!(
        refusal(PromptCacheResourceId::parse(&id.as_str().to_uppercase())),
        PromptCacheResourceWordError::InvalidId
    );
}

#[test]
fn lifecycle_words_round_trip_and_an_ambiguous_operation_is_kept() {
    for state in [
        PromptCacheResourceState::Creating,
        PromptCacheResourceState::Ready,
        PromptCacheResourceState::Ambiguous,
        PromptCacheResourceState::Orphaned,
    ] {
        assert_eq!(PromptCacheResourceState::parse(state.as_str()), Some(state));
    }
    assert_eq!(PromptCacheResourceState::parse("gone"), None);
    assert_eq!(
        PromptCacheResourceOperation::parse("renew"),
        Some(PromptCacheResourceOperation::Renew)
    );

    let mut record =
        PromptCacheResourceRecord::creating(PromptCacheResourceId::new().expect("minted"), binding(), 100);
    record.ambiguous(PromptCacheResourceOperation::Delete, 130);
    assert_eq!(record.state(), PromptCacheResourceState::Ambiguous);
    assert_eq!(record.pending(), Some(PromptCacheResourceOperation::Delete));
    record.set_state(PromptCacheResourceState::Ambiguous, 140);
    assert_eq!(record.pending(), Some(PromptCacheResourceOperation::Delete));
    assert_eq!(record.last_reconciled_at(), Some(140));
    assert!(PromptCacheResourceBinding::new(
        PromptCacheScopeDigest::new([1; 32]),
        PromptCacheScopeDigest::new([4; 32]),
        PromptCacheScopeDigest::new([5; 32]),
        PromptCacheFingerprint::new([2; 32]),
        PromptCachePolicyDigest::new([3; 32]),
        PromptCacheResourceOwner::new(PromptCacheIsolation::Session, false),
        "",
        "model-a",
        None,
    )
    .is_err());
}

#[test]
fn an_older_tie_does_not_hide_a_newer_record_in_any_order() {
    let query = PricingQuery::fixture("model-a", PricingDate::new(2026, 7, 1), None);
    let older = || record("model-a", PricingDate::new(2026, 1, 1));
    let newer = || record("model-a", PricingDate::new(2026, 3, 1));
    for records in [[older(), older(), newer()], [newer(), older(), older()], [older(), newer(), older()]] {
        let selected = select_pricing(&records, query).unwrap().unwrap();
        assert_eq!(selected.effective_from(), PricingDate::new(2026, 3, 1));
    }
    let tied_newest = [older(), newer(), newer()];
    assert_eq!(select_pricing(&tied_newest, query), Err(PricingError::Ambiguous));
}

#[test]
fn a_minted_identifier_carries_the_whole_milliseconds_of_its_moment() {
    let random = [9u8, 8, 7, 6, 5, 4, 3, 2, 1, 0];
    let since = std::time::Duration::new(5, 7_654_321);
    let text = crucible_core::prompt_cache::resource::v7_id_from(&since, random);
    let expected = uuid::Builder::from_unix_timestamp_millis(5_007, &random)
        .into_uuid()
        .to_string();
    assert_eq!(text, expected);
    assert!(PromptCacheResourceId::parse(&text).is_ok());
}

#[test]
fn resource_words_are_bounded_and_redacted() {
    assert!(PromptCacheResourceHandle::new(&"h".repeat(MAX_PROMPT_CACHE_HANDLE_BYTES)).is_ok());
    assert!(
        PromptCacheResourceHandle::new(&"h".repeat(MAX_PROMPT_CACHE_HANDLE_BYTES + 1)).is_err()
    );
    assert!(PromptCacheResourceHandle::new("line\nbreak").is_err());
    let handle = PromptCacheResourceHandle::new("provider-secret-handle").unwrap();
    assert_eq!(handle.expose(), "provider-secret-handle");
}
