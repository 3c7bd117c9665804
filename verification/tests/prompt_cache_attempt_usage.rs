use crucible_core::prompt_cache::{
    InputTokenUsage, PromptCacheBoundary, PromptCacheCapabilities, PromptCacheContent,
    PromptCacheContentSet, PromptCacheEligibility, PromptCacheFingerprint,
    PromptCacheIneligibleReason, PromptCacheKey, PromptCacheMechanism,
    PromptCacheMechanismCapability, PromptCacheMode, PromptCacheOutcome,
    PromptCachePersistentMode, PromptCachePlan, PromptCachePolicy, PromptCachePreparationError,
    PromptCacheProvenance, PromptCacheSelected, PromptCacheSelection, PromptCacheSupport,
    PromptCacheUsageReporting, ProviderNumericDetail, ProviderUsage,
    StatefulTransportCapability, UsageError,
};

trait Must<T> {
    fn must(self) -> T;
    fn must_be(self, what: &str) -> T;
}

impl<T, E> Must<T> for Result<T, E> {
    fn must(self) -> T {
        match self {
            Ok(value) => value,
            Err(_) => panic!("refused where success was expected"),
        }
    }
    fn must_be(self, what: &str) -> T {
        match self {
            Ok(value) => value,
            Err(_) => panic!("{what}"),
        }
    }
}

impl<T> Must<T> for Option<T> {
    fn must(self) -> T {
        match self {
            Some(value) => value,
            None => panic!("nothing where something was expected"),
        }
    }
    fn must_be(self, what: &str) -> T {
        match self {
            Some(value) => value,
            None => panic!("{what}"),
        }
    }
}

fn must_fail<T, E>(result: Result<T, E>) -> E {
    match result {
        Ok(_) => panic!("accepted where a refusal was expected"),
        Err(error) => error,
    }
}


fn capabilities(mechanisms: &[PromptCacheMechanismCapability]) -> PromptCacheCapabilities {
    PromptCacheCapabilities::supported(
        "fixture-v1",
        None,
        PromptCacheProvenance::new("https://example.invalid", "2026-08-31", "fixture-v1"),
        StatefulTransportCapability::Unsupported,
        mechanisms,
        PromptCacheUsageReporting::ReadAndWriteTokens,
    )
}

fn plan(tokens: u64, boundaries: &[PromptCacheBoundary]) -> PromptCachePlan {
    PromptCachePlan::fixture(
        tokens.saturating_mul(4),
        tokens,
        boundaries,
        PromptCacheContentSet::none().with(PromptCacheContent::Text),
    )
}

#[test]
fn observe_only_never_selects_a_control_even_when_support_is_known() {
    let caps = capabilities(&[PromptCacheMechanismCapability::automatic_prefix(
        1,
        true,
        true,
        &[PromptCacheContent::Text],
    )]);
    let policy = PromptCachePolicy::default().with_mode(PromptCacheMode::ObserveOnly);

    let selected = PromptCacheSelection::prepare(policy, &caps, &plan(10, &[]), false).must();

    assert!((selected.selected()) == (None));
    assert!((selected.eligibility()) == (PromptCacheEligibility::Ineligible(PromptCacheIneligibleReason::ObserveOnly)));
}

#[test]
fn prefer_selects_the_first_eligible_mechanism_in_reviewed_order() {
    let caps = capabilities(&[
        PromptCacheMechanismCapability::explicit_breakpoints(
            10,
            4,
            &[PromptCacheBoundary::AfterMessage],
            &[PromptCacheContent::Text],
        ),
        PromptCacheMechanismCapability::automatic_prefix(
            10,
            false,
            false,
            &[PromptCacheContent::Text],
        ),
    ]);

    let selected = PromptCacheSelection::prepare(
        PromptCachePolicy::default(),
        &caps,
        &plan(20, &[PromptCacheBoundary::AfterMessage]),
        false,
    )
    .must();

    assert!((selected.selected().map(PromptCacheSelected::mechanism)) == (Some(PromptCacheMechanism::ExplicitBreakpoints)));
    assert!((selected.eligibility()) == (PromptCacheEligibility::Eligible));
}

#[test]
fn prefer_falls_back_unchanged_while_require_fails_before_send() {
    let caps = capabilities(&[PromptCacheMechanismCapability::automatic_prefix(
        1_024,
        false,
        false,
        &[PromptCacheContent::Text],
    )]);
    let too_short = plan(12, &[]);

    let preferred =
        PromptCacheSelection::prepare(PromptCachePolicy::default(), &caps, &too_short, false)
            .must();
    let required = must_fail(PromptCacheSelection::prepare(
        PromptCachePolicy::default().with_mode(PromptCacheMode::Require),
        &caps,
        &too_short,
        false,
    ));

    assert!((preferred.eligibility()) == (PromptCacheEligibility::Ineligible(PromptCacheIneligibleReason::BelowMinimum)));
    assert!((required) == (PromptCachePreparationError::Required(PromptCacheIneligibleReason::BelowMinimum)));
}

#[test]
fn prohibit_requires_a_real_verified_opt_out() {
    let ordinary = capabilities(&[PromptCacheMechanismCapability::automatic_prefix(
        1,
        false,
        false,
        &[PromptCacheContent::Text],
    )]);
    let opting_out = capabilities(&[PromptCacheMechanismCapability::automatic_prefix(
        1,
        false,
        false,
        &[PromptCacheContent::Text],
    )
    .with_opt_out()]);
    let policy = PromptCachePolicy::default().with_mode(PromptCacheMode::Prohibit);

    assert!((PromptCacheSelection::prepare(policy, &ordinary, &plan(10, &[]), false)) == (Err(PromptCachePreparationError::ProhibitedWithoutOptOut)));
    assert!(
        PromptCacheSelection::prepare(policy, &opting_out, &plan(10, &[]), false)
            .must()
            .selected()
            .is_some()
    );
}

#[test]
fn sdk_constructed_prohibit_with_resource_authority_fails_preparation() {
    let caps = capabilities(&[PromptCacheMechanismCapability::automatic_prefix(
        1,
        false,
        false,
        &[PromptCacheContent::Text],
    )
    .with_opt_out()]);
    let policy = PromptCachePolicy::default()
        .with_mode(PromptCacheMode::Prohibit)
        .with_persistent_resources(PromptCachePersistentMode::Create);

    assert!((PromptCacheSelection::prepare(policy, &caps, &plan(10, &[]), false)) == (Err(PromptCachePreparationError::PolicyConflict)));
}

#[test]
fn persistent_content_needs_separate_resource_authority_and_readiness() {
    let caps = capabilities(&[PromptCacheMechanismCapability::persistent_content(
        1,
        &[PromptCacheContent::Text],
    )]);
    let forbidden =
        PromptCacheSelection::prepare(PromptCachePolicy::default(), &caps, &plan(10, &[]), false)
            .must();
    let reusable = PromptCacheSelection::prepare(
        PromptCachePolicy::default().with_persistent_resources(PromptCachePersistentMode::Reuse),
        &caps,
        &plan(10, &[]),
        true,
    )
    .must();

    assert!((forbidden.eligibility()) == (PromptCacheEligibility::Ineligible(PromptCacheIneligibleReason::ResourceUnavailable)));
    assert!((reusable.eligibility()) == (PromptCacheEligibility::Eligible));
    assert!((caps.support()) == (PromptCacheSupport::Supported));
}

#[test]
fn a_key_is_the_lowercase_hex_of_its_digest_cut_at_the_limit() {
    let key = PromptCacheKey::from_digest([0xef; 32], 64);
    assert!((key.as_str().len()) == (64));
    assert!((key.as_str()) == ("ef".repeat(32)));
    let short = PromptCacheKey::from_digest([0x1a; 32], 5);
    assert!((short.as_str()) == ("1a1a1"));
    assert!((PromptCacheKey::from_digest([0; 32], 100).as_str().len()) == (64));
    assert!((PromptCacheFingerprint::new([7; 32]).bytes()) == ([7; 32]));
}

#[test]
fn an_explicit_mechanism_without_a_legal_boundary_is_refused_for_its_boundary() {
    let caps = capabilities(&[PromptCacheMechanismCapability::explicit_breakpoints(
        1,
        4,
        &[PromptCacheBoundary::AfterSystem],
        &[PromptCacheContent::Text],
    )]);

    let selected = PromptCacheSelection::prepare(
        PromptCachePolicy::default(),
        &caps,
        &plan(10, &[PromptCacheBoundary::AfterMessage]),
        false,
    )
    .must();

    assert!((selected.eligibility()) == (PromptCacheEligibility::Ineligible(PromptCacheIneligibleReason::UnsupportedBoundary)));
}

#[test]
fn an_empty_prefix_and_an_unknown_record_are_never_eligible() {
    let caps = capabilities(&[PromptCacheMechanismCapability::automatic_prefix(
        1,
        false,
        false,
        &[PromptCacheContent::Text],
    )]);
    let empty = PromptCachePlan::fixture(0, 0, &[], PromptCacheContentSet::none());
    assert!((PromptCacheSelection::prepare(PromptCachePolicy::default(), &caps, &empty, false)
            .must()
            .eligibility()) == (PromptCacheEligibility::Ineligible(PromptCacheIneligibleReason::EmptyPrefix)));
    assert!((PromptCacheSelection::prepare(
            PromptCachePolicy::default().with_mode(PromptCacheMode::Require),
            &PromptCacheCapabilities::unknown("custom endpoint"),
            &plan(10, &[]),
            false,
        )) == (Err(PromptCachePreparationError::Required(
            PromptCacheIneligibleReason::UnknownSupport
        ))));
}

#[test]
fn inclusive_cached_input_is_subtracted_not_added() {
    let input = InputTokenUsage::inclusive_read(Some(900), Some(700)).must();

    assert!((input.total) == (Some(900)));
    assert!((input.uncached) == (Some(200)));
    assert!((input.cache_read) == (Some(700)));
}

#[test]
fn disjoint_anthropic_buckets_make_one_total() {
    let input = InputTokenUsage::disjoint(Some(200), Some(700), Some(300)).must();
    assert!((input.total) == (Some(1_200)));
}

#[test]
fn missing_details_and_partial_buckets_stay_unknown() {
    assert!((InputTokenUsage::inclusive_read(Some(900), None)
            .must()
            .uncached) == (None));
    assert!((InputTokenUsage::disjoint(Some(200), None, Some(300))
            .must()
            .total) == (None));
    assert!((InputTokenUsage::inclusive_read_write(Some(900), Some(200), None)
            .must()
            .uncached) == (None));
    assert!((InputTokenUsage::inclusive_read_write(Some(900), None, Some(200))
            .must()
            .uncached) == (None));
}

#[test]
fn impossible_relationships_and_overflow_are_rejected() {
    assert!((InputTokenUsage::inclusive_read(Some(10), Some(11))) == (Err(UsageError::SubsetExceedsTotal)));
    assert!((InputTokenUsage::disjoint(Some(u64::MAX), Some(1), Some(0))) == (Err(UsageError::Overflow)));
}

#[test]
fn outcomes_require_provider_reported_activity_or_complete_zeroes() {
    let unknown = InputTokenUsage::inclusive_read(Some(100), None).must();
    let miss = InputTokenUsage::inclusive_read(Some(100), Some(0)).must();
    let hit = InputTokenUsage::inclusive_read(Some(100), Some(80)).must();

    assert!((unknown.outcome(PromptCacheUsageReporting::ReadTokens)) == (PromptCacheOutcome::Unreported));
    assert!((miss.outcome(PromptCacheUsageReporting::ReadTokens)) == (PromptCacheOutcome::NoActivity));
    assert!((hit.outcome(PromptCacheUsageReporting::ReadTokens)) == (PromptCacheOutcome::Read));
}

#[test]
fn reasoning_is_a_subset_and_totals_are_checked() {
    let input = InputTokenUsage::inclusive_read(Some(10), Some(0)).must();
    assert!(ProviderUsage::new(input, Some(5), Some(6), None, &[]).is_err());
    assert!(ProviderUsage::new(input, Some(5), Some(3), Some(14), &[]).is_err());
    assert!((ProviderUsage::new(input, Some(5), Some(3), None, &[])
            .must()
            .total) == (Some(15)));
}

#[test]
fn provider_numeric_details_are_bounded_and_static_safe_labels() {
    assert!(ProviderNumericDetail::new("cached_tokens", 1).is_ok());
    assert!((ProviderNumericDetail::new("not safe", 1)) == (Err(UsageError::InvalidDetailLabel)));
    let too_many = vec![ProviderNumericDetail::new("count", 1).must(); 17];
    assert!((ProviderUsage::new(InputTokenUsage::unknown(), None, None, None, &too_many)) == (Err(UsageError::TooManyDetails)));
}

#[test]
fn read_and_write_subsets_leave_the_uncached_remainder() {
    let input = InputTokenUsage::inclusive_read_write(Some(900), Some(200), Some(300)).must();
    assert!((input.uncached) == (Some(400)));
    assert!((InputTokenUsage::inclusive_read_write(Some(900), Some(600), Some(600))) == (Err(UsageError::SubsetExceedsTotal)));
    assert!((InputTokenUsage::inclusive_read_write(Some(900), Some(901), None)) == (Err(UsageError::SubsetExceedsTotal)));
    assert!((InputTokenUsage::disjoint(Some(0), Some(0), Some(0))
            .must()
            .outcome(PromptCacheUsageReporting::ReadAndWriteTokens)) == (PromptCacheOutcome::NoActivity));
    assert!((InputTokenUsage::disjoint(Some(1), Some(2), Some(3))
            .must()
            .outcome(PromptCacheUsageReporting::NoDetail)) == (PromptCacheOutcome::ReadAndWrite));
}

#[test]
fn a_merged_report_keeps_what_was_known_and_takes_what_is_new() {
    let first = ProviderUsage::new(
        InputTokenUsage::inclusive_read(Some(100), Some(40)).must(),
        None,
        None,
        None,
        &[ProviderNumericDetail::new("cached_tokens", 40).must()],
    )
    .must();
    let second = ProviderUsage::new(
        InputTokenUsage::unknown(),
        Some(20),
        None,
        None,
        &[
            ProviderNumericDetail::new("cached_tokens", 41).must(),
            ProviderNumericDetail::new("audio_tokens", 3).must(),
        ],
    )
    .must()
    .with_storage_token_hours(5);

    let merged = first.merged(&second).must();

    assert!((merged.input.total) == (Some(100)));
    assert!((merged.input.cache_read) == (Some(40)));
    assert!((merged.output) == (Some(20)));
    assert!((merged.total) == (Some(120)));
    assert!((merged.storage_token_hours) == (Some(5)));
    assert!((merged.details().len()) == (2));
    assert!((merged.details()[0].value) == (41));
    assert!((merged.details()[1].label) == ("audio_tokens"));
    assert!((ProviderUsage::new(InputTokenUsage::unknown(), Some(9), Some(1), Some(8), &[])) == (Err(UsageError::ContradictoryTotal)));
}

#[test]
fn all_identity_bearing_values_redact_their_bytes() {
    let key = PromptCacheKey::from_digest([0xef; 32], 64);
    assert!((key.as_str().len()) == (64));
    assert!(key.as_str().chars().all(|c| c.is_ascii_hexdigit()));
}
