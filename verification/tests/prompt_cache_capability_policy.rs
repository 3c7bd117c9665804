use std::str::FromStr;

use crucible_core::prompt_cache::{
    PromptCacheBoundary, PromptCacheCapabilities, PromptCacheContent, PromptCacheIsolation,
    PromptCacheMechanism, PromptCacheMechanismCapability, PromptCacheMechanisms, PromptCacheMode,
    PromptCacheNamespace, PromptCachePersistentMode, PromptCachePolicy,
    PromptCachePolicyConflict, PromptCacheProvenance, PromptCacheRetention,
    PromptCacheRetentionClass, PromptCacheSupport, PromptCacheUsageReporting,
    StatefulTransportCapability, MAX_PROMPT_CACHE_NAMESPACE_BYTES,
    MAX_PROMPT_CACHE_RETENTION_SECONDS,
};

trait Must<T> {
    fn must(self) -> T;
    fn must_be(self, what: &str) -> T;
}

impl<T, E> Must<T> for Result<T, E> {
    fn must(self) -> T {
        match self {
            Ok(value) => value,
            Err(_) => panic!("refused where success was expected"),
        }
    }
    fn must_be(self, what: &str) -> T {
        match self {
            Ok(value) => value,
            Err(_) => panic!("{what}"),
        }
    }
}

impl<T> Must<T> for Option<T> {
    fn must(self) -> T {
        match self {
            Some(value) => value,
            None => panic!("nothing where something was expected"),
        }
    }
    fn must_be(self, what: &str) -> T {
        match self {
            Some(value) => value,
            None => panic!("{what}"),
        }
    }
}

fn must_fail<T, E>(result: Result<T, E>) -> E {
    match result {
        Ok(_) => panic!("accepted where a refusal was expected"),
        Err(error) => error,
    }
}


fn source() -> PromptCacheProvenance {
    PromptCacheProvenance::new(
        "https://provider.example/prompt-caching",
        "2026-08-31",
        "fixture-v1",
    )
}

fn automatic(minimum: u32) -> PromptCacheMechanismCapability {
    PromptCacheMechanismCapability::automatic_prefix(
        minimum,
        false,
        false,
        &[PromptCacheContent::Text, PromptCacheContent::Tools],
    )
}

#[test]
fn unknown_and_unsupported_are_different_effective_answers() {
    let adapter = PromptCacheCapabilities::supported(
        "fixture-adapter-v1",
        None,
        source(),
        StatefulTransportCapability::Unsupported,
        &[automatic(1_024)],
        PromptCacheUsageReporting::ReadTokens,
    );

    assert!((adapter.intersection(&PromptCacheCapabilities::unknown("custom endpoint"))) == (PromptCacheCapabilities::unknown("custom endpoint")));
    assert!((adapter.intersection(&PromptCacheCapabilities::unsupported(
            "fixture-model-v1",
            source(),
            StatefulTransportCapability::Unsupported,
        ))) == (PromptCacheCapabilities::unsupported(
            "fixture-model-v1",
            source(),
            StatefulTransportCapability::Unsupported,
        )));
}

#[test]
fn intersection_keeps_adapter_order_and_the_tighter_model_limits() {
    let adapter = PromptCacheCapabilities::supported(
        "fixture-adapter-v1",
        None,
        source(),
        StatefulTransportCapability::Supported,
        &[
            automatic(1_024),
            PromptCacheMechanismCapability::explicit_breakpoints(
                512,
                4,
                &[
                    PromptCacheBoundary::AfterSystem,
                    PromptCacheBoundary::AfterMessage,
                ],
                &[PromptCacheContent::Text, PromptCacheContent::Tools],
            ),
        ],
        PromptCacheUsageReporting::ReadAndWriteTokens,
    );
    let model = PromptCacheCapabilities::supported(
        "fixture-model-v2",
        Some("2026-08-31"),
        source(),
        StatefulTransportCapability::Unsupported,
        &[
            PromptCacheMechanismCapability::explicit_breakpoints(
                2_048,
                2,
                &[PromptCacheBoundary::AfterMessage],
                &[PromptCacheContent::Text],
            ),
            automatic(4_096),
        ],
        PromptCacheUsageReporting::ReadTokens,
    );

    let effective = adapter.intersection(&model);

    assert!((effective.support()) == (PromptCacheSupport::Supported));
    assert!((effective.transport()) == (StatefulTransportCapability::Unsupported), "stateful continuation is intersected separately from prompt caching");
    assert!((effective.usage()) == (PromptCacheUsageReporting::ReadTokens));
    let [automatic, explicit] = effective.mechanisms() else {
        panic!("expected the two intersected fixture mechanisms");
    };
    assert!((automatic.mechanism()) == (PromptCacheMechanism::AutomaticPrefix));
    assert!((automatic.minimum_prefix_tokens()) == (4_096));
    assert!((explicit.boundaries()) == (&[PromptCacheBoundary::AfterMessage]));
    assert!((explicit.maximum_breakpoints()) == (2));
    assert!((explicit.content()) == (&[PromptCacheContent::Text]));
}

#[test]
fn an_empty_mechanism_intersection_is_unsupported_not_supported() {
    let adapter = PromptCacheCapabilities::supported(
        "fixture-adapter-v1",
        None,
        source(),
        StatefulTransportCapability::Unsupported,
        &[automatic(1_024)],
        PromptCacheUsageReporting::ReadTokens,
    );
    let model = PromptCacheCapabilities::supported(
        "fixture-model-v1",
        None,
        source(),
        StatefulTransportCapability::Unsupported,
        &[PromptCacheMechanismCapability::persistent_content(
            1_024,
            &[PromptCacheContent::Text],
        )],
        PromptCacheUsageReporting::ReadTokens,
    );

    assert!((adapter.intersection(&model).support()) == (PromptCacheSupport::Unsupported));
}

#[test]
fn capability_sets_are_canonical_and_bounded_at_construction() {
    let repeated_content = vec![PromptCacheContent::Text; 100_000];
    let repeated_boundaries = vec![PromptCacheBoundary::AfterMessage; 100_000];
    let repeated_retentions = vec![PromptCacheRetentionClass::Extended; 100_000];

    let capability = PromptCacheMechanismCapability::explicit_breakpoints(
        1,
        4,
        &repeated_boundaries,
        &repeated_content,
    )
    .with_retentions(&repeated_retentions);

    assert!((capability.content()) == (&[PromptCacheContent::Text]));
    assert!((capability.boundaries()) == (&[PromptCacheBoundary::AfterMessage]));
    assert!((capability.retentions()) == (&[PromptCacheRetentionClass::Extended]));
}

#[test]
fn clean_install_prefers_native_nonpersistent_session_caching() {
    let policy = PromptCachePolicy::default();

    assert!((policy.mode()) == (PromptCacheMode::Prefer));
    assert!((policy.isolation()) == (PromptCacheIsolation::Session));
    assert!((policy.retention()) == (PromptCacheRetention::provider_default()));
    assert!((policy.persistent_resources()) == (PromptCachePersistentMode::Forbid));
    assert!((policy.allowed_mechanisms()) == (PromptCacheMechanisms::all()));
    assert!((policy.namespace()) == (None));
    assert!((policy.conflict()) == (None));
}

#[test]
fn a_descendant_can_only_narrow_each_authority_axis() {
    let held = PromptCachePolicy::default()
        .with_mode(PromptCacheMode::Prefer)
        .with_isolation(PromptCacheIsolation::Workspace)
        .with_retention(PromptCacheRetention::extended(3_600).must())
        .with_persistent_resources(PromptCachePersistentMode::Create)
        .allowing(PromptCacheMechanisms::all());
    let wanted = PromptCachePolicy::default()
        .with_mode(PromptCacheMode::ObserveOnly)
        .with_isolation(PromptCacheIsolation::Run)
        .with_retention(PromptCacheRetention::ephemeral(300).must())
        .with_persistent_resources(PromptCachePersistentMode::Reuse)
        .allowing(PromptCacheMechanisms::one(
            PromptCacheMechanism::ExplicitBreakpoints,
        ));

    let effective = held.narrowed(wanted);

    assert!((effective.mode()) == (PromptCacheMode::ObserveOnly));
    assert!((effective.isolation()) == (PromptCacheIsolation::Run));
    assert!((effective.retention()) == (PromptCacheRetention::ephemeral(300).must()));
    assert!((effective.persistent_resources()) == (PromptCachePersistentMode::Reuse));
    assert!((effective.allowed_mechanisms()) == (PromptCacheMechanisms::one(PromptCacheMechanism::ExplicitBreakpoints)));
}

#[test]
fn a_descendant_cannot_turn_caching_on_or_widen_sharing() {
    let held = PromptCachePolicy::default()
        .with_mode(PromptCacheMode::ObserveOnly)
        .with_isolation(PromptCacheIsolation::Run)
        .with_persistent_resources(PromptCachePersistentMode::Forbid);
    let wanted = PromptCachePolicy::default()
        .with_mode(PromptCacheMode::Require)
        .with_isolation(PromptCacheIsolation::User)
        .with_persistent_resources(PromptCachePersistentMode::Require);

    let effective = held.narrowed(wanted);

    assert!((effective.mode()) == (PromptCacheMode::ObserveOnly));
    assert!((effective.isolation()) == (PromptCacheIsolation::Run));
    assert!((effective.persistent_resources()) == (PromptCachePersistentMode::Forbid));
}

#[test]
fn narrowing_an_inherited_requirement_to_prohibit_is_an_explicit_conflict() {
    let held = PromptCachePolicy::default().with_mode(PromptCacheMode::Require);
    let wanted = PromptCachePolicy::default().with_mode(PromptCacheMode::Prohibit);

    let effective = held.narrowed(wanted);

    assert!((effective.mode()) == (PromptCacheMode::Require));
    assert!((effective.conflict()) == (Some(PromptCachePolicyConflict::RequiredAndProhibited)));
}

#[test]
fn canonical_words_round_trip_and_aliases_are_rejected() {
    for word in ["observeOnly", "prefer", "require", "prohibit"] {
        let value = PromptCacheMode::from_str(word).must();
        assert!((value.as_str()) == (word));
    }
    assert!(PromptCacheMode::from_str("enabled").is_err());
    assert!(PromptCacheIsolation::from_str("tenant").is_err());
    assert!(PromptCachePersistentMode::from_str("always").is_err());
}

#[test]
fn namespaces_and_retention_are_bounded_at_construction() {
    assert!(PromptCacheNamespace::new("team-a").is_ok());
    assert!(PromptCacheNamespace::new("").is_err());
    assert!(PromptCacheNamespace::new("contains space").is_err());
    assert!(
        PromptCacheNamespace::new(&"x".repeat(MAX_PROMPT_CACHE_NAMESPACE_BYTES + 1)).is_err()
    );
    assert!(PromptCacheRetention::ephemeral(0).is_err());
    assert!(PromptCacheRetention::extended(MAX_PROMPT_CACHE_RETENTION_SECONDS + 1).is_err());
}

#[test]
fn prohibit_cannot_authorize_a_persistent_resource() {
    let policy = PromptCachePolicy::default()
        .with_mode(PromptCacheMode::Prohibit)
        .with_persistent_resources(PromptCachePersistentMode::Create);

    assert!(policy.validate().is_err());
}

#[test]
fn narrowing_a_policy_by_itself_keeps_every_ceiling() {
    let policy = PromptCachePolicy::default()
        .with_mode(PromptCacheMode::Require)
        .with_isolation(PromptCacheIsolation::Workspace)
        .with_retention(PromptCacheRetention::extended(7_200).must())
        .with_persistent_resources(PromptCachePersistentMode::Reuse)
        .allowing(PromptCacheMechanisms::one(PromptCacheMechanism::AutomaticPrefix));

    let again = policy.narrowed(policy);

    assert!((again.mode()) == (policy.mode()));
    assert!((again.isolation()) == (policy.isolation()));
    assert!((again.retention()) == (policy.retention()));
    assert!((again.persistent_resources()) == (policy.persistent_resources()));
    assert!((again.allowed_mechanisms()) == (policy.allowed_mechanisms()));
}

#[test]
fn a_required_mode_left_with_no_mechanism_reports_the_conflict() {
    let held = PromptCachePolicy::default()
        .with_mode(PromptCacheMode::Require)
        .allowing(PromptCacheMechanisms::one(PromptCacheMechanism::AutomaticPrefix));
    let wanted = PromptCachePolicy::default()
        .allowing(PromptCacheMechanisms::one(PromptCacheMechanism::ExplicitBreakpoints));

    let effective = held.narrowed(wanted);

    assert!(effective.allowed_mechanisms().is_empty());
    assert!((effective.conflict()) == (Some(PromptCachePolicyConflict::RequiredWithoutMechanism)));
}

#[test]
fn a_retention_narrowed_under_a_provider_default_carries_no_bound() {
    let held = PromptCacheRetention::provider_default();
    let wanted = PromptCacheRetention::extended(600).must();

    let narrowed = held.narrowed(wanted);

    assert!((narrowed.class()) == (PromptCacheRetentionClass::ProviderDefault));
    assert!((narrowed.maximum_seconds()) == (None));
    assert!((PromptCacheRetention::extended(900)
            .must()
            .narrowed(PromptCacheRetention::ephemeral(1_200).must())
            .maximum_seconds()) == (Some(900)));
}

#[test]
fn a_namespace_reads_back_as_written_and_a_mechanism_set_holds_what_was_added() {
    let namespace = PromptCacheNamespace::new("team.a_1").must();
    assert!((namespace.as_str()) == ("team.a_1"));

    let set = PromptCacheMechanisms::none().with(PromptCacheMechanism::PersistentContent);
    assert!(set.contains(PromptCacheMechanism::PersistentContent));
    assert!(!set.contains(PromptCacheMechanism::AutomaticPrefix));
    assert!(PromptCacheMechanisms::none().is_empty());
    assert!(set
        .intersection(PromptCacheMechanisms::one(PromptCacheMechanism::AutomaticPrefix))
        .is_empty());
}
