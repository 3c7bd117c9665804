use crucible_core::sandbox::capability::{
    SandboxBackendId, SandboxBackendIdentity, SandboxBackendProvenance, SandboxCapabilities,
    SandboxCapability, SandboxFeature,
};
use crucible_core::sandbox::manifest::SandboxManifest;
use crucible_core::sandbox::policy::{
    SandboxFilesystemAccess, SandboxFilesystemProvenance, SandboxFilesystemRule, SandboxMode,
    SandboxNetworkPolicy, SandboxPolicy, SandboxPolicyError, SandboxResourceLimits,
};
use crucible_core::sandbox::service::{
    negotiate, SandboxCheckpoint, SandboxCleanup, SandboxError, SandboxInspection,
    SandboxInvocationMode, SandboxNetworkInspection, SandboxRequest,
};

fn policy() -> SandboxPolicy {
    let rule = SandboxFilesystemRule::new(
        "/workspace",
        SandboxFilesystemAccess::ReadWrite,
        SandboxFilesystemProvenance::Workspace,
    )
    .expect("rule");
    SandboxPolicy::new(
        SandboxMode::Required,
        vec![rule],
        "/workspace",
        SandboxNetworkPolicy::Closed,
        SandboxResourceLimits::default(),
    )
    .expect("policy")
}

fn identity() -> SandboxBackendIdentity {
    SandboxBackendIdentity::new(
        SandboxBackendId::new("compatibility").expect("id"),
        "1",
        SandboxBackendProvenance::Compatibility,
        None,
    )
    .expect("identity")
}

fn enforcing() -> SandboxCapabilities {
    let mut claims = SandboxCapabilities::none();
    for feature in [
        SandboxFeature::Filesystem,
        SandboxFeature::NetworkDeny,
        SandboxFeature::DescriptorIsolation,
        SandboxFeature::ProcessIsolation,
        SandboxFeature::KernelSurface,
        SandboxFeature::PrivilegeIsolation,
        SandboxFeature::Audit,
    ] {
        claims = claims.with(feature, SandboxCapability::Enforced);
    }
    claims.with(SandboxFeature::Usage, SandboxCapability::Observed)
}

fn required_negotiation() {
    let capabilities =
        SandboxCapabilities::none().with(SandboxFeature::Filesystem, SandboxCapability::Observed);
    assert!(matches!(
        negotiate(&policy(), &SandboxManifest::empty(), SandboxInvocationMode::Foreground, false, &capabilities),
        Err(SandboxError::Unsupported { feature: SandboxFeature::Filesystem })
    ));
}

fn unconfined_label() {
    let policy = policy();
    let manifest = SandboxManifest::empty();
    assert!(SandboxInspection::new(
        identity(),
        SandboxCapabilities::none(),
        &policy,
        &manifest,
        true,
        None,
        SandboxCleanup::Pending,
    )
    .is_err());
    assert!(
        SandboxInspection::new(
            identity(),
            SandboxCapabilities::none(),
            &policy,
            &manifest,
            false,
            None,
            SandboxCleanup::Pending,
        )
        .is_err(),
        "an unconfined report requires an explicit degradation reason"
    );
    assert!(
        SandboxInspection::new(
            identity(),
            SandboxCapabilities::none(),
            &policy,
            &manifest,
            true,
            Some("contradictory degradation".to_string()),
            SandboxCleanup::Pending,
        )
        .is_err(),
        "a confined report cannot also claim degradation"
    );
}

#[test]
fn service_required_negotiation_refuses_observed_or_missing_features() {
    required_negotiation();
}

#[test]
fn tests_required_negotiation_refuses_observed_or_missing_features() {
    required_negotiation();
}

#[test]
fn service_unconfined_backend_cannot_label_itself_confined() {
    unconfined_label();
}

#[test]
fn tests_unconfined_backend_cannot_label_itself_confined() {
    unconfined_label();
}

#[test]
fn negotiation_needs_a_result_key_off_the_foreground_and_every_feature_claimed() {
    let base = policy();
    let manifest = SandboxManifest::empty();
    assert!(negotiate(&base, &manifest, SandboxInvocationMode::Foreground, false, &enforcing()).is_ok());
    assert!(matches!(
        negotiate(&base, &manifest, SandboxInvocationMode::Background, false, &enforcing()),
        Err(SandboxError::InvalidInspection)
    ));
    assert!(negotiate(&base, &manifest, SandboxInvocationMode::Detachable, true, &enforcing()).is_ok());
    let bounded = base
        .with_limits(SandboxResourceLimits { memory_bytes: Some(1024), ..SandboxResourceLimits::default() })
        .expect("bounded");
    assert!(matches!(
        negotiate(&bounded, &manifest, SandboxInvocationMode::Foreground, false, &enforcing()),
        Err(SandboxError::Unsupported { feature: SandboxFeature::MemoryLimit })
    ));
    let observed_usage_missing = enforcing().with(SandboxFeature::Usage, SandboxCapability::Unsupported);
    assert!(matches!(
        negotiate(&policy(), &manifest, SandboxInvocationMode::Foreground, false, &observed_usage_missing),
        Err(SandboxError::Unsupported { feature: SandboxFeature::Usage })
    ));
}

#[test]
fn a_confined_report_keeps_plans_and_digests_and_redacts_paths() {
    let policy = policy();
    let manifest = SandboxManifest::empty();
    let report = SandboxInspection::new(
        identity(),
        enforcing(),
        &policy,
        &manifest,
        true,
        None,
        SandboxCleanup::Pending,
    )
    .expect("confined report");
    assert!(report.confined());
    assert_eq!(report.degradation(), None);
    assert_eq!(report.policy_digest(), policy.digest());
    assert_eq!(report.requested_policy_digest(), policy.digest());
    assert_eq!(report.manifest_digest(), manifest.digest());
    assert_eq!(report.plan().mode(), SandboxMode::Required);
    assert_eq!(report.plan().network(), SandboxNetworkInspection::Closed);
    assert_eq!(report.plan().roots().len(), 1);
    assert_eq!(report.plan().roots()[0].access(), SandboxFilesystemAccess::ReadWrite);
    assert_ne!(report.plan().roots()[0].identity(), report.plan().working_directory());
    assert_eq!(report.plan().command_policy(), policy.commands().digest());
    assert_eq!(report.plan().manifest_entries(), 0);
    assert_eq!(report.cleanup(), SandboxCleanup::Pending);
    let cleaned = report.cleaned(SandboxCleanup::Complete);
    assert_eq!(cleaned.cleanup(), SandboxCleanup::Complete);

    let degraded = SandboxInspection::new(
        identity(),
        SandboxCapabilities::none(),
        &policy,
        &manifest,
        false,
        Some("compatibility backend".to_string()),
        SandboxCleanup::Pending,
    )
    .expect("degraded report");
    assert_eq!(degraded.degradation(), Some("compatibility backend"));
    assert!(SandboxInspection::new(
        identity(),
        SandboxCapabilities::none(),
        &policy,
        &manifest,
        false,
        Some("x".repeat(129)),
        SandboxCleanup::Pending,
    )
    .is_err());
}

#[test]
fn a_checkpoint_resumes_only_on_the_same_plan_and_no_weaker_claims() {
    let policy = policy();
    let manifest = SandboxManifest::empty();
    let report = SandboxInspection::new(identity(), enforcing(), &policy, &manifest, true, None, SandboxCleanup::Pending)
        .expect("report");
    let checkpoint = SandboxCheckpoint::from_inspection(&report);
    assert!(checkpoint.confined());
    assert_eq!(checkpoint.policy_digest(), policy.digest());
    assert!(checkpoint.is_compatible_with(&checkpoint));
    let stronger = SandboxCheckpoint::restore(
        identity(),
        enforcing().with(SandboxFeature::Usage, SandboxCapability::Enforced),
        SandboxMode::Required,
        SandboxNetworkInspection::Closed,
        policy.digest(),
        manifest.digest(),
        true,
    )
    .expect("restored");
    assert!(checkpoint.is_compatible_with(&stronger));
    assert!(!stronger.is_compatible_with(&checkpoint));
    assert!(matches!(
        SandboxCheckpoint::restore(
            identity(),
            SandboxCapabilities::none(),
            SandboxMode::Required,
            SandboxNetworkInspection::Closed,
            policy.digest(),
            manifest.digest(),
            true,
        ),
        Err(SandboxError::InvalidInspection)
    ));
    assert!(SandboxCheckpoint::restore(
        identity(),
        SandboxCapabilities::none(),
        SandboxMode::Off,
        SandboxNetworkInspection::Exact { endpoints: 0, dns: false, forwarding: false },
        policy.digest(),
        manifest.digest(),
        false,
    )
    .is_err());
}

fn policy_in(mode: SandboxMode) -> SandboxPolicy {
    let rule = SandboxFilesystemRule::new(
        "/workspace",
        SandboxFilesystemAccess::ReadWrite,
        SandboxFilesystemProvenance::Workspace,
    )
    .expect("rule");
    SandboxPolicy::new(
        mode,
        vec![rule],
        "/workspace",
        SandboxNetworkPolicy::Closed,
        SandboxResourceLimits::default(),
    )
    .expect("policy")
}

#[test]
fn a_request_keeps_what_it_asked_for_beside_what_its_parent_allows() {
    let request = SandboxRequest::new(policy(), SandboxManifest::empty());
    assert!(request.requested_policy() == &policy());
    assert!(request.policy() == &policy());
    assert_eq!(request.invocation_mode(), SandboxInvocationMode::Foreground);

    let request = request.with_invocation_mode(SandboxInvocationMode::Background);
    assert_eq!(request.invocation_mode(), SandboxInvocationMode::Background);
    let restricted = request.restricted_to(&policy()).expect("within the parent");
    assert!(restricted.requested_policy() == &policy());
    assert_eq!(restricted.invocation_mode(), SandboxInvocationMode::Background);

    let weaker = SandboxRequest::new(policy_in(SandboxMode::Off), SandboxManifest::empty());
    match weaker.restricted_to(&policy()) {
        Err(error) => assert_eq!(error, SandboxPolicyError::WeakerMode),
        Ok(_) => panic!("a request weaker than its parent was accepted"),
    }
}

#[test]
fn a_request_is_reported_confined_only_with_every_essential_boundary_enforced() {
    let request = SandboxRequest::new(policy(), SandboxManifest::empty());
    let report = SandboxInspection::confined_for_request(identity(), enforcing(), &request)
        .expect("every essential boundary is enforced");
    assert!(report.confined());
    assert_eq!(report.degradation(), None);
    assert_eq!(report.cleanup(), SandboxCleanup::Pending);
    assert_eq!(report.policy_digest(), report.requested_policy_digest());

    assert!(matches!(
        SandboxInspection::confined_for_request(identity(), SandboxCapabilities::none(), &request),
        Err(SandboxError::InvalidInspection)
    ));
    let degraded = SandboxInspection::unconfined_for_request(
        identity(),
        SandboxCapabilities::none(),
        &request,
        "no kernel sandbox on this host".to_string(),
    )
    .expect("an unconfined report with its reason");
    assert!(!degraded.confined());
    assert_eq!(degraded.degradation(), Some("no kernel sandbox on this host"));
    assert!(matches!(
        SandboxInspection::unconfined_for_request(identity(), SandboxCapabilities::none(), &request, String::new()),
        Err(SandboxError::InvalidInspection)
    ));
}
