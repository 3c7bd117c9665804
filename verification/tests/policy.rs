use std::time::Duration;

use crucible_core::sandbox::capability::{SandboxCapability, SandboxFeature};
use crucible_core::sandbox::manifest::SandboxManifest;
use crucible_core::sandbox::service::capability_requirements;

use crucible_core::sandbox::guardrail::{
    SandboxCommandPolicy, SandboxCommandRule, SandboxGuardrailEffect, MAX_SANDBOX_GUARDRAIL_LAYERS,
};
use crucible_core::sandbox::policy::{
    SandboxFilesystemAccess, SandboxFilesystemProvenance, SandboxFilesystemRule, SandboxMode,
    SandboxNetworkEndpoint, SandboxNetworkPolicy, SandboxPolicy, SandboxPolicyError,
    SandboxResourceLimits, MAX_SANDBOX_FILESYSTEM_RULES,
};

fn rule(path: &str, access: SandboxFilesystemAccess) -> SandboxFilesystemRule {
    match SandboxFilesystemRule::new(path, access, SandboxFilesystemProvenance::Workspace) {
        Ok(rule) => rule,
        Err(error) => panic!("valid fixture rule: {error:?}"),
    }
}

fn policy(mode: SandboxMode, rules: Vec<SandboxFilesystemRule>) -> SandboxPolicy {
    let working_directory = rules.first().map(|rule| rule.path().to_string()).unwrap_or_else(|| "/workspace".to_string());
    match SandboxPolicy::new(
        mode,
        rules,
        &working_directory,
        SandboxNetworkPolicy::Closed,
        SandboxResourceLimits::default(),
    ) {
        Ok(policy) => policy,
        Err(error) => panic!("valid fixture policy: {error:?}"),
    }
}

fn refusal(result: Result<SandboxPolicy, SandboxPolicyError>) -> Option<SandboxPolicyError> {
    match result {
        Ok(_) => None,
        Err(error) => Some(error),
    }
}

#[test]
fn descendants_may_narrow_but_never_widen_filesystem_or_mode() {
    let parent = policy(SandboxMode::Required, vec![rule("/workspace", SandboxFilesystemAccess::ReadWrite)]);
    let narrower = policy(SandboxMode::Required, vec![rule("/workspace/src", SandboxFilesystemAccess::ReadOnly)]);
    assert!(SandboxPolicy::restrict(&parent, narrower).is_ok());

    let weaker = policy(SandboxMode::Off, vec![rule("/workspace", SandboxFilesystemAccess::ReadWrite)]);
    assert_eq!(refusal(SandboxPolicy::restrict(&parent, weaker)), Some(SandboxPolicyError::WeakerMode));

    let wider = policy(SandboxMode::Required, vec![rule("/other", SandboxFilesystemAccess::ReadOnly)]);
    assert_eq!(refusal(SandboxPolicy::restrict(&parent, wider)), Some(SandboxPolicyError::FilesystemWidening));
}

#[test]
fn mount_aliases_cannot_bypass_narrower_descendant_rules() {
    let protected = policy(
        SandboxMode::Required,
        vec![
            rule("/workspace", SandboxFilesystemAccess::ReadWrite),
            rule("/workspace/.git", SandboxFilesystemAccess::Protected),
        ],
    );
    assert!(!protected.permits_path("/workspace", SandboxFilesystemAccess::ReadWrite));
    assert!(protected.permits_path("/workspace", SandboxFilesystemAccess::ReadOnly));

    let unreadable = policy(
        SandboxMode::Required,
        vec![
            rule("/workspace", SandboxFilesystemAccess::ReadWrite),
            rule("/workspace/private", SandboxFilesystemAccess::Unreadable),
        ],
    );
    assert!(!unreadable.permits_path("/workspace", SandboxFilesystemAccess::ReadOnly));
}

#[test]
fn the_deepest_rule_decides_a_path() {
    let protected = policy(
        SandboxMode::Required,
        vec![
            rule("/workspace", SandboxFilesystemAccess::ReadWrite),
            rule("/workspace/.git", SandboxFilesystemAccess::Protected),
        ],
    );
    assert!(protected.permits_path("/workspace/src/lib.rs", SandboxFilesystemAccess::ReadWrite));
    assert!(!protected.permits_path("/workspace/.git/config", SandboxFilesystemAccess::ReadWrite));
    assert!(!protected.permits_path("/workspace/.git/config", SandboxFilesystemAccess::ReadOnly));
    assert!(protected.permits_path("/workspace/.git/config", SandboxFilesystemAccess::Protected));
    assert!(!protected.permits_path("/elsewhere", SandboxFilesystemAccess::ReadOnly));
    assert!(!protected.permits_path("relative", SandboxFilesystemAccess::ReadOnly));
    assert!(!protected.permits_path("/workspace/../etc", SandboxFilesystemAccess::ReadOnly));
}

#[test]
fn rules_are_kept_sorted_by_path_without_repeats() {
    let sorted = policy(
        SandboxMode::Required,
        vec![
            rule("/workspace/src", SandboxFilesystemAccess::ReadOnly),
            rule("/workspace", SandboxFilesystemAccess::ReadWrite),
            rule("/workspace/src/", SandboxFilesystemAccess::ReadOnly),
            rule("/workspace-other", SandboxFilesystemAccess::ReadOnly),
        ],
    );
    let paths: Vec<&str> = sorted.filesystem().iter().map(|rule| rule.path()).collect();
    assert_eq!(paths, ["/workspace", "/workspace/src", "/workspace-other"]);
    assert_eq!(sorted.working_directory(), "/workspace/src");
    assert_eq!(sorted.mode(), SandboxMode::Required);
    assert_eq!(sorted.network(), &SandboxNetworkPolicy::Closed);
    assert_eq!(sorted.limits(), SandboxResourceLimits::default());
    assert!(!sorted.persistent());
    assert!(!sorted.snapshots());
    assert!(sorted.commands() == &SandboxCommandPolicy::allow_all());
}

#[test]
fn construction_refuses_each_broken_part() {
    let closed = || SandboxNetworkPolicy::Closed;
    let limits = SandboxResourceLimits::default();
    assert_eq!(
        refusal(SandboxPolicy::new(SandboxMode::Required, Vec::new(), "/workspace", closed(), limits)),
        Some(SandboxPolicyError::InvalidFilesystemRuleCount)
    );
    let too_many: Vec<SandboxFilesystemRule> = (0..=MAX_SANDBOX_FILESYSTEM_RULES)
        .map(|index| rule(&format!("/workspace/{index}"), SandboxFilesystemAccess::ReadOnly))
        .collect();
    assert_eq!(
        refusal(SandboxPolicy::new(SandboxMode::Required, too_many, "/workspace/0", closed(), limits)),
        Some(SandboxPolicyError::InvalidFilesystemRuleCount)
    );
    assert_eq!(
        refusal(SandboxPolicy::new(
            SandboxMode::Required,
            vec![
                rule("/workspace", SandboxFilesystemAccess::ReadWrite),
                rule("/workspace/", SandboxFilesystemAccess::ReadOnly),
            ],
            "/workspace",
            closed(),
            limits,
        )),
        Some(SandboxPolicyError::ConflictingFilesystemRule)
    );
    assert_eq!(
        refusal(SandboxPolicy::new(
            SandboxMode::Required,
            vec![rule("/workspace", SandboxFilesystemAccess::ReadWrite)],
            "workspace",
            closed(),
            limits,
        )),
        Some(SandboxPolicyError::InvalidPath)
    );
    assert_eq!(
        refusal(SandboxPolicy::new(
            SandboxMode::Required,
            vec![rule("/workspace", SandboxFilesystemAccess::ReadWrite)],
            "/other",
            closed(),
            limits,
        )),
        Some(SandboxPolicyError::WorkingDirectoryOutsidePolicy)
    );
    assert_eq!(
        refusal(SandboxPolicy::new(
            SandboxMode::Required,
            vec![
                rule("/workspace", SandboxFilesystemAccess::ReadWrite),
                rule("/workspace/private", SandboxFilesystemAccess::Unreadable),
            ],
            "/workspace/private/deeper",
            closed(),
            limits,
        )),
        Some(SandboxPolicyError::WorkingDirectoryOutsidePolicy)
    );
    let zero = SandboxResourceLimits { processes: Some(0), ..SandboxResourceLimits::default() };
    assert_eq!(
        refusal(SandboxPolicy::new(
            SandboxMode::Required,
            vec![rule("/workspace", SandboxFilesystemAccess::ReadWrite)],
            "/workspace",
            closed(),
            zero,
        )),
        Some(SandboxPolicyError::InvalidResourceLimit)
    );
}

#[test]
fn descendants_cannot_widen_network_ceilings_or_commands() {
    let parent = policy(SandboxMode::Degraded, vec![rule("/workspace", SandboxFilesystemAccess::ReadWrite)])
        .with_limits(SandboxResourceLimits { memory_bytes: Some(1024), ..SandboxResourceLimits::default() })
        .expect("bounded parent");

    let stronger = policy(SandboxMode::Required, vec![rule("/workspace", SandboxFilesystemAccess::ReadOnly)])
        .with_limits(SandboxResourceLimits { memory_bytes: Some(512), ..SandboxResourceLimits::default() })
        .expect("bounded child");
    let accepted = match SandboxPolicy::restrict(&parent, stronger.clone()) {
        Ok(policy) => policy,
        Err(error) => panic!("narrower child: {error:?}"),
    };
    assert_eq!(accepted.mode(), SandboxMode::Required);
    assert_eq!(accepted.limits().memory_bytes, Some(512));

    let endpoint = SandboxNetworkEndpoint::new("example.com", 443).expect("endpoint");
    let open_child = match SandboxPolicy::new(
        SandboxMode::Required,
        vec![rule("/workspace", SandboxFilesystemAccess::ReadOnly)],
        "/workspace",
        SandboxNetworkPolicy::exact(vec![endpoint], false, false).expect("exact"),
        SandboxResourceLimits { memory_bytes: Some(512), ..SandboxResourceLimits::default() },
    ) {
        Ok(policy) => policy,
        Err(error) => panic!("child: {error:?}"),
    };
    assert_eq!(refusal(SandboxPolicy::restrict(&parent, open_child)), Some(SandboxPolicyError::NetworkWidening));

    let unbounded = policy(SandboxMode::Required, vec![rule("/workspace", SandboxFilesystemAccess::ReadOnly)]);
    assert_eq!(refusal(SandboxPolicy::restrict(&parent, unbounded)), Some(SandboxPolicyError::ResourceWidening));

    let filter = |word: &str| {
        SandboxCommandPolicy::new(vec![SandboxCommandRule::prefix(SandboxGuardrailEffect::Allow, vec![word.to_string()])
            .expect("rule")])
        .expect("filter")
    };
    let mut stacked = filter("/usr/bin/cargo");
    for _ in 1..MAX_SANDBOX_GUARDRAIL_LAYERS {
        stacked = SandboxCommandPolicy::intersect(&stacked, &filter("/usr/bin/cargo")).expect("stack");
    }
    let crowded = stronger.with_command_policy(stacked);
    let commanded_parent = parent.clone().with_command_policy(filter("/usr/bin/cargo"));
    assert_eq!(
        refusal(SandboxPolicy::restrict(&commanded_parent, crowded)),
        Some(SandboxPolicyError::InvalidCommandPolicy)
    );
}

#[test]
fn the_digest_follows_every_part_of_a_policy() {
    let base = policy(SandboxMode::Required, vec![rule("/workspace", SandboxFilesystemAccess::ReadWrite)]);
    assert_eq!(base.digest(), base.clone().digest());
    assert_ne!(base.digest(), base.clone().with_mode(SandboxMode::Degraded).digest());
    let timed = base
        .clone()
        .with_limits(SandboxResourceLimits { command_time: Some(Duration::from_millis(1500)), ..SandboxResourceLimits::default() })
        .expect("timed");
    assert_ne!(base.digest(), timed.digest());
    let other = policy(SandboxMode::Required, vec![rule("/workspace", SandboxFilesystemAccess::ReadOnly)]);
    assert_ne!(base.digest(), other.digest());
    let filtered = base.clone().with_command_policy(
        SandboxCommandPolicy::new(vec![SandboxCommandRule::exact(
            SandboxGuardrailEffect::Deny,
            vec!["/usr/bin/rm".to_string()],
        )
        .expect("rule")])
        .expect("filter"),
    );
    assert_ne!(base.digest(), filtered.digest());
    assert_eq!(
        refusal(base.with_limits(SandboxResourceLimits { session_time: Some(Duration::ZERO), ..SandboxResourceLimits::default() })),
        Some(SandboxPolicyError::InvalidResourceLimit)
    );
}

#[test]
fn a_required_policy_needs_its_whole_boundary_enforced() {
    let empty = SandboxManifest::empty();
    let required = policy(SandboxMode::Required, vec![rule("/workspace", SandboxFilesystemAccess::ReadWrite)])
        .with_limits(SandboxResourceLimits { memory_bytes: Some(1024), ..SandboxResourceLimits::default() })
        .expect("bounded");
    let enforced = SandboxCapability::Enforced;
    assert_eq!(
        capability_requirements(&required, &empty),
        vec![
            (SandboxFeature::Filesystem, enforced),
            (SandboxFeature::DescriptorIsolation, enforced),
            (SandboxFeature::ProcessIsolation, enforced),
            (SandboxFeature::KernelSurface, enforced),
            (SandboxFeature::PrivilegeIsolation, enforced),
            (SandboxFeature::NetworkDeny, enforced),
            (SandboxFeature::MemoryLimit, enforced),
            (SandboxFeature::Audit, enforced),
            (SandboxFeature::Usage, SandboxCapability::Observed),
        ]
    );
    let off = policy(SandboxMode::Off, vec![rule("/workspace", SandboxFilesystemAccess::ReadWrite)]);
    assert_eq!(
        capability_requirements(&off, &empty),
        vec![(SandboxFeature::Audit, enforced), (SandboxFeature::Usage, SandboxCapability::Observed)]
    );
}
