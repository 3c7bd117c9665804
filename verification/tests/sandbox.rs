use std::time::Duration;

use crucible_core::sandbox::capability::{
    SandboxBackendId, SandboxBackendIdentity, SandboxBackendProvenance, SandboxCapabilities,
    SandboxCapability, SandboxCapabilityError, SandboxFeature, MAX_SANDBOX_BACKEND_ID_BYTES,
};
use crucible_core::sandbox::manifest::{
    SandboxManifest, SandboxManifestEntry, SandboxManifestError, MAX_SANDBOX_MANIFEST_BYTES,
    MAX_SANDBOX_MANIFEST_ENTRIES, MAX_SANDBOX_MANIFEST_FILE_BYTES,
};
use crucible_core::sandbox::policy::{
    SandboxFilesystemAccess, SandboxFilesystemProvenance, SandboxFilesystemRule, SandboxMode,
    SandboxNetworkEndpoint, SandboxNetworkPolicy, SandboxPolicyError, SandboxResourceLimits,
};

#[test]
fn backend_identity_is_bounded_and_does_not_debug_its_digest() {
    assert!(SandboxBackendId::new("linux-bubblewrap").is_ok());
    assert!(SandboxBackendId::new("").is_err());
    assert!(SandboxBackendId::new(&"x".repeat(MAX_SANDBOX_BACKEND_ID_BYTES + 1)).is_err());
    assert_eq!(
        SandboxBackendId::new("bad/name").err(),
        Some(SandboxCapabilityError::InvalidBackendId)
    );

    let identity = match SandboxBackendIdentity::new(
        SandboxBackendId::new("linux-bubblewrap").expect("valid id"),
        "0.11.1",
        SandboxBackendProvenance::System,
        Some([7; 32]),
    ) {
        Ok(identity) => identity,
        Err(error) => panic!("{}", error.message()),
    };
    assert_eq!(identity.id().as_str(), "linux-bubblewrap");
    assert_eq!(identity.version(), "0.11.1");
    assert_eq!(identity.provenance(), SandboxBackendProvenance::System);
    assert_eq!(identity.digest(), Some([7; 32]));
    assert!(SandboxBackendIdentity::new(
        SandboxBackendId::new("x").expect("valid id"),
        "",
        SandboxBackendProvenance::Bundled,
        None,
    )
    .is_err());
}

#[test]
fn capability_claims_distinguish_observation_from_enforcement() {
    let capabilities = SandboxCapabilities::none()
        .with(SandboxFeature::MemoryLimit, SandboxCapability::Observed)
        .with(SandboxFeature::Filesystem, SandboxCapability::Enforced);

    assert_eq!(
        capabilities.claim(SandboxFeature::MemoryLimit),
        SandboxCapability::Observed
    );
    assert!(!capabilities
        .claim(SandboxFeature::MemoryLimit)
        .is_enforced());
    assert!(capabilities.claim(SandboxFeature::Filesystem).is_enforced());
}

#[test]
fn an_unset_claim_is_unsupported() {
    let capabilities = SandboxCapabilities::default().with(SandboxFeature::Usage, SandboxCapability::Enforced);
    assert_eq!(capabilities.claim(SandboxFeature::Pty), SandboxCapability::Unsupported);
    assert_eq!(capabilities.claim(SandboxFeature::Usage), SandboxCapability::Enforced);
    assert!(SandboxCapability::Observed < SandboxCapability::Enforced);
}

#[test]
fn resource_ceiling_cannot_disappear_or_grow_in_a_descendant() {
    let parent = SandboxResourceLimits {
        memory_bytes: Some(1024),
        command_time: Some(Duration::from_secs(10)),
        ..SandboxResourceLimits::default()
    };
    let narrow = SandboxResourceLimits {
        memory_bytes: Some(512),
        command_time: Some(Duration::from_secs(5)),
        ..SandboxResourceLimits::default()
    };
    assert!(narrow.is_no_wider_than(parent));
    assert!(!SandboxResourceLimits::default().is_no_wider_than(parent));
}

#[test]
fn a_longer_time_or_a_larger_count_is_wider() {
    let parent = SandboxResourceLimits {
        processes: Some(8),
        session_time: Some(Duration::from_millis(1500)),
        ..SandboxResourceLimits::default()
    };
    let longer = SandboxResourceLimits {
        processes: Some(8),
        session_time: Some(Duration::from_millis(1501)),
        ..SandboxResourceLimits::default()
    };
    let more = SandboxResourceLimits {
        processes: Some(9),
        session_time: Some(Duration::from_millis(1500)),
        ..SandboxResourceLimits::default()
    };
    assert!(!longer.is_no_wider_than(parent));
    assert!(!more.is_no_wider_than(parent));
    assert!(parent.is_no_wider_than(parent));
    assert!(parent.valid());
    let zero = SandboxResourceLimits {
        command_time: Some(Duration::ZERO),
        ..SandboxResourceLimits::default()
    };
    assert!(!zero.valid());
    assert!(!SandboxResourceLimits {
        cost_micros: Some(0),
        ..SandboxResourceLimits::default()
    }
    .valid());
}

#[test]
fn exact_network_policy_is_canonical_and_closed_is_always_narrower() {
    let first = SandboxNetworkEndpoint::new("example.com", 443).expect("endpoint");
    let exact =
        SandboxNetworkPolicy::exact(vec![first.clone(), first], true, false).expect("exact policy");
    let SandboxNetworkPolicy::Exact { endpoints, .. } = &exact else {
        panic!("expected exact policy");
    };
    assert_eq!(endpoints.len(), 1);
    assert!(SandboxNetworkPolicy::Closed.is_no_wider_than(&exact));
    assert!(!exact.is_no_wider_than(&SandboxNetworkPolicy::Closed));
}

#[test]
fn exact_endpoints_are_sorted_by_host_then_port() {
    let endpoint = |host: &str, port: u16| SandboxNetworkEndpoint::new(host, port).expect("endpoint");
    let exact = SandboxNetworkPolicy::exact(
        vec![
            endpoint("b.example", 80),
            endpoint("a.example", 443),
            endpoint("a.example", 80),
            endpoint("b.example", 80),
        ],
        false,
        false,
    )
    .expect("exact policy");
    let SandboxNetworkPolicy::Exact { endpoints, .. } = &exact else {
        panic!("expected exact policy");
    };
    let seen: Vec<(&str, u16)> = endpoints.iter().map(|e| (e.host(), e.port())).collect();
    assert_eq!(seen, [("a.example", 80), ("a.example", 443), ("b.example", 80)]);

    let narrower = SandboxNetworkPolicy::exact(vec![endpoint("a.example", 80)], false, false)
        .expect("exact policy");
    assert!(narrower.is_no_wider_than(&exact));
    let with_dns = SandboxNetworkPolicy::exact(vec![endpoint("a.example", 80)], true, false)
        .expect("exact policy");
    assert!(!with_dns.is_no_wider_than(&exact));
    let elsewhere = SandboxNetworkPolicy::exact(vec![endpoint("c.example", 80)], false, false)
        .expect("exact policy");
    assert!(!elsewhere.is_no_wider_than(&exact));
    assert_eq!(
        SandboxNetworkPolicy::exact(Vec::new(), false, false),
        Err(SandboxPolicyError::InvalidEndpointCount)
    );
}

#[test]
fn endpoints_and_rules_are_validated() {
    assert_eq!(
        SandboxNetworkEndpoint::new("example.com", 0),
        Err(SandboxPolicyError::InvalidEndpoint)
    );
    assert!(SandboxNetworkEndpoint::new("bad\nhost", 443).is_err());
    assert!(SandboxNetworkEndpoint::new(&"h".repeat(254), 443).is_err());
    assert!(SandboxFilesystemRule::new(
        "/workspace/src",
        SandboxFilesystemAccess::ReadOnly,
        SandboxFilesystemProvenance::Workspace
    )
    .is_ok());
    for invalid in ["", "relative", "/workspace/../etc"] {
        assert!(matches!(
            SandboxFilesystemRule::new(
                invalid,
                SandboxFilesystemAccess::ReadOnly,
                SandboxFilesystemProvenance::Workspace
            ),
            Err(SandboxPolicyError::InvalidPath)
        ));
    }
    assert!(SandboxMode::Degraded.permits(SandboxMode::Required));
    assert!(!SandboxMode::Required.permits(SandboxMode::Off));
}

#[test]
fn destinations_cannot_be_absolute_or_traverse() {
    let provenance = SandboxFilesystemProvenance::Manifest;
    assert!(SandboxManifestEntry::directory("nested/data", provenance).is_ok());
    assert!(SandboxManifestEntry::directory("/absolute", provenance).is_err());
    assert!(SandboxManifestEntry::directory("../escape", provenance).is_err());
    assert!(SandboxManifestEntry::directory("a/../escape", provenance).is_err());
    assert!(SandboxManifestEntry::directory("nul\0escape", provenance).is_err());
    assert!(SandboxManifestEntry::mount(
        "/workspace/nul\0source",
        "source",
        SandboxFilesystemAccess::ReadOnly,
        provenance,
    )
    .is_err());
}

fn entry(result: Result<SandboxManifestEntry, SandboxManifestError>) -> SandboxManifestEntry {
    match result {
        Ok(entry) => entry,
        Err(error) => panic!("{}", error.message()),
    }
}

fn manifest(result: Result<SandboxManifest, SandboxManifestError>) -> SandboxManifest {
    match result {
        Ok(manifest) => manifest,
        Err(error) => panic!("{}", error.message()),
    }
}

#[test]
fn manifests_are_canonical_bounded_and_digest_content() {
    let provenance = SandboxFilesystemProvenance::Manifest;
    let first = manifest(SandboxManifest::new(vec![
        entry(SandboxManifestEntry::file("b", b"two".to_vec(), provenance)),
        entry(SandboxManifestEntry::file("a", b"one".to_vec(), provenance)),
    ]));
    let reordered = manifest(SandboxManifest::new(vec![
        entry(SandboxManifestEntry::file("a", b"one".to_vec(), provenance)),
        entry(SandboxManifestEntry::file("b", b"two".to_vec(), provenance)),
    ]));
    let changed = manifest(SandboxManifest::new(vec![entry(SandboxManifestEntry::file(
        "a",
        b"different".to_vec(),
        provenance,
    ))]));

    assert_eq!(first.digest(), reordered.digest());
    assert_ne!(first.digest(), changed.digest());
    assert_eq!(
        first.entries().first().map(SandboxManifestEntry::destination),
        Some("a")
    );
}

#[test]
fn non_directory_destinations_cannot_hide_descendant_entries() {
    let provenance = SandboxFilesystemProvenance::Manifest;
    let file = entry(SandboxManifestEntry::file("tree", b"file".to_vec(), provenance));
    let child = entry(SandboxManifestEntry::directory("tree/child", provenance));
    assert!(matches!(
        SandboxManifest::new(vec![file, child]),
        Err(SandboxManifestError::OverlappingDestination)
    ));

    let file = entry(SandboxManifestEntry::file("tree", b"file".to_vec(), provenance));
    let lexical_sibling = entry(SandboxManifestEntry::directory("tree-sibling", provenance));
    let child = entry(SandboxManifestEntry::directory("tree/child", provenance));
    assert!(matches!(
        SandboxManifest::new(vec![file, lexical_sibling, child]),
        Err(SandboxManifestError::OverlappingDestination)
    ));

    let directory = entry(SandboxManifestEntry::directory("tree", provenance));
    let child = entry(SandboxManifestEntry::file("tree/child", b"child".to_vec(), provenance));
    assert!(SandboxManifest::new(vec![directory, child]).is_ok());
}

#[test]
fn manifest_entry_and_aggregate_bounds_are_enforced() {
    let provenance = SandboxFilesystemProvenance::Manifest;
    assert!(matches!(
        SandboxManifestEntry::file(
            "large",
            vec![0_u8; MAX_SANDBOX_MANIFEST_FILE_BYTES + 1],
            provenance,
        ),
        Err(SandboxManifestError::FileTooLarge)
    ));

    let entries: Vec<SandboxManifestEntry> = (0..=MAX_SANDBOX_MANIFEST_ENTRIES)
        .map(|index| entry(SandboxManifestEntry::directory(&format!("directory-{index}"), provenance)))
        .collect();
    assert!(matches!(
        SandboxManifest::new(entries),
        Err(SandboxManifestError::TooManyEntries)
    ));

    let entries: Vec<SandboxManifestEntry> = (0..=MAX_SANDBOX_MANIFEST_BYTES / MAX_SANDBOX_MANIFEST_FILE_BYTES)
        .map(|index| {
            entry(SandboxManifestEntry::file(
                &format!("file-{index}"),
                vec![0_u8; MAX_SANDBOX_MANIFEST_FILE_BYTES],
                provenance,
            ))
        })
        .collect();
    assert!(matches!(
        SandboxManifest::new(entries),
        Err(SandboxManifestError::ManifestTooLarge)
    ));

    assert!(SandboxManifestEntry::mount(
        "/",
        "root",
        SandboxFilesystemAccess::ReadOnly,
        provenance,
    )
    .is_err());
}

#[test]
fn one_destination_spelled_two_ways_is_a_duplicate() {
    let provenance = SandboxFilesystemProvenance::Manifest;
    let first = entry(SandboxManifestEntry::directory("a/b", provenance));
    let second = entry(SandboxManifestEntry::directory("a//b/", provenance));
    assert!(matches!(
        SandboxManifest::new(vec![first, second]),
        Err(SandboxManifestError::DuplicateDestination)
    ));
}

#[test]
fn destinations_are_ordered_part_by_part() {
    let provenance = SandboxFilesystemProvenance::Manifest;
    let made = manifest(SandboxManifest::new(vec![
        entry(SandboxManifestEntry::directory("tree-sibling", provenance)),
        entry(SandboxManifestEntry::file("tree/child", b"x".to_vec(), provenance)),
        entry(SandboxManifestEntry::directory("tree", provenance)),
    ]));
    let order: Vec<&str> = made.entries().iter().map(|e| e.destination()).collect();
    assert_eq!(order, ["tree", "tree/child", "tree-sibling"]);
    assert!(!made.is_empty());
    assert!(SandboxManifest::empty().is_empty());
    assert_eq!(SandboxManifest::default().digest(), SandboxManifest::empty().digest());
}

#[test]
fn mounts_must_be_read_only_or_writable() {
    let provenance = SandboxFilesystemProvenance::Manifest;
    assert!(matches!(
        SandboxManifestEntry::mount(
            "/workspace/data",
            "data",
            SandboxFilesystemAccess::Protected,
            provenance
        ),
        Err(SandboxManifestError::InvalidMountAccess)
    ));
    let mount = entry(SandboxManifestEntry::mount(
        "/workspace/data",
        "data",
        SandboxFilesystemAccess::ReadWrite,
        provenance,
    ));
    assert_eq!(mount.source(), Some("/workspace/data"));
    assert_eq!(mount.access(), Some(SandboxFilesystemAccess::ReadWrite));
    assert_eq!(mount.contents(), None);
    assert_eq!(mount.provenance(), provenance);
    assert!(matches!(
        SandboxManifestEntry::directory("./here", provenance),
        Err(SandboxManifestError::InvalidDestination)
    ));
    assert!(SandboxManifestEntry::directory("here/./there", provenance).is_ok());
}
