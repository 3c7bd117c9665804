use crucible_core::sandbox::service::{
    SandboxCommand, SandboxCredentialHandle, SandboxCredentialProjection, SandboxCredentialProvenance,
    SandboxEnvironment, SandboxError, SandboxNetworkInspection, SandboxUsage,
};
use std::time::Duration;

fn names(environment: &SandboxEnvironment) -> Vec<String> {
    environment.iter().into_iter().map(|(name, _)| name.to_string()).collect()
}

fn sorted_environment() {
    let environment = match SandboxEnvironment::new(&[("Z", "last-secret"), ("A", "first-secret")]) {
        Ok(environment) => environment,
        Err(error) => panic!("environment: {error:?}"),
    };
    assert_eq!(names(&environment), ["A", "Z"]);
    let values: Vec<&str> = environment.iter().into_iter().map(|(_, value)| value).collect();
    assert_eq!(values, ["first-secret", "last-secret"]);
}

fn projected_credentials() {
    let handle = match SandboxCredentialHandle::new("provider/openai/default", SandboxCredentialProvenance::User) {
        Ok(handle) => handle,
        Err(error) => panic!("credential handle: {error:?}"),
    };
    let credential =
        match SandboxCredentialProjection::new(handle.clone(), "OPENAI_API_KEY", "secret-provider-value") {
            Ok(credential) => credential,
            Err(error) => panic!("credential projection: {error:?}"),
        };
    let environment = match SandboxEnvironment::with_credentials(&[("LANG", "C")], vec![credential]) {
        Ok(environment) => environment,
        Err(error) => panic!("projected environment: {error:?}"),
    };

    assert_eq!(names(&environment), ["LANG", "OPENAI_API_KEY"]);
    assert!(environment.credentials() == vec![&handle]);
    assert_eq!(handle.provenance(), SandboxCredentialProvenance::User);
}

fn colliding_credential() {
    let handle = match SandboxCredentialHandle::new("provider/openai/default", SandboxCredentialProvenance::Account) {
        Ok(handle) => handle,
        Err(error) => panic!("credential handle: {error:?}"),
    };
    let credential = match SandboxCredentialProjection::new(handle, "TOKEN", "credential") {
        Ok(credential) => credential,
        Err(error) => panic!("credential projection: {error:?}"),
    };

    assert!(matches!(
        SandboxEnvironment::with_credentials(&[("TOKEN", "literal")], vec![credential]),
        Err(SandboxError::InvalidEnvironment)
    ));
}

fn nul_in_command() {
    assert!(matches!(
        SandboxCommand::new("/bin/sh", vec!["bad\0argument".to_string()], SandboxEnvironment::empty()),
        Err(SandboxError::InvalidCommand)
    ));
    assert!(matches!(
        SandboxCommand::new("/bin/bad\0program", Vec::new(), SandboxEnvironment::empty()),
        Err(SandboxError::InvalidCommand)
    ));
}

fn nul_in_environment() {
    assert!(matches!(
        SandboxEnvironment::new(&[("TOKEN", "bad\0value")]),
        Err(SandboxError::InvalidEnvironment)
    ));
}

#[test]
fn service_environment_is_sorted_bounded_and_redacted() {
    sorted_environment();
}

#[test]
fn tests_environment_is_sorted_bounded_and_redacted() {
    sorted_environment();
}

#[test]
fn service_credential_projections_are_typed_bounded_and_fully_redacted() {
    projected_credentials();
}

#[test]
fn tests_credential_projections_are_typed_bounded_and_fully_redacted() {
    projected_credentials();
}

#[test]
fn service_credential_names_cannot_collide_with_literal_environment_entries() {
    colliding_credential();
}

#[test]
fn tests_credential_names_cannot_collide_with_literal_environment_entries() {
    colliding_credential();
}

#[test]
fn service_command_images_reject_interior_nul_bytes() {
    nul_in_command();
}

#[test]
fn tests_command_images_reject_interior_nul_bytes() {
    nul_in_command();
}

#[test]
fn service_environment_values_reject_interior_nul_bytes() {
    nul_in_environment();
}

#[test]
fn tests_environment_values_reject_interior_nul_bytes() {
    nul_in_environment();
}

#[test]
fn a_command_reads_back_its_program_arguments_and_environment() {
    let environment = match SandboxEnvironment::new(&[("LANG", "C")]) {
        Ok(environment) => environment,
        Err(error) => panic!("environment: {error:?}"),
    };
    let command = match SandboxCommand::new("/bin/sh", vec!["-c".to_string(), "true".to_string()], environment) {
        Ok(command) => command,
        Err(error) => panic!("command: {error:?}"),
    };
    assert_eq!(command.program(), "/bin/sh");
    assert_eq!(command.arguments(), ["-c".to_string(), "true".to_string()]);
    assert_eq!(names(command.environment()), ["LANG"]);
    let moved = match command.transformed("/usr/bin/env", vec!["sh".to_string()]) {
        Ok(command) => command,
        Err(error) => panic!("transformed: {error:?}"),
    };
    assert_eq!(moved.program(), "/usr/bin/env");
    assert_eq!(moved.arguments(), ["sh".to_string()]);
    assert!(matches!(
        SandboxCommand::new("relative/program", Vec::new(), SandboxEnvironment::empty()),
        Err(SandboxError::InvalidCommand)
    ));
    assert!(matches!(
        SandboxEnvironment::new(&[("A", "1"), ("A", "2")]),
        Err(SandboxError::InvalidEnvironment)
    ));
    assert!(SandboxEnvironment::empty().is_empty());
}

#[test]
fn a_network_inspection_reads_as_its_shape() {
    let closed = SandboxNetworkInspection::Closed;
    assert_eq!(closed.as_str(), "closed");
    assert_eq!(closed.endpoints(), 0);
    assert!(!closed.dns());
    assert!(!closed.forwarding());
    let exact = SandboxNetworkInspection::Exact { endpoints: 3, dns: true, forwarding: false };
    assert_eq!(exact.as_str(), "exact");
    assert_eq!(exact.endpoints(), 3);
    assert!(exact.dns());
    assert!(!exact.forwarding());
}

#[test]
fn usage_starts_at_nothing() {
    let usage = SandboxUsage::default();
    assert_eq!(usage.wall_time, Duration::ZERO);
    assert_eq!(usage.output_bytes, 0);
    assert_eq!(usage.cpu_time, None);
}
