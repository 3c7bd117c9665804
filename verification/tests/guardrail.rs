use crucible_core::sandbox::guardrail::{
    SandboxCommandPolicy, SandboxCommandRule, SandboxCommandStage, SandboxGuardrailDecision,
    SandboxGuardrailEffect, SandboxGuardrailError, MAX_SANDBOX_GUARDRAIL_RULES,
};
use crucible_core::sandbox::service::{SandboxCommand, SandboxEnvironment};

fn words(items: &[&str]) -> Vec<String> {
    items.iter().map(|item| item.to_string()).collect()
}

fn command(arguments: &[&str]) -> SandboxCommand {
    match SandboxCommand::new("/usr/bin/cargo", words(arguments), SandboxEnvironment::empty()) {
        Ok(command) => command,
        Err(_) => panic!("command"),
    }
}

fn rule(made: Result<SandboxCommandRule, SandboxGuardrailError>, what: &str) -> SandboxCommandRule {
    match made {
        Ok(rule) => rule,
        Err(error) => panic!("{what}: {error:?}"),
    }
}

fn policy(made: Result<SandboxCommandPolicy, SandboxGuardrailError>, what: &str) -> SandboxCommandPolicy {
    match made {
        Ok(policy) => policy,
        Err(error) => panic!("{what}: {error:?}"),
    }
}

#[test]
fn every_guardrail_word_is_nonempty_and_nul_free() {
    assert!(matches!(
        SandboxCommandRule::exact(SandboxGuardrailEffect::Allow, words(&["/bin/sh", ""])),
        Err(SandboxGuardrailError::InvalidRule)
    ));
    assert!(matches!(
        SandboxCommandRule::prefix(SandboxGuardrailEffect::Allow, words(&["/bin/sh", "bad\0word"])),
        Err(SandboxGuardrailError::InvalidRule)
    ));
    assert!(matches!(
        SandboxCommandRule::anchored(SandboxGuardrailEffect::Allow, words(&["/bin/sh", ""])),
        Err(SandboxGuardrailError::InvalidRule)
    ));
}

#[test]
fn deny_wins_and_allow_sets_default_to_refusal() {
    let policy = policy(
        SandboxCommandPolicy::new(vec![
            rule(
                SandboxCommandRule::prefix(SandboxGuardrailEffect::Allow, words(&["/usr/bin/cargo", "test"])),
                "allow",
            ),
            rule(
                SandboxCommandRule::exact(
                    SandboxGuardrailEffect::Deny,
                    words(&["/usr/bin/cargo", "test", "--doc"]),
                ),
                "deny",
            ),
        ]),
        "policy",
    );

    assert_eq!(
        policy.evaluate(&command(&["test", "--lib"]), SandboxCommandStage::Effective),
        SandboxGuardrailDecision::Allowed
    );
    assert_eq!(
        policy.evaluate(&command(&["test", "--doc"]), SandboxCommandStage::Effective),
        SandboxGuardrailDecision::Denied
    );
    assert_eq!(
        policy.evaluate(&command(&["build"]), SandboxCommandStage::Effective),
        SandboxGuardrailDecision::Denied
    );
}

#[test]
fn anchored_patterns_match_each_complete_word() {
    let policy = policy(
        SandboxCommandPolicy::new(vec![rule(
            SandboxCommandRule::anchored(
                SandboxGuardrailEffect::Allow,
                words(&["/usr/bin/cargo", "t*", "--package", "crucible-?ore"]),
            ),
            "pattern",
        )]),
        "policy",
    );

    assert_eq!(
        policy.evaluate(
            &command(&["test", "--package", "crucible-core"]),
            SandboxCommandStage::Requested,
        ),
        SandboxGuardrailDecision::Allowed
    );
    assert_eq!(
        policy.evaluate(
            &command(&["test", "--package", "crucible-tools"]),
            SandboxCommandStage::Requested,
        ),
        SandboxGuardrailDecision::Denied
    );
}

#[test]
fn parent_and_descendant_filters_are_both_required() {
    let parent = policy(
        SandboxCommandPolicy::new(vec![rule(
            SandboxCommandRule::prefix(SandboxGuardrailEffect::Allow, words(&["/usr/bin/cargo"])),
            "parent",
        )]),
        "parent policy",
    );
    let child = policy(
        SandboxCommandPolicy::new(vec![rule(
            SandboxCommandRule::exact(SandboxGuardrailEffect::Allow, words(&["/usr/bin/cargo", "test"])),
            "child",
        )]),
        "child policy",
    );
    let effective = policy(SandboxCommandPolicy::intersect(&parent, &child), "intersection");

    assert_eq!(
        effective.evaluate(&command(&["test"]), SandboxCommandStage::Effective),
        SandboxGuardrailDecision::Allowed
    );
    assert_eq!(
        effective.evaluate(&command(&["build"]), SandboxCommandStage::Effective),
        SandboxGuardrailDecision::Denied
    );
}

#[test]
fn an_unparsable_glob_is_refused_when_the_rule_is_made() {
    assert!(matches!(
        SandboxCommandRule::anchored(SandboxGuardrailEffect::Allow, words(&["/usr/bin/cargo", "[unclosed"])),
        Err(SandboxGuardrailError::InvalidPattern)
    ));
}

#[test]
fn a_filter_of_no_rules_admits_everything_and_too_many_are_refused() {
    let open = policy(SandboxCommandPolicy::new(Vec::new()), "empty policy");
    assert_eq!(
        open.evaluate(&command(&["anything"]), SandboxCommandStage::Effective),
        SandboxGuardrailDecision::Allowed
    );
    assert_eq!(
        SandboxCommandPolicy::allow_all().evaluate(&command(&["build"]), SandboxCommandStage::Requested),
        SandboxGuardrailDecision::Allowed
    );
    let many: Vec<SandboxCommandRule> = (0..=MAX_SANDBOX_GUARDRAIL_RULES)
        .map(|_| rule(SandboxCommandRule::prefix(SandboxGuardrailEffect::Allow, words(&["/usr/bin/cargo"])), "rule"))
        .collect();
    assert!(matches!(SandboxCommandPolicy::new(many), Err(SandboxGuardrailError::TooManyRules)));
}

#[test]
fn a_deny_only_filter_admits_what_it_does_not_name() {
    let policy = policy(
        SandboxCommandPolicy::new(vec![rule(
            SandboxCommandRule::prefix(SandboxGuardrailEffect::Deny, words(&["/usr/bin/cargo", "publish"])),
            "deny",
        )]),
        "policy",
    );
    assert_eq!(
        policy.evaluate(&command(&["build"]), SandboxCommandStage::Effective),
        SandboxGuardrailDecision::Allowed
    );
    assert_eq!(
        policy.evaluate(&command(&["publish", "--dry-run"]), SandboxCommandStage::Effective),
        SandboxGuardrailDecision::Denied
    );
}

#[test]
fn the_digest_tells_policies_apart_and_repeats_for_one_policy() {
    let first = policy(
        SandboxCommandPolicy::new(vec![rule(
            SandboxCommandRule::exact(SandboxGuardrailEffect::Allow, words(&["/usr/bin/cargo", "test"])),
            "first",
        )]),
        "first policy",
    );
    let second = policy(
        SandboxCommandPolicy::new(vec![rule(
            SandboxCommandRule::prefix(SandboxGuardrailEffect::Allow, words(&["/usr/bin/cargo", "test"])),
            "second",
        )]),
        "second policy",
    );
    assert_eq!(first.digest(), first.clone().digest());
    assert_ne!(first.digest(), second.digest());
    assert_ne!(first.digest(), SandboxCommandPolicy::allow_all().digest());
}
