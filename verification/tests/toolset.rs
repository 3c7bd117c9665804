use crucible_core::registry::ProvenanceError;
use crucible_core::toolset::{
    ToolDescriptor, ToolDescriptorError, ToolExecutionMode, ToolOutcome, ToolProvenance,
    ToolReceipt, ToolResourceKey, ToolSnapshot, ToolSourceKind, ToolsetError, TOOL_NAME_BYTES,
    TOOL_RESOURCE_KEY_BYTES, TOOL_SNAPSHOT_ENTRIES,
};
use crucible_core::registry::RegistryError;
use crucible_core::tool::{ToolError, ToolOutput};
use crucible_core::provider::CallPart;

trait Must<T> {
    fn must(self) -> T;
    fn must_be(self, what: &str) -> T;
}

impl<T, E> Must<T> for Result<T, E> {
    fn must(self) -> T {
        match self {
            Ok(value) => value,
            Err(_) => panic!("refused where success was expected"),
        }
    }
    fn must_be(self, what: &str) -> T {
        match self {
            Ok(value) => value,
            Err(_) => panic!("{what}"),
        }
    }
}

impl<T> Must<T> for Option<T> {
    fn must(self) -> T {
        match self {
            Some(value) => value,
            None => panic!("nothing where something was expected"),
        }
    }
    fn must_be(self, what: &str) -> T {
        match self {
            Some(value) => value,
            None => panic!("{what}"),
        }
    }
}

fn must_fail<T, E>(result: Result<T, E>) -> E {
    match result {
        Ok(_) => panic!("accepted where a refusal was expected"),
        Err(error) => error,
    }
}


fn source(name: &str) -> ToolProvenance {
    ToolProvenance::new(ToolSourceKind::User, &format!("test:{name}"), name).must()
}

fn descriptor(name: &str) -> ToolDescriptor {
    match ToolDescriptor::new(name, "{}", source(name)) {
        Ok(descriptor) => descriptor,
        Err(problem) => panic!("{}", problem.message()),
    }
}

#[test]
fn every_owned_field_is_bounded_before_it_is_retained() {
    let long = "x".repeat(TOOL_NAME_BYTES + 1);
    let problem = match ToolDescriptor::new(&long, "{}", source("too-long")) {
        Err(problem) => problem,
        Ok(_) => panic!("a name over the boundary was retained"),
    };

    assert!(matches!(
        problem,
        ToolDescriptorError::TooLong {
            field: "tool name",
            maximum: TOOL_NAME_BYTES,
            ..
        }
    ));
}

#[test]
fn two_names_one_permission_rule_reads_alike_are_one_name_to_a_snapshot() {
    let refused = match ToolSnapshot::new(vec![descriptor("search"), descriptor("Search")]) {
        Err(refused) => refused,
        Ok(_) => panic!("one name to every rule"),
    };

    assert!(
        matches!(&refused, ToolsetError::Duplicate { name, .. } if name.as_str() == "Search"),
        "an unexpected refusal"
    );
}

#[test]
fn generation_identity_is_equality_only_and_shared_by_a_clone() {
    let snapshot = ToolSnapshot::new(Vec::new()).must();
    let same = snapshot.clone();
    let other = ToolSnapshot::new(Vec::new()).must();

    assert!(snapshot.generation() == same.generation());
    assert!(snapshot.generation() != other.generation());
    assert!((snapshot.generation().context_id()) == (same.generation().context_id()));
    assert!((snapshot.generation().context_id()) != (other.generation().context_id()));
}

#[test]
fn an_empty_name_or_schema_is_refused() {
    assert!((ToolDescriptor::new("", "{}", source("empty")).err()) == (Some(ToolDescriptorError::Empty { field: "tool name" })));
    assert!((ToolDescriptor::new("read", "", source("empty")).err()) == (Some(ToolDescriptorError::Empty { field: "tool schema" })));
}

#[test]
fn a_result_ceiling_must_leave_room_for_the_note() {
    let refused = descriptor("read").limiting_result_to(159).err();
    assert!((refused) == (Some(ToolDescriptorError::ResultBytesTooSmall {
            minimum: 160,
            actual: 159
        })));
    let limited = match descriptor("read").limiting_result_to(160) {
        Ok(limited) => limited,
        Err(problem) => panic!("{}", problem.message()),
    };
    assert!((limited.result_bytes()) == (Some(160)));
}

#[test]
fn a_zero_timeout_is_refused_and_a_real_one_kept() {
    assert!((descriptor("bash")
            .timing_out_after(std::time::Duration::ZERO)
            .err()) == (Some(ToolDescriptorError::ZeroTimeout)));
    let timed = match descriptor("bash").timing_out_after(std::time::Duration::from_secs(5)) {
        Ok(timed) => timed,
        Err(problem) => panic!("{}", problem.message()),
    };
    assert!((timed.timeout()) == (Some(std::time::Duration::from_secs(5))));
}

#[test]
fn a_descriptor_counts_the_bytes_it_keeps_alive() {
    // name 4 + schema 2 + source id 9 + label 4 + key 4
    let key = ToolResourceKey::new("repo").ok().must();
    let exclusive = descriptor("edit").executing(ToolExecutionMode::Exclusive(key));
    assert!((exclusive.retained_bytes()) == (23));
    assert!((descriptor("edit").retained_bytes()) == (19));
    assert!((exclusive.advertised().name) == ("edit"));
    assert!((exclusive.advertised().schema) == ("{}"));
}

#[test]
fn a_resource_key_is_bounded() {
    assert!(ToolResourceKey::new("").is_err());
    assert!(ToolResourceKey::new(&"k".repeat(TOOL_RESOURCE_KEY_BYTES + 1)).is_err());
    assert!((ToolResourceKey::new("db").ok().must().as_str()) == ("db"));
}

#[test]
fn a_snapshot_holds_its_entries_in_order_and_finds_by_exact_name() {
    let snapshot = ToolSnapshot::new(vec![descriptor("read"), descriptor("grep")]).must();
    let names: Vec<&str> = snapshot.entries().iter().map(|d| d.name()).collect();
    assert!((names) == (["read", "grep"]));
    assert!((snapshot.find("grep").map(|d| d.name())) == (Some("grep")));
    assert!(snapshot.find("Grep").is_none());
    assert!((snapshot.advertised().len()) == (2));
    assert!(ToolSnapshot::default().entries().is_empty());
}

#[test]
fn a_snapshot_with_too_many_entries_is_refused() {
    let many: Vec<ToolDescriptor> = (0..=TOOL_SNAPSHOT_ENTRIES)
        .map(|i| descriptor(&format!("tool{i}")))
        .collect();
    match ToolSnapshot::new(many) {
        Err(ToolsetError::Entries { maximum, actual }) => {
            assert!((maximum) == (1024));
            assert!((actual) == (1025));
        }
        _ => panic!("another outcome than the ceiling"),
    }
}

#[test]
fn a_snapshot_over_the_byte_ceiling_is_refused() {
    let big = "s".repeat(1024 * 1024);
    let heavy = |name: &str| ToolDescriptor::new(name, &big, source(name)).ok().must();
    let entries: Vec<ToolDescriptor> = (0..17).map(|i| heavy(&format!("t{i}"))).collect();
    match ToolSnapshot::new(entries) {
        Err(ToolsetError::Bytes { maximum, actual }) => {
            assert!((maximum) == (16 * 1024 * 1024));
            assert!(actual > maximum);
        }
        _ => panic!("another outcome than the ceiling"),
    }
}

#[test]
fn registry_refusals_keep_their_shape_as_toolset_refusals() {
    let converted = ToolsetError::from(RegistryError::Entries {
        maximum: 1,
        actual: 2,
    });
    assert!(matches!(
        converted,
        ToolsetError::Entries {
            maximum: 1,
            actual: 2
        }
    ));
    let stale = ToolsetError::from(RegistryError::Stale);
    assert!((stale.message()) == ("the tool registry refused the change: the handle belongs to an earlier registry generation"));
    let provenance = ToolsetError::Provenance(ProvenanceError::Empty { field: "source id" });
    assert!((provenance.message()) == ("source id must not be empty"));
}

#[test]
fn a_receipt_reads_back_what_it_recorded() {
    let snapshot = ToolSnapshot::empty();
    let mut output = ToolOutput::ok("done");
    let retention = output.limit_encoded(100);
    let receipt = ToolReceipt::new(
        snapshot.generation().clone(),
        None,
        12,
        retention,
        ToolOutcome::Succeeded,
    );
    assert!(receipt.generation() == snapshot.generation());
    assert!(receipt.source().is_none());
    assert!((receipt.input_bytes()) == (12));
    assert!((receipt.output().retained()) == (6));
    assert!((receipt.outcome()) == (ToolOutcome::Succeeded));
}

#[test]
fn an_empty_snapshot_is_labelled_with_a_fresh_version_seven_identifier() {
    let first = ToolSnapshot::empty();
    let second = ToolSnapshot::default();
    let label = first.generation().context_id();
    assert!((label.len()) == (36));
    assert!(crucible_core::prompt_cache::resource::PromptCacheResourceId::parse(label).is_ok());
    assert!(crucible_core::prompt_cache::resource::PromptCacheResourceId::parse(second.generation().context_id()).is_ok());
    assert!(first.entries().is_empty());
}

#[test]
fn a_call_is_admitted_from_its_generation_and_resolves_only_there() {
    let snapshot =
        ToolSnapshot::new(vec![descriptor("read"), descriptor("edit")]).must_be("snapshot");
    let call = CallPart { id: "call-1", name: "edit", args: "{}" };
    let admission = snapshot.admit_call(&call).must_be("admitted");
    assert!((admission.name()) == ("edit"));
    assert!((admission.generation().context_id()) == (snapshot.generation().context_id()));
    assert!((snapshot.resolve(&admission).must_be("resolved").name()) == ("edit"));

    let other = ToolSnapshot::new(vec![descriptor("edit")]).must_be("snapshot");
    match other.resolve(&admission) {
        Err(ToolError::StaleGeneration { tool }) => assert!((tool) == ("edit")),
        _ => panic!("an admission crossed generations"),
    }

    match snapshot.admit_call(&CallPart { id: "call-2", name: "missing", args: "{}" }) {
        Err(ToolError::Unknown(name)) => assert!((name) == ("missing")),
        _ => panic!("an unknown name was admitted"),
    }
    match snapshot.admit_call(&CallPart { id: "", name: "read", args: "{}" }) {
        Err(ToolError::InvalidCall { field, maximum, actual }) => {
            assert!(((field, maximum, actual)) == (("identifier", crucible_core::toolset::TOOL_CALL_ID_BYTES, 0)));
        }
        _ => panic!("an empty identifier was admitted"),
    }
    let long = "x".repeat(crucible_core::toolset::TOOL_ARGUMENT_BYTES + 1);
    match snapshot.admit_call(&CallPart { id: "call-3", name: "read", args: &long }) {
        Err(ToolError::InvalidCall { field, actual, .. }) => {
            assert!(((field, actual)) == (("arguments", crucible_core::toolset::TOOL_ARGUMENT_BYTES + 1)));
        }
        _ => panic!("oversized arguments were admitted"),
    }
}
