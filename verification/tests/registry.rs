use crucible_core::registry::{
    Collision, Provenance, ProvenanceError, Registered, Registry, RegistryError, SourceKind,
    REGISTRY_BYTES, SOURCE_ID_BYTES,
};

trait Must<T> {
    fn must(self) -> T;
    fn must_be(self, what: &str) -> T;
}

impl<T, E> Must<T> for Result<T, E> {
    fn must(self) -> T {
        match self {
            Ok(value) => value,
            Err(_) => panic!("refused where success was expected"),
        }
    }
    fn must_be(self, what: &str) -> T {
        match self {
            Ok(value) => value,
            Err(_) => panic!("{what}"),
        }
    }
}

impl<T> Must<T> for Option<T> {
    fn must(self) -> T {
        match self {
            Some(value) => value,
            None => panic!("nothing where something was expected"),
        }
    }
    fn must_be(self, what: &str) -> T {
        match self {
            Some(value) => value,
            None => panic!("{what}"),
        }
    }
}

fn must_fail<T, E>(result: Result<T, E>) -> E {
    match result {
        Ok(_) => panic!("accepted where a refusal was expected"),
        Err(error) => error,
    }
}


struct Record {
    id: &'static str,
    provenance: Provenance,
    bytes: usize,
}

impl Record {
    fn from(kind: SourceKind, id: &'static str, source: &str) -> Self {
        Self {
            id,
            provenance: Provenance::new(kind, source, &format!("{source} ({id})")).must(),
            bytes: 8,
        }
    }

    fn weighing(mut self, bytes: usize) -> Self {
        self.bytes = bytes;
        self
    }
}

impl Registered for Record {
    fn id(&self) -> &str {
        self.id
    }

    fn provenance(&self) -> &Provenance {
        &self.provenance
    }

    fn retained_bytes(&self) -> usize {
        self.bytes
    }
}

const USER_OVER_PROJECT: Collision = Collision::Prefer(&[SourceKind::User, SourceKind::Project]);

#[test]
fn a_staged_set_is_invisible_until_it_is_committed() {
    let mut registry = Registry::new(Collision::Refuse);
    let mut staged = registry.stage();
    staged
        .register(Record::from(SourceKind::Builtin, "read", "crucible:read"))
        .must();

    assert!(registry.snapshot().entries().is_empty());

    let committed = registry.commit(staged).must();
    assert!((committed.entries().len()) == (1));
    assert!(registry.snapshot().generation() == committed.generation());
    assert!(registry.snapshot().find("read").is_some());
}

#[test]
fn a_refused_record_leaves_no_trace_of_the_batch() {
    let mut registry = Registry::new(Collision::Refuse);
    let mut first = registry.stage();
    first
        .register(Record::from(SourceKind::Builtin, "read", "crucible:read"))
        .must();
    registry.commit(first).must();

    let mut batch = registry.stage();
    batch
        .register(Record::from(SourceKind::Extension, "grep", "ext:search"))
        .must();
    let refused = must_fail(batch.register(Record::from(SourceKind::Extension, "read", "ext:search")));
    assert!(
        matches!(&refused, RegistryError::Duplicate { id, first, second }
            if id.as_str() == "read" && first.id() == "crucible:read" && second.id() == "ext:search"),
        "an unexpected refusal"
    );
    drop(batch);

    let current = registry.snapshot();
    assert!((current.entries().len()) == (1), "the failed batch left a record behind");
    assert!(current.find("grep").is_none());
}

#[test]
fn a_transaction_staged_from_a_replaced_generation_is_refused() {
    let mut registry = Registry::new(Collision::Refuse);
    let mut first = registry.stage();
    let mut second = registry.stage();
    first
        .register(Record::from(SourceKind::User, "one", "user:a"))
        .must();
    second
        .register(Record::from(SourceKind::User, "two", "user:b"))
        .must();

    registry.commit(first).must();
    assert!((match registry.commit(second) {
            Ok(_) => panic!("a superseded transaction committed"),
            Err(error) => error,
        }) == (RegistryError::Superseded));
    assert!(registry.snapshot().find("two").is_none());
}

#[test]
fn precedence_is_declared_and_names_both_sides() {
    let mut registry = Registry::new(USER_OVER_PROJECT);
    let mut staged = registry.stage();
    staged
        .register(Record::from(
            SourceKind::Project,
            "fmt",
            "project:.crucible",
        ))
        .must();
    staged
        .register(Record::from(SourceKind::User, "fmt", "user:~/.crucible"))
        .must();
    let committed = registry.commit(staged).must();

    let winner = committed.find("fmt").must();
    assert!((winner.provenance().kind()) == (SourceKind::User));
    let [shadow] = committed.shadows() else {
        panic!(
            "one shadow diagnostic was expected, not {}",
            committed.shadows().len()
        );
    };
    assert!((shadow.id()) == ("fmt"));
    assert!((shadow.winner().id()) == ("user:~/.crucible"));
    assert!((shadow.loser().id()) == ("project:.crucible"));
    assert!((shadow.text()) == ("fmt: user:~/.crucible (fmt) [user:user:~/.crucible] shadows project:.crucible (fmt) [project:project:.crucible]"));
}

#[test]
fn the_order_records_arrive_in_does_not_decide_precedence() {
    let mut registry = Registry::new(USER_OVER_PROJECT);
    let mut staged = registry.stage();
    staged
        .register(Record::from(SourceKind::User, "fmt", "user:~/.crucible"))
        .must();
    staged
        .register(Record::from(
            SourceKind::Project,
            "fmt",
            "project:.crucible",
        ))
        .must();
    let committed = registry.commit(staged).must();

    assert!((committed.find("fmt").must().provenance().kind()) == (SourceKind::User));
    assert!((committed.entries().len()) == (1));
    let [shadow] = committed.shadows() else {
        panic!(
            "one shadow diagnostic was expected, not {}",
            committed.shadows().len()
        );
    };
    assert!((shadow.loser().kind()) == (SourceKind::Project));
}

#[test]
fn two_records_of_one_rank_or_an_unlisted_kind_are_refused_even_under_precedence() {
    let registry = Registry::new(USER_OVER_PROJECT);
    let mut staged = registry.stage();
    staged
        .register(Record::from(SourceKind::User, "fmt", "user:a"))
        .must();
    assert!(matches!(
        staged.register(Record::from(SourceKind::User, "fmt", "user:b")),
        Err(RegistryError::Duplicate { .. })
    ));
    assert!(matches!(
        staged.register(Record::from(SourceKind::Extension, "fmt", "ext:c")),
        Err(RegistryError::Duplicate { .. })
    ));
}

#[test]
fn a_handle_resolves_only_through_the_generation_that_minted_it() {
    let mut registry = Registry::new(Collision::Refuse);
    let mut staged = registry.stage();
    staged
        .register(Record::from(SourceKind::Builtin, "read", "crucible:read"))
        .must();
    let first = registry.commit(staged).must();
    let handle = first.handle("read").must();
    assert!((first.resolve(&handle).must().id()) == ("read"));

    let mut reload = registry.replacing();
    reload
        .register(Record::from(SourceKind::Builtin, "read", "crucible:read"))
        .must();
    let second = registry.commit(reload).must();

    assert!((must_fail(second.resolve(&handle))) == (RegistryError::Stale));
    assert!(second.handle("read").is_some());
    assert!(first.generation() != second.generation());
}

#[test]
fn a_reload_replaces_every_record_whatever_the_current_generation_holds() {
    let mut registry = Registry::new(Collision::Refuse);
    let mut staged = registry.stage();
    staged
        .register(Record::from(SourceKind::Extension, "old", "ext:v1"))
        .must();
    registry.commit(staged).must();

    let mut reload = registry.replacing();
    reload
        .register(Record::from(SourceKind::Extension, "new", "ext:v2"))
        .must();
    // Another writer lands in between: a reload is not built on a
    // generation, so it still commits.
    let mut aside = registry.stage();
    aside
        .register(Record::from(SourceKind::User, "aside", "user:x"))
        .must();
    registry.commit(aside).must();

    let committed = registry.commit(reload).must();
    assert!(committed.find("old").is_none());
    assert!(committed.find("aside").is_none());
    assert!(committed.find("new").is_some());
}

#[test]
fn deregistering_removes_the_record_and_its_shadows() {
    let mut registry = Registry::new(USER_OVER_PROJECT);
    let mut staged = registry.stage();
    staged
        .register(Record::from(
            SourceKind::Project,
            "fmt",
            "project:.crucible",
        ))
        .must();
    staged
        .register(Record::from(SourceKind::User, "fmt", "user:~/.crucible"))
        .must();
    staged
        .register(Record::from(SourceKind::User, "lint", "user:~/.crucible"))
        .must();
    let removed = staged.deregister("fmt").must();
    assert!((removed.provenance().kind()) == (SourceKind::User));
    assert!((must_fail(staged.deregister("fmt"))) == (RegistryError::Unknown { id: "fmt".into() }));

    let committed = registry.commit(staged).must();
    assert!(committed.shadows().is_empty());
    let ids: Vec<&str> = committed.entries().iter().map(|entry| entry.id()).collect();
    assert!((ids) == (["lint"]));
}

#[test]
fn the_ceilings_hold_across_a_transaction() {
    let registry = Registry::new(Collision::Refuse);
    let mut staged = registry.stage();
    staged
        .register(Record::from(SourceKind::User, "big", "user:a").weighing(REGISTRY_BYTES))
        .must();
    let over = must_fail(staged.register(Record::from(SourceKind::User, "more", "user:a").weighing(1)));
    assert!(matches!(over, RegistryError::Bytes { .. }));

    // Precedence replacement is charged for what it adds, not stacked on
    // what it removes.
    let mut registry = Registry::new(USER_OVER_PROJECT);
    let mut staged = registry.stage();
    staged
        .register(Record::from(SourceKind::Project, "fmt", "project:a").weighing(REGISTRY_BYTES))
        .must();
    staged
        .register(Record::from(SourceKind::User, "fmt", "user:a").weighing(REGISTRY_BYTES))
        .must();
    assert!((registry.commit(staged).must().entries().len()) == (1));
}

#[test]
fn inspection_reports_receipts_and_never_labels() {
    let mut registry = Registry::new(USER_OVER_PROJECT);
    let mut staged = registry.stage();
    staged
        .register(Record::from(
            SourceKind::Project,
            "fmt",
            "project:/secret/path",
        ))
        .must();
    staged
        .register(Record::from(SourceKind::User, "fmt", "user:home"))
        .must();
    let report = registry.commit(staged).must().inspect();

    let [registered] = report.registered() else {
        panic!("one registered row was expected: {report:?}");
    };
    assert!((registered.id()) == ("fmt"));
    assert!((registered.source().kind()) == (SourceKind::User));
    let [shadowed] = report.shadowed() else {
        panic!("one shadowed row was expected: {report:?}");
    };
    assert!((shadowed.source().id()) == ("project:/secret/path"));
    assert!(
        !format!("{report:?}").contains("(fmt)"),
        "a label reached the report: {report:?}"
    );
    assert!(!report.generation().is_empty());
}

#[test]
fn a_provenance_is_bounded_and_redacts_its_label_from_debug() {
    assert!(matches!(
        Provenance::new(SourceKind::User, "", "label"),
        Err(ProvenanceError::Empty { field: "source id" })
    ));
    assert!(matches!(
        Provenance::new(SourceKind::User, &"x".repeat(SOURCE_ID_BYTES + 1), "label"),
        Err(ProvenanceError::TooLong {
            field: "source id",
            ..
        })
    ));
    let provenance = Provenance::new(SourceKind::User, "user:a", "/home/me/.crucible").must();
    assert!((provenance.text()) == ("/home/me/.crucible [user:user:a]"));
    assert!((provenance.receipt().id()) == ("user:a"));
}

#[test]
fn a_builtin_source_is_named_after_its_tool_and_errors_read_as_sentences() {
    let provenance = Provenance::builtin("read").must();
    assert!((provenance.id()) == ("crucible:read"));
    assert!((provenance.label()) == ("built-in read tool"));
    assert!((provenance.kind()) == (SourceKind::Builtin));
    assert!((RegistryError::Entries {
            maximum: 4096,
            actual: 4097
        }
        .message()) == ("a registry generation has 4097 entries; the maximum is 4096"));
    assert!((ProvenanceError::TooLong {
            field: "source id",
            maximum: 256,
            actual: 300
        }
        .message()) == ("source id is 300 bytes; the maximum is 256"));
}

#[test]
fn two_records_with_one_identifier_are_one_slot() {
    let registry = Registry::new(USER_OVER_PROJECT);
    let mut staged = registry.stage();
    staged.register(Record::from(SourceKind::User, "fmt", "user:~/.crucible")).must();
    staged.register(Record::from(SourceKind::Project, "fmt", "project:.crucible")).must();
    staged.register(Record::from(SourceKind::Project, "lint", "project:.crucible")).must();
    assert!((staged.ids()) == (["fmt", "lint"]));
    assert!(matches!(
        staged.register(Record::from(SourceKind::Builtin, "fmt", "builtin:fmt")),
        Err(RegistryError::Duplicate { .. })
    ));
    assert!((staged.ids()) == (["fmt", "lint"]));
}
