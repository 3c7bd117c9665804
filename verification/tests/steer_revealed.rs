use crucible_core::revealed::Revealed;
use crucible_core::source::{Page, SearchResult, SourceError};
use crucible_core::steer::Steer;

#[test]
fn a_new_queue_has_nothing_to_say() {
    assert!(!Steer::new().any());
    assert!(Steer::new().take().is_empty());
}

#[test]
fn taking_what_is_not_there_takes_nothing() {
    assert!(Steer::new().take().is_empty());
}

#[test]
fn lines_are_taken_oldest_first_and_only_once() {
    let mut steer = Steer::new();
    steer.say("use the mock".to_owned());
    steer.say("and the fake clock".to_owned());

    assert!(steer.any());
    assert_eq!(
        steer.take(),
        vec!["use the mock".to_owned(), "and the fake clock".to_owned()]
    );
    assert!(!steer.any(), "the drain emptied the queue");
    assert!(steer.take().is_empty());
}

#[test]
fn only_a_material_membership_change_moves_the_revision() {
    let mut revealed = Revealed::new();
    let empty = revealed.revision();

    revealed.reveal_name("web_fetch");
    let holding = revealed.revision();
    revealed.reveal_name("web_fetch");
    assert_eq!(revealed.revision(), holding);

    revealed.forget();
    let forgotten = revealed.revision();
    revealed.forget();

    assert_ne!(holding, empty);
    assert_ne!(forgotten, holding);
    assert_eq!(revealed.revision(), forgotten);
}

#[test]
fn a_revealed_name_is_held_until_forgotten() {
    let mut revealed = Revealed::new();
    assert!(!revealed.holds("plan"));
    revealed.reveal_name("plan");
    revealed.reveal_name("web_search");
    assert!(revealed.holds("plan"));
    assert!(revealed.holds("web_search"));
    assert!(!revealed.holds("Plan"));
    revealed.forget();
    assert!(!revealed.holds("plan"));
    assert_eq!(revealed.revision(), 3);
}

#[test]
fn a_source_refusal_reads_as_its_sentence() {
    let refused = SourceError::Refused {
        named: "brave",
        status: 429,
        message: "slow down".into(),
    };
    assert_eq!(refused.message(), "brave: HTTP 429: slow down");
    assert_eq!(SourceError::Cancelled("brave").message(), "brave: cancelled");
    assert_eq!(
        SourceError::Protocol {
            named: "jina",
            problem: "no body".into()
        }
        .message(),
        "jina: unexpected answer: no body"
    );
    assert_eq!(SourceError::Address("not a url".into()).message(), "not a url");
    let result = SearchResult {
        title: "t".into(),
        url: "https://example.com".into(),
        extract: "e".into(),
    };
    assert_eq!(result.clone(), result);
    let page = Page {
        url: "https://example.com".into(),
        title: None,
        text: "body".into(),
    };
    assert_eq!(page.text, "body");
}
