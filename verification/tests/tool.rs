use crucible_core::tool::{
    encoded_string_bytes, Account, Changed, Looking, Remembered, Summary, ToolArgs, ToolError,
    ToolOutput, Unwatched, Watch, Wrote, TOOL_RESULT_BYTES, TOOL_RESULT_MIN_BYTES,
};

#[test]
fn a_result_is_bounded_by_its_encoded_size_and_names_what_was_omitted() {
    let source = format!("HEAD{}TAIL", "\"\\\n".repeat(12_000));
    assert!(source.len() > TOOL_RESULT_BYTES);
    let original = encoded_string_bytes(&source);
    let mut output = ToolOutput::ok(&source);

    let retained = output.limit_encoded(TOOL_RESULT_BYTES);

    assert_eq!(retained.original(), original);
    assert!(retained.omitted() > 0);
    assert!(retained.retained() <= TOOL_RESULT_BYTES);
    assert_eq!(encoded_string_bytes(output.text()), retained.retained());
    assert!(output.text().starts_with("HEAD"), "{}", output.text());
    assert!(output.text().ends_with("TAIL"), "{}", output.text());
    assert!(
        output.text().contains(&original.to_string()),
        "{}",
        output.text()
    );
    assert!(
        output.text().contains(&retained.omitted().to_string()),
        "{}",
        output.text()
    );
}

#[test]
fn escaping_can_cross_the_result_ceiling_when_raw_bytes_do_not() {
    let source = "\"".repeat(TOOL_RESULT_BYTES / 2 + 1);
    assert!(source.len() < TOOL_RESULT_BYTES);
    assert!(encoded_string_bytes(&source) > TOOL_RESULT_BYTES);
    let mut output = ToolOutput::ok(&source);

    let retained = output.limit_encoded(TOOL_RESULT_BYTES);

    assert!(retained.omitted() > 0);
    assert!(encoded_string_bytes(output.text()) <= TOOL_RESULT_BYTES);
}

#[test]
fn output_carries_whether_the_model_should_treat_it_as_a_failure() {
    assert!(!ToolOutput::ok("done").is_failed());
    assert!(ToolOutput::failed("no such file").is_failed());
    assert_eq!(ToolOutput::failed("no such file").text(), "no such file");
}

#[test]
fn a_call_carries_the_paragraphs_it_would_be_explained_in() {
    let account = Account::explained(
        "run the suite",
        &["It builds every crate.", "It takes about two minutes."],
    );

    assert_eq!(account.description(), "run the suite");
    assert_eq!(
        account.explanation(),
        ["It builds every crate.", "It takes about two minutes."]
    );
}

#[test]
fn a_call_that_said_only_what_it_was_for_did_not_explain_itself() {
    assert_eq!(Account::new("lists the files").explanation().len(), 0);
    assert_eq!(Account::none().explanation().len(), 0);
    assert!(Account::none().description().is_empty());
}

#[test]
fn arguments_are_kept_as_written() {
    let args = ToolArgs::new(r#"{"path":"src/main.rs"}"#);
    assert_eq!(args.as_str(), r#"{"path":"src/main.rs"}"#);
}

#[test]
fn a_watcher_is_told_what_was_written_in_the_order_it_was_written() {
    #[derive(Default)]
    struct Recorded(std::sync::Mutex<Vec<String>>);

    impl Watch for Recorded {
        fn wrote(&self, text: Wrote) {
            if let Ok(mut said) = self.0.lock() {
                said.push(text.as_str().to_owned());
            }
        }
    }

    let recorded = Recorded::default();
    recorded.wrote(Wrote::new("first"));
    recorded.wrote(Wrote::new("second"));

    assert_eq!(
        recorded.0.into_inner().unwrap(),
        ["first".to_owned(), "second".to_owned()]
    );
}

#[test]
fn a_tool_nobody_is_watching_still_runs() {
    let nobody = Unwatched;
    nobody.wrote(Wrote::new("nobody is reading this"));
}

#[test]
fn an_unknown_tool_names_the_tool_the_model_asked_for() {
    let err = ToolError::Unknown("frobnicate".into());
    assert_eq!(err.message(), "no tool named frobnicate");
}

#[test]
fn a_result_that_fits_is_left_exactly_as_it_was() {
    let mut output = ToolOutput::ok("a \"quoted\" line\n");
    let retained = output.limit_encoded(TOOL_RESULT_BYTES);

    // Two quotes, thirteen plain characters, and three two-byte escapes.
    assert_eq!(retained.original(), 21);
    assert_eq!(retained.retained(), 21);
    assert_eq!(retained.omitted(), 0);
    assert_eq!(output.text(), "a \"quoted\" line\n");
}

#[test]
fn control_characters_cost_six_bytes_and_wide_ones_their_utf8_width() {
    assert_eq!(encoded_string_bytes(""), 2);
    assert_eq!(encoded_string_bytes("\u{01}"), 8);
    assert_eq!(encoded_string_bytes("\t"), 4);
    assert_eq!(encoded_string_bytes("\u{e9}"), 4);
    assert_eq!(encoded_string_bytes("\u{2014}"), 5);
    assert_eq!(encoded_string_bytes("\u{1f600}"), 6);
}

#[test]
fn an_elided_result_says_exactly_what_it_left_out() {
    let source = "x".repeat(400);
    let mut output = ToolOutput::ok(&source);

    let retained = output.limit_encoded(TOOL_RESULT_MIN_BYTES);

    assert_eq!(retained.original(), 402);
    assert!(retained.retained() <= TOOL_RESULT_MIN_BYTES);
    assert_eq!(encoded_string_bytes(output.text()), retained.retained());
    let note = format!(
        "\n\n[tool result was 402 encoded bytes; {} encoded bytes omitted from the middle]\n\n",
        retained.omitted()
    );
    let text = output.text();
    let at = text.find(&note).expect("the note is in the middle");
    let head = &text[..at];
    let tail = &text[at + note.len()..];
    assert!(head.chars().all(|c| c == 'x'));
    assert!(tail.chars().all(|c| c == 'x'));
    assert_eq!(head.len() + tail.len() + retained.omitted(), 400);
}

#[test]
fn capture_elision_is_repeated_in_the_note_that_replaces_the_middle() {
    let source = "y".repeat(1_000);
    let mut output = ToolOutput::ok(&source).with_capture_elision(5_000, 4_000);

    let retained = output.limit_encoded(300);

    assert!(retained.retained() <= 300);
    assert!(output.text().contains(
        "[process output was 5000 bytes; 4000 bytes omitted during capture; tool result was 1002 encoded bytes; "
    ));
}

#[test]
fn capture_that_omitted_nothing_is_not_mentioned() {
    let source = "z".repeat(1_000);
    let mut output = ToolOutput::ok(&source).with_capture_elision(1_000, 0);
    output.limit_encoded(300);
    assert!(!output.text().contains("process output"));
}

#[test]
fn a_large_result_is_cleared_and_a_small_one_is_not() {
    let mut small = ToolOutput::ok(&"s".repeat(ToolOutput::MIN_PRUNE_BYTES - 1));
    assert_eq!(small.prune(), 0);
    assert_eq!(small.text(), "s".repeat(ToolOutput::MIN_PRUNE_BYTES - 1));

    let mut large = ToolOutput::failed(&"m".repeat(ToolOutput::MIN_PRUNE_BYTES));
    assert_eq!(large.prune(), 64);
    assert_eq!(large.text(), "[cleared to make room \u{2014} 64 bytes]");
    assert!(large.is_failed(), "clearing takes the words and nothing else");
}

#[test]
fn a_result_restated_keeps_its_failure_and_its_count() {
    let output = ToolOutput::failed("old words")
        .counting(Changed::new(3, 1))
        .saying("new words");
    assert_eq!(output.text(), "new words");
    assert!(output.is_failed());
    assert_eq!(output.changed(), Some(Changed::new(3, 1)));
    assert_eq!(output.into_text(), "new words");
}

#[test]
fn a_count_of_nothing_is_empty() {
    assert!(Changed::new(0, 0).is_empty());
    assert!(!Changed::new(0, 2).is_empty());
    assert_eq!(Changed::new(4, 5).added(), 4);
    assert_eq!(Changed::new(4, 5).removed(), 5);
}

#[test]
fn small_values_read_back_what_they_were_given() {
    assert!(Summary::new("").is_empty());
    assert_eq!(Summary::new("src/lib.rs").as_str(), "src/lib.rs");
    assert_eq!(Remembered::read("a.rs").path(), "a.rs");
    assert!(!Remembered::read("a.rs").is_modified());
    assert!(Remembered::modified("b.rs").is_modified());
    assert_ne!(Looking::File, Looking::Directory);
}

#[test]
fn every_tool_error_reads_as_its_sentence() {
    let arguments = ToolError::Arguments {
        tool: "read".into(),
        problem: "missing path".into(),
    };
    assert_eq!(arguments.message(), "read: missing path");
    assert_eq!(ToolError::Cancelled("bash".into()).message(), "bash cancelled");
    let invalid = ToolError::InvalidCall {
        field: "name",
        maximum: 4096,
        actual: 5000,
    };
    assert_eq!(
        invalid.message(),
        "invalid tool call name: 5000 bytes; the maximum is 4096"
    );
    let stale = ToolError::StaleGeneration { tool: "grep".into() };
    assert_eq!(
        stale.message(),
        "tool grep is not reachable in the admitted generation"
    );
    let io = ToolError::Io {
        tool: "write".into(),
        problem: "could not write".into(),
        source: std::io::Error::other("disk full"),
    };
    assert_eq!(io.message(), "write: could not write");
}
