use crucible_core::prompt_cache::capability::PromptCacheBoundary;
use crucible_core::prompt_cache::projection::{
    PromptCacheBoundaryPoint, PromptCacheProjection, PromptCacheProjectionError,
    MAX_PROMPT_CACHE_BOUNDARIES,
};
use crucible_core::prompt_cache::PromptCacheContent;
use crucible_core::provider::{
    Attached, CallPart, Content, MessagePart, Modality, Request, ResultPart, ToolSchema,
};

const TOOLS: &[ToolSchema<'_>] = &[
    ToolSchema {
        name: "read",
        schema: r#"{"description":"Read","type":"object"}"#,
    },
    ToolSchema {
        name: "edit",
        schema: r#"{"description":"Edit","type":"object"}"#,
    },
];

/// A user prompt naming an image at `path`, the answer it got, and the current
/// prompt. The path and the image's hash stay in the transcript; a request
/// carries only what `Attached` holds.
fn transcript<'a>(current: &'a str, path: &'a str) -> Vec<MessagePart<'a>> {
    let _kept_out_of_the_request = (path, [u8::try_from(path.len()).unwrap_or(u8::MAX); 32]);
    vec![
        MessagePart::User("inspect the image"),
        MessagePart::Agent { text: "seen", calls: &[], cut: None },
        MessagePart::User(current),
    ]
}

fn stable_bytes(request: &Request<'_>) -> Vec<u8> {
    let projection = PromptCacheProjection::inspect(request).unwrap();
    projection.write_stable(request).unwrap()
}

fn request<'a>(
    transcript: &'a [MessagePart<'a>],
    system: &'a str,
    tools: &'a [ToolSchema<'a>],
    attached: &'a [Attached<'a>],
) -> Request<'a> {
    Request {
        model: "fixture-model",
        transcript,
        tools,
        max_tokens: 1_024,
        system: Some(system),
        effort: None,
        attached,
    }
}

fn projected(current: &str, path: &str) -> Vec<u8> {
    let transcript = transcript(current, path);
    let attached = [Attached {
        message: 0,
        index: 0,
        media_type: "image/png",
        modality: Modality::Image,
        content: Content::Bytes(b"provider-visible-image"),
    }];
    stable_bytes(&request(&transcript, "stable instructions", TOOLS, &attached))
}

#[test]
fn volatile_current_turn_text_does_not_perturb_the_earlier_prefix() {
    assert_eq!(
        projected("first volatile question", "/one/private/path.png"),
        projected("different volatile question", "/one/private/path.png")
    );
}

#[test]
fn raw_attachment_path_and_hash_never_enter_the_projection() {
    assert_eq!(
        projected("current", "/one/private/path.png"),
        projected("current", "/another/person/work.png")
    );
}

#[test]
fn provider_visible_system_tools_history_and_bytes_do_perturb_the_prefix() {
    let first = transcript("current", "/raw/path.png");
    let second = transcript("current", "/raw/path.png");
    let attached = [Attached {
        message: 0,
        index: 0,
        media_type: "image/png",
        modality: Modality::Image,
        content: Content::Bytes(b"provider-visible-image"),
    }];
    let baseline = stable_bytes(&request(&first, "stable instructions", TOOLS, &attached));
    assert_ne!(
        baseline,
        stable_bytes(&request(&second, "changed instructions", TOOLS, &attached))
    );
    assert_ne!(
        baseline,
        stable_bytes(&request(
            &second,
            "stable instructions",
            &[ToolSchema {
                name: "read",
                schema: r#"{"description":"Read","type":"object"}"#,
            }],
            &attached
        ))
    );
}

#[test]
fn semantically_identical_tool_json_has_one_provider_projection() {
    let transcript = transcript("current", "/raw/path.png");
    let first = [ToolSchema {
        name: "read",
        schema: r#"{"description":"Read","type":"object","properties":{"path":{"type":"string"}}}"#,
    }];
    let reordered = [ToolSchema {
        name: "read",
        schema: r#"{
                "properties": { "path": { "type": "string" } },
                "type": "object",
                "description": "Read"
            }"#,
    }];
    let bytes = |tools: &[ToolSchema<'_>]| {
        stable_bytes(&request(&transcript, "stable instructions", tools, &[]))
    };
    assert_eq!(bytes(&first), bytes(&reordered));
}

#[test]
fn boundaries_preserve_system_tools_then_complete_message_order() {
    let transcript = transcript("current", "/raw/path.png");
    let request = Request {
        model: "fixture-model",
        transcript: &transcript,
        tools: TOOLS,
        max_tokens: 1_024,
        system: Some("stable instructions"),
        effort: None,
        attached: &[],
    };

    let projection = PromptCacheProjection::inspect(&request).unwrap();

    assert_eq!(projection.stable_messages(), 2);
    assert_eq!(
        projection
            .boundaries()
            .iter()
            .map(PromptCacheBoundaryPoint::kind)
            .collect::<Vec<_>>(),
        vec![
            PromptCacheBoundary::AfterSystem,
            PromptCacheBoundary::AfterTools,
            PromptCacheBoundary::AfterMessage,
            PromptCacheBoundary::AfterMessage,
        ]
    );
}

fn long_transcript<'a>(first: &'a str, answers: &'a [String]) -> Vec<MessagePart<'a>> {
    let mut transcript = Vec::new();
    for (index, answer) in answers.iter().enumerate() {
        transcript.push(MessagePart::User(if index == 0 { first } else { "history" }));
        transcript.push(MessagePart::Agent { text: answer.as_str(), calls: &[], cut: None });
    }
    transcript.push(MessagePart::User("current volatile prompt"));
    transcript
}

#[test]
fn long_prefixes_keep_the_latest_bounded_markers_without_truncating_hashed_content() {
    let answers: Vec<String> = (0..70).map(|index| format!("answer-{index}")).collect();
    let first = long_transcript("oldest-a", &answers);
    let changed = long_transcript("oldest-b", &answers);
    let project = |transcript: &[MessagePart<'_>]| {
        let request = request(transcript, "stable instructions", TOOLS, &[]);
        let projection = PromptCacheProjection::inspect(&request).unwrap();
        let bytes = projection.write_stable(&request).unwrap();
        (projection, bytes)
    };

    let (projection, bytes) = project(&first);
    let (_, changed_bytes) = project(&changed);

    assert_eq!(projection.boundaries().len(), MAX_PROMPT_CACHE_BOUNDARIES);
    assert!(projection
        .boundaries()
        .first()
        .is_some_and(|boundary| boundary.segment() > 1));
    assert_eq!(
        projection.boundaries().last().and_then(PromptCacheBoundaryPoint::message),
        Some(u32::try_from(projection.stable_messages() - 1).unwrap())
    );
    assert_ne!(bytes, changed_bytes, "the dropped marker truncated stable bytes");
}

fn frame(tag: u8, value: &[u8]) -> Vec<u8> {
    let mut out = vec![tag];
    out.extend_from_slice(&(value.len() as u64).to_be_bytes());
    out.extend_from_slice(value);
    out
}

#[test]
fn a_bare_request_is_the_version_frame_alone() {
    let request = Request {
        model: "fixture-model",
        transcript: &[MessagePart::User("only")],
        tools: &[],
        max_tokens: 16,
        system: None,
        effort: None,
        attached: &[],
    };
    let projection = PromptCacheProjection::inspect(&request).unwrap();
    let expected = frame(0, b"crucible.prompt-cache.projection.v2");
    assert_eq!(projection.stable_messages(), 0);
    assert_eq!(projection.stable_bytes(), expected.len() as u64);
    assert_eq!(projection.estimated_tokens(), (expected.len() as u64 + 3) / 4);
    assert!(projection.boundaries().is_empty());
    assert!(projection.content().is_empty());
    assert_eq!(projection.write_stable(&request).unwrap(), expected);
}

#[test]
fn every_message_kind_is_framed_in_order_with_its_attachments() {
    let calls = [CallPart { id: "c1", name: "read", args: "{}" }];
    let results = [ResultPart { id: "c1", text: "done", failed: true }];
    let transcript = [
        MessagePart::Context("ctx"),
        MessagePart::Agent { text: "", calls: &[], cut: None },
        MessagePart::Agent { text: "t", calls: &calls, cut: Some("length") },
        MessagePart::ToolResults(&results),
        MessagePart::User("now"),
    ];
    let attached = [
        Attached {
            message: 3,
            index: 7,
            media_type: "audio/wav",
            modality: Modality::Audio,
            content: Content::Instead("see file"),
        },
        Attached {
            message: 4,
            index: 0,
            media_type: "image/png",
            modality: Modality::Image,
            content: Content::Bytes(b"later"),
        },
    ];
    let request = Request {
        model: "m",
        transcript: &transcript,
        tools: &[],
        max_tokens: 16,
        system: None,
        effort: None,
        attached: &attached,
    };
    let projection = PromptCacheProjection::inspect(&request).unwrap();
    let mut expected = frame(0, b"crucible.prompt-cache.projection.v2");
    expected.extend(frame(10, b"ctx"));
    expected.extend(frame(12, b"t"));
    expected.extend(frame(13, b"c1"));
    expected.extend(frame(14, b"read"));
    expected.extend(frame(15, b"{}"));
    expected.extend(frame(16, b"length"));
    expected.extend(frame(17, b""));
    expected.extend(frame(18, b"c1"));
    expected.extend(frame(19, b"done"));
    expected.extend(frame(20, &[1]));
    expected.extend(frame(21, &7u64.to_be_bytes()));
    expected.extend(frame(22, b"audio/wav"));
    expected.extend(frame(23, &[3]));
    expected.extend(frame(25, b"see file"));
    assert_eq!(projection.stable_messages(), 4);
    assert_eq!(projection.write_stable(&request).unwrap(), expected);
    assert_eq!(projection.stable_bytes(), expected.len() as u64);
    let messages: Vec<_> = projection.boundaries().iter().map(|b| (b.segment(), b.message())).collect();
    assert_eq!(messages, vec![(1, Some(0)), (2, Some(2)), (3, Some(3))]);
    assert!(projection.content().contains(PromptCacheContent::Text));
    assert!(projection.content().contains(PromptCacheContent::Audio));
    assert!(!projection.content().contains(PromptCacheContent::Images));
    assert!(!projection.content().contains(PromptCacheContent::Tools));
}

#[test]
fn tool_schemas_are_framed_as_description_then_sorted_fields() {
    let tools = [ToolSchema { name: "read", schema: r#"{"type":"object","description":"Read","a":1}"# }];
    let request = Request {
        model: "m",
        transcript: &[],
        tools: &tools,
        max_tokens: 16,
        system: Some("sys"),
        effort: None,
        attached: &[],
    };
    let projection = PromptCacheProjection::inspect(&request).unwrap();
    let mut expected = frame(0, b"crucible.prompt-cache.projection.v2");
    expected.extend(frame(1, b"sys"));
    expected.extend(frame(2, b""));
    expected.extend(frame(3, b"read"));
    expected.extend(frame(4, b"Read"));
    expected.extend(frame(5, br#"{"a":1,"type":"object"}"#));
    assert_eq!(projection.write_stable(&request).unwrap(), expected);
    assert!(projection.content().contains(PromptCacheContent::Tools));
    assert!(projection.content().contains(PromptCacheContent::Text));
    assert_eq!(PromptCacheProjectionError::CanonicalJson.message(), "prompt-cache projection could not serialize canonical tool JSON");
}

#[test]
fn a_schema_that_is_not_an_object_or_has_no_string_description_reads_as_empty() {
    let tools = [
        ToolSchema { name: "a", schema: "[1, 2]" },
        ToolSchema { name: "b", schema: r#"{"description":7,"z":true}"# },
    ];
    let request = Request {
        model: "m",
        transcript: &[],
        tools: &tools,
        max_tokens: 16,
        system: None,
        effort: None,
        attached: &[],
    };
    let projection = PromptCacheProjection::inspect(&request).unwrap();
    let mut expected = frame(0, b"crucible.prompt-cache.projection.v2");
    expected.extend(frame(2, b""));
    expected.extend(frame(3, b"a"));
    expected.extend(frame(4, b""));
    expected.extend(frame(5, b"{}"));
    expected.extend(frame(3, b"b"));
    expected.extend(frame(4, b""));
    expected.extend(frame(5, br#"{"z":true}"#));
    assert_eq!(projection.write_stable(&request).unwrap(), expected);
}
