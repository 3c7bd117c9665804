//! Metadata of the canonical cache-relevant projection of a provider request.

use vstd::prelude::*;

use super::capability::{PromptCacheBoundary, PromptCacheContent};
use crate::sandbox::guardrail::{be_bytes, frame_u64};
use crate::provider::{Attached, CallPart, Content, MessagePart, Modality, Request, ResultPart, ToolSchema};

verus! {

/// Maximum neutral boundaries retained for one request plan.
pub const MAX_PROMPT_CACHE_BOUNDARIES: usize = 64;

/// The bit that stands for one content kind in a content set.
pub open spec fn content_bit(content: PromptCacheContent) -> u8 {
    match content {
        PromptCacheContent::Text => 1,
        PromptCacheContent::Tools => 2,
        PromptCacheContent::Images => 4,
        PromptCacheContent::Documents => 8,
        PromptCacheContent::Audio => 16,
        PromptCacheContent::Video => 32,
    }
}

fn content_bit_exec(content: PromptCacheContent) -> (bit: u8)
    ensures
        bit == content_bit(content),
{
    match content {
        PromptCacheContent::Text => 1,
        PromptCacheContent::Tools => 2,
        PromptCacheContent::Images => 4,
        PromptCacheContent::Documents => 8,
        PromptCacheContent::Audio => 16,
        PromptCacheContent::Video => 32,
    }
}

/// Whether `bit` is one of the six content bits.
pub open spec fn is_content_bit(bit: u8) -> bool {
    bit == 1 || bit == 2 || bit == 4 || bit == 8 || bit == 16 || bit == 32
}

/// Whether every kind `set` holds occurs in `allowed`.
pub open spec fn content_within(set: PromptCacheContentSet, allowed: Seq<PromptCacheContent>) -> bool {
    forall|c: PromptCacheContent| #[trigger] set.has(c) ==> allowed.contains(c)
}

/// Provider-visible content kinds present in a stable prefix.
#[derive(Debug, Clone, Copy, PartialEq, Eq, Structural)]
pub struct PromptCacheContentSet(u8);

impl PromptCacheContentSet {
    /// The set holds only the six content bits.
    #[verifier::type_invariant]
    spec fn bounded(self) -> bool {
        self.0 < 64
    }

    /// Whether the set holds `content`.
    pub closed spec fn has(self, content: PromptCacheContent) -> bool {
        self.0 & content_bit(content) != 0
    }

    /// Whether the set holds no content kind.
    pub open spec fn has_none(self) -> bool {
        forall|c: PromptCacheContent| !#[trigger] self.has(c)
    }

    /// No stable provider-visible content.
    pub fn none() -> (set: Self)
        ensures
            set.has_none(),
    {
        let set = Self(0);
        proof {
            assert forall|c: PromptCacheContent| !#[trigger] set.has(c) by {
                let b = content_bit(c);
                assert(0u8 & b == 0) by (bit_vector);
            }
        }
        set
    }

    /// Adds one content kind.
    pub fn with(self, content: PromptCacheContent) -> (set: Self)
        ensures
            forall|c: PromptCacheContent| #[trigger] set.has(c) <==> (self.has(c) || c == content),
    {
        proof {
            use_type_invariant(&self);
        }
        let a = self.0;
        let b = content_bit_exec(content);
        proof {
            assert(is_content_bit(b) && a < 64 ==> (a | b) < 64) by (bit_vector);
        }
        let set = Self(a | b);
        proof {
            assert forall|c: PromptCacheContent| #[trigger] set.has(c) <==> (self.has(c) || c
                == content) by {
                let d = content_bit(c);
                assert(is_content_bit(b) && is_content_bit(d) ==> (((a | b) & d != 0) <==> ((a & d
                    != 0) || b == d))) by (bit_vector);
            }
        }
        set
    }

    /// Whether this set contains a content kind.
    pub fn contains(self, content: PromptCacheContent) -> (found: bool)
        ensures
            found == self.has(content),
    {
        self.0 & content_bit_exec(content) != 0
    }

    /// Whether every kind in this set occurs in `allowed`.
    pub fn is_subset_of(self, allowed: &[PromptCacheContent]) -> (subset: bool)
        ensures
            subset == content_within(self, allowed@),
    {
        let all = [
            PromptCacheContent::Text,
            PromptCacheContent::Tools,
            PromptCacheContent::Images,
            PromptCacheContent::Documents,
            PromptCacheContent::Audio,
            PromptCacheContent::Video,
        ];
        let mut i: usize = 0;
        while i < 6
            invariant
                0 <= i <= 6,
                all@ == seq![
                    PromptCacheContent::Text,
                    PromptCacheContent::Tools,
                    PromptCacheContent::Images,
                    PromptCacheContent::Documents,
                    PromptCacheContent::Audio,
                    PromptCacheContent::Video,
                ],
                forall|j: int| 0 <= j < i ==> (self.has(#[trigger] all@[j]) ==> allowed@.contains(all@[j])),
            decreases 6 - i,
        {
            let kind = all[i];
            if self.contains(kind) && !crate::coded::contains_coded(allowed, kind) {
                return false;
            }
            i = i + 1;
        }
        proof {
            assert forall|c: PromptCacheContent| #[trigger] self.has(c) implies allowed@.contains(c) by {
                match c {
                    PromptCacheContent::Text => assert(all@[0] == c),
                    PromptCacheContent::Tools => assert(all@[1] == c),
                    PromptCacheContent::Images => assert(all@[2] == c),
                    PromptCacheContent::Documents => assert(all@[3] == c),
                    PromptCacheContent::Audio => assert(all@[4] == c),
                    PromptCacheContent::Video => assert(all@[5] == c),
                }
            }
        }
        true
    }

    /// Whether the prefix contains nothing provider-visible.
    pub fn is_empty(self) -> (empty: bool)
        ensures
            empty == self.has_none(),
    {
        proof {
            use_type_invariant(&self);
        }
        let a = self.0;
        proof {
            assert(a < 64 ==> (a == 0 <==> (a & 1 == 0 && a & 2 == 0 && a & 4 == 0 && a & 8 == 0
                && a & 16 == 0 && a & 32 == 0))) by (bit_vector);
            if a == 0 {
                assert forall|c: PromptCacheContent| !#[trigger] self.has(c) by {
                    let d = content_bit(c);
                    assert(0u8 & d == 0) by (bit_vector);
                }
            } else {
                assert(self.has(PromptCacheContent::Text) || self.has(PromptCacheContent::Tools)
                    || self.has(PromptCacheContent::Images) || self.has(
                    PromptCacheContent::Documents,
                ) || self.has(PromptCacheContent::Audio) || self.has(PromptCacheContent::Video));
            }
        }
        a == 0
    }
}

impl Default for PromptCacheContentSet {
    fn default() -> (set: Self)
        ensures
            set.has_none(),
    {
        Self::none()
    }
}

/// The content of one boundary point.
pub struct BoundaryPointView {
    pub kind: PromptCacheBoundary,
    pub segment: u32,
    pub message: Option<u32>,
}

/// One legal neutral cache boundary in semantic segment order.
#[derive(Debug, Clone, Copy, PartialEq, Eq, Structural)]
pub struct PromptCacheBoundaryPoint {
    kind: PromptCacheBoundary,
    segment: u32,
    message: Option<u32>,
}

impl View for PromptCacheBoundaryPoint {
    type V = BoundaryPointView;

    closed spec fn view(&self) -> BoundaryPointView {
        BoundaryPointView { kind: self.kind, segment: self.segment, message: self.message }
    }
}

impl PromptCacheBoundaryPoint {
    /// A boundary after segment `segment` that belongs to no message, as plan
    /// fixtures build them.
    pub fn fixture(kind: PromptCacheBoundary, segment: u32) -> (point: Self)
        ensures
            point@ == (BoundaryPointView { kind, segment, message: None }),
    {
        Self { kind, segment, message: None }
    }

    /// Boundary kind.
    pub fn kind(&self) -> (kind: PromptCacheBoundary)
        ensures
            kind == self@.kind,
    {
        self.kind
    }

    /// Stable logical segment ordinal after which this boundary sits.
    pub fn segment(&self) -> (segment: u32)
        ensures
            segment == self@.segment,
    {
        self.segment
    }

    /// Transcript message ordinal for message boundaries.
    pub fn message(&self) -> (message: Option<u32>)
        ensures
            message == self@.message,
    {
        self.message
    }
}

/// A request was too large to describe with the bounded projection metadata.
#[derive(Debug, Clone, Copy, PartialEq, Eq, Structural)]
pub enum PromptCacheProjectionError {
    /// A message/segment ordinal did not fit the stable wire type.
    TooManySegments,
    /// Canonical JSON serialization failed unexpectedly.
    CanonicalJson,
}

impl PromptCacheProjectionError {
    /// The diagnostic sentence.
    pub fn message(&self) -> (text: &'static str)
        ensures
            text@ == match *self {
                PromptCacheProjectionError::TooManySegments => "prompt-cache projection exceeded its message/segment ordinal limit"@,
                PromptCacheProjectionError::CanonicalJson => "prompt-cache projection could not serialize canonical tool JSON"@,
            },
    {
        match self {
            Self::TooManySegments => "prompt-cache projection exceeded its message/segment ordinal limit",
            Self::CanonicalJson => "prompt-cache projection could not serialize canonical tool JSON",
        }
    }
}

/// The content of one projection's metadata.
pub struct ProjectionView {
    pub stable_messages: usize,
    pub stable_bytes: u64,
    pub estimated_tokens: u64,
    pub boundaries: Seq<PromptCacheBoundaryPoint>,
    pub content: PromptCacheContentSet,
}

/// Metadata for the canonical provider-facing stable prefix.
#[derive(Clone, PartialEq, Eq)]
pub struct PromptCacheProjection {
    stable_messages: usize,
    stable_bytes: u64,
    estimated_tokens: u64,
    boundaries: Vec<PromptCacheBoundaryPoint>,
    content: PromptCacheContentSet,
}

impl View for PromptCacheProjection {
    type V = ProjectionView;

    closed spec fn view(&self) -> ProjectionView {
        ProjectionView {
            stable_messages: self.stable_messages,
            stable_bytes: self.stable_bytes,
            estimated_tokens: self.estimated_tokens,
            boundaries: self.boundaries@,
            content: self.content,
        }
    }
}

impl PromptCacheProjection {
    /// Number of complete transcript messages in the stable prefix.
    pub fn stable_messages(&self) -> (count: usize)
        ensures
            count == self@.stable_messages,
    {
        self.stable_messages
    }

    /// Exact canonical projection byte count.
    pub fn stable_bytes(&self) -> (bytes: u64)
        ensures
            bytes == self@.stable_bytes,
    {
        self.stable_bytes
    }

    /// Conservative provider-neutral token estimate used only for eligibility.
    pub fn estimated_tokens(&self) -> (tokens: u64)
        ensures
            tokens == self@.estimated_tokens,
    {
        self.estimated_tokens
    }

    /// Legal boundaries in semantic order.
    pub fn boundaries(&self) -> (boundaries: &[PromptCacheBoundaryPoint])
        ensures
            boundaries@ == self@.boundaries,
    {
        self.boundaries.as_slice()
    }

    /// Provider-visible content kinds in the stable prefix.
    pub fn content(&self) -> (content: PromptCacheContentSet)
        ensures
            content == self@.content,
    {
        self.content
    }
}


// ---------------------------------------------------------------------------
// The canonical stable prefix, stated over the request.
// ---------------------------------------------------------------------------

/// A JSON object as serde_json holds it.
#[verifier::external_type_specification]
#[verifier::external_body]
#[verifier::reject_recursive_types(K)]
#[verifier::reject_recursive_types(V)]
pub struct ExJsonMap<K, V>(serde_json::Map<K, V>);

/// A JSON value as serde_json holds it.
#[verifier::external_type_specification]
#[verifier::external_body]
pub struct ExJsonValue(serde_json::Value);

/// What a JSON object holds: each key with the JSON text `serde_json::to_vec`
/// writes for its value.
pub uninterp spec fn json_fields(object: serde_json::Map<String, serde_json::Value>) -> Map<
    Seq<char>,
    Seq<u8>,
>;

/// The fields of the JSON object `text` spells, where `serde_json::from_str`
/// reads it as an object.
pub uninterp spec fn json_object_fields(text: Seq<char>) -> Option<Map<Seq<char>, Seq<u8>>>;

/// The string a JSON value holds, where the value (given by its JSON text)
/// is a string.
pub uninterp spec fn json_string_value(value: Seq<u8>) -> Option<Seq<char>>;

/// The JSON text `serde_json::to_vec` writes for an object holding `fields`
/// (its map keeps keys sorted, so the text depends on the fields alone).
pub uninterp spec fn json_object_text(fields: Map<Seq<char>, Seq<u8>>) -> Option<Seq<u8>>;

/// `serde_json::from_str`, kept where the text is a JSON object.
#[verifier::external_body]
fn parse_object(text: &str) -> (object: Option<serde_json::Map<String, serde_json::Value>>)
    ensures
        object is None <==> json_object_fields(text@) is None,
        object matches Some(o) ==> json_object_fields(text@) == Some(json_fields(o)),
{
    match serde_json::from_str(text) {
        Ok(serde_json::Value::Object(fields)) => Some(fields),
        _ => None,
    }
}

/// The fields of an empty object.
pub open spec fn no_fields() -> Map<Seq<char>, Seq<u8>> {
    Map::empty()
}

/// `serde_json::Map::new`: an object with no fields.
#[verifier::external_body]
fn empty_object() -> (object: serde_json::Map<String, serde_json::Value>)
    ensures
        json_fields(object) == no_fields(),
{
    serde_json::Map::new()
}

/// `serde_json::Map::remove`: the field `key` leaves the object; its string
/// comes back where the value was a JSON string.
#[verifier::external_body]
fn take_string(object: &mut serde_json::Map<String, serde_json::Value>, key: &str) -> (taken:
    Option<String>)
    ensures
        json_fields(*final(object)) == json_fields(*old(object)).remove(key@),
        taken is Some <==> (json_fields(*old(object)).contains_key(key@) && json_string_value(
            json_fields(*old(object))[key@],
        ) is Some),
        taken matches Some(t) ==> json_string_value(json_fields(*old(object))[key@]) == Some(t@),
{
    match object.remove(key) {
        Some(serde_json::Value::String(text)) => Some(text),
        _ => None,
    }
}

/// `serde_json::to_vec` of the object.
#[verifier::external_body]
fn object_text(object: serde_json::Map<String, serde_json::Value>) -> (text: Option<Vec<u8>>)
    ensures
        text is None <==> json_object_text(json_fields(object)) is None,
        text matches Some(t) ==> json_object_text(json_fields(object)) == Some(t@),
{
    serde_json::to_vec(&serde_json::Value::Object(object)).ok()
}

/// The fields of a tool's schema: none where the text is not a JSON object.
pub open spec fn schema_fields(schema: Seq<char>) -> Map<Seq<char>, Seq<u8>> {
    match json_object_fields(schema) {
        Some(fields) => fields,
        None => no_fields(),
    }
}

/// A tool's description: the schema's `description` where it is a JSON
/// string, else empty.
pub open spec fn schema_description(schema: Seq<char>) -> Seq<char> {
    let fields = schema_fields(schema);
    if fields.contains_key("description"@) {
        match json_string_value(fields["description"@]) {
            Some(text) => text,
            None => Seq::empty(),
        }
    } else {
        Seq::empty()
    }
}

/// A tool's parameters: the JSON text of its schema's fields other than
/// `description`, where serde_json writes it.
pub open spec fn schema_parameters(schema: Seq<char>) -> Option<Seq<u8>> {
    json_object_text(schema_fields(schema).remove("description"@))
}

/// Splits a tool's schema into its description and the JSON text of its
/// remaining fields.
fn described_tool_schema(schema: &str) -> (parts: Option<(Vec<u8>, String)>)
    ensures
        parts is None <==> schema_parameters(schema@) is None,
        parts matches Some(p) ==> schema_parameters(schema@) == Some(p.0@) && p.1@
            == schema_description(schema@),
{
    let mut fields = match parse_object(schema) {
        Some(fields) => fields,
        None => empty_object(),
    };
    let description = match take_string(&mut fields, "description") {
        Some(text) => text,
        None => String::new(),
    };
    match object_text(fields) {
        Some(bytes) => Some((bytes, description)),
        None => None,
    }
}

/// The UTF-8 bytes of a text.
pub open spec fn utf8_of(text: Seq<char>) -> Seq<u8> {
    vstd::utf8::encode_utf8(text)
}

/// One frame: its tag, the value's length as eight big-endian bytes, then the
/// value.
pub open spec fn frame(tag: u8, value: Seq<u8>) -> Seq<u8> {
    seq![tag] + be_bytes(value.len() as u64) + value
}

/// A count of bytes, held at `u64::MAX` where it would pass it.
pub open spec fn saturated(n: nat) -> u64 {
    if n > u64::MAX { u64::MAX } else { n as u64 }
}

/// The version frame every projection opens with.
pub open spec fn header_frame() -> Seq<u8> {
    frame(0, utf8_of("crucible.prompt-cache.projection.v2"@))
}

/// The wire number of a modality.
pub open spec fn modality_code(modality: Modality) -> u8 {
    match modality {
        Modality::Text => 0,
        Modality::Image => 1,
        Modality::Pdf => 2,
        Modality::Audio => 3,
        Modality::Video => 4,
    }
}

/// The content kind an attachment of a modality puts in the prefix.
pub open spec fn modality_content(modality: Modality) -> PromptCacheContent {
    match modality {
        Modality::Text => PromptCacheContent::Text,
        Modality::Image => PromptCacheContent::Images,
        Modality::Pdf => PromptCacheContent::Documents,
        Modality::Audio => PromptCacheContent::Audio,
        Modality::Video => PromptCacheContent::Video,
    }
}

/// The frames of one attachment: its index, media type, modality and content.
/// Its path and hash are not in the request, so never in the prefix.
pub open spec fn attachment_frame(one: Attached) -> Seq<u8> {
    frame(21, be_bytes(one.index as u64)) + frame(22, utf8_of(one.media_type@)) + frame(
        23,
        seq![modality_code(one.modality)],
    ) + match one.content {
        Content::Bytes(bytes) => frame(24, bytes@),
        Content::Instead(text) => frame(25, utf8_of(text@)),
    }
}

/// The frames of the first `n` attachments that belong to message `message`.
pub open spec fn attachment_frames(attached: Seq<Attached>, message: int, n: nat) -> Seq<u8>
    decreases n,
{
    if n == 0 {
        Seq::empty()
    } else {
        attachment_frames(attached, message, (n - 1) as nat) + if attached[n - 1].message
            == message {
            attachment_frame(attached[n - 1])
        } else {
            Seq::empty()
        }
    }
}

/// Whether one of the first `n` attachments of message `message` is of kind
/// `content`.
pub open spec fn attachment_kinds(
    attached: Seq<Attached>,
    message: int,
    n: nat,
    content: PromptCacheContent,
) -> bool
    decreases n,
{
    if n == 0 {
        false
    } else {
        attachment_kinds(attached, message, (n - 1) as nat, content) || (attached[n - 1].message
            == message && modality_content(attached[n - 1].modality) == content)
    }
}

/// The frames of the first `n` calls of an assistant turn.
pub open spec fn call_frames(calls: Seq<CallPart>, n: nat) -> Seq<u8>
    decreases n,
{
    if n == 0 {
        Seq::empty()
    } else {
        call_frames(calls, (n - 1) as nat) + frame(13, utf8_of(calls[n - 1].id@)) + frame(
            14,
            utf8_of(calls[n - 1].name@),
        ) + frame(15, utf8_of(calls[n - 1].args@))
    }
}

/// The frames of the first `n` tool results.
pub open spec fn result_frames(results: Seq<ResultPart>, n: nat) -> Seq<u8>
    decreases n,
{
    if n == 0 {
        Seq::empty()
    } else {
        result_frames(results, (n - 1) as nat) + frame(18, utf8_of(results[n - 1].id@)) + frame(
            19,
            utf8_of(results[n - 1].text@),
        ) + frame(20, seq![if results[n - 1].failed { 1u8 } else { 0u8 }])
    }
}

/// Whether a message carries the attachments named in it into the prefix.
pub open spec fn carries_attachments(message: MessagePart) -> bool {
    message is User || message is ToolResults
}

/// Whether a message is provider-visible: an assistant turn with neither text
/// nor calls is dropped by every adapter.
pub open spec fn is_projected(message: MessagePart) -> bool {
    !(message matches MessagePart::Agent { text, calls, .. } && utf8_of(text@).len() == 0
        && calls@.len() == 0)
}

/// The frames of message number `index`.
pub open spec fn message_frame(message: MessagePart, index: int, attached: Seq<Attached>) -> Seq<
    u8,
> {
    match message {
        MessagePart::Context(text) => frame(10, utf8_of(text@)),
        MessagePart::User(text) => frame(11, utf8_of(text@)) + attachment_frames(
            attached,
            index,
            attached.len(),
        ),
        MessagePart::Agent { text, calls, cut } => frame(12, utf8_of(text@)) + call_frames(
            calls@,
            calls@.len(),
        ) + match cut {
            Some(word) => frame(16, utf8_of(word@)),
            None => Seq::empty(),
        },
        MessagePart::ToolResults(results) => frame(17, Seq::empty()) + result_frames(
            results@,
            results@.len(),
        ) + attachment_frames(attached, index, attached.len()),
    }
}

/// The frames of the provider-visible messages among the first `n`.
pub open spec fn message_frames(request: Request, n: nat) -> Seq<u8>
    decreases n,
{
    if n == 0 {
        Seq::empty()
    } else {
        message_frames(request, (n - 1) as nat) + if is_projected(request.transcript@[n - 1]) {
            message_frame(request.transcript@[n - 1], n - 1, request.attached@)
        } else {
            Seq::empty()
        }
    }
}

/// The ordinals of the provider-visible messages among the first `n`.
pub open spec fn message_stops(request: Request, n: nat) -> Seq<int>
    decreases n,
{
    if n == 0 {
        Seq::empty()
    } else if is_projected(request.transcript@[n - 1]) {
        message_stops(request, (n - 1) as nat).push(n - 1)
    } else {
        message_stops(request, (n - 1) as nat)
    }
}

/// Whether one of the provider-visible messages among the first `n` puts
/// content of kind `content` in the prefix.
pub open spec fn message_kinds(request: Request, n: nat, content: PromptCacheContent) -> bool
    decreases n,
{
    if n == 0 {
        false
    } else {
        let m = request.transcript@[n - 1];
        message_kinds(request, (n - 1) as nat, content) || (is_projected(m) && (content
            == PromptCacheContent::Text || (carries_attachments(m) && attachment_kinds(
            request.attached@,
            n - 1,
            request.attached@.len(),
            content,
        ))))
    }
}

/// Whether serde_json writes every tool's schema.
pub open spec fn tools_serialize(tools: Seq<ToolSchema>) -> bool {
    forall|i: int| 0 <= i < tools.len() ==> (#[trigger] schema_parameters(tools[i].schema@)) is Some
}

/// The frames of one tool: its name, its description, its remaining schema.
pub open spec fn tool_frame(tool: ToolSchema) -> Seq<u8> {
    frame(3, utf8_of(tool.name@)) + frame(4, utf8_of(schema_description(tool.schema@))) + frame(
        5,
        schema_parameters(tool.schema@)->0,
    )
}

/// The frames of the first `n` tools.
pub open spec fn tool_frames(tools: Seq<ToolSchema>, n: nat) -> Seq<u8>
    decreases n,
{
    if n == 0 {
        Seq::empty()
    } else {
        tool_frames(tools, (n - 1) as nat) + tool_frame(tools[n - 1])
    }
}

/// How many messages a stable prefix of `stable` messages takes.
pub open spec fn kept_messages(request: Request, stable: nat) -> nat {
    if stable <= request.transcript@.len() { stable } else { request.transcript@.len() }
}

/// The frames before the messages: the version, the system prompt, the tools.
pub open spec fn head_frames(request: Request) -> Seq<u8> {
    header_frame() + match request.system {
        Some(system) => frame(1, utf8_of(system@)),
        None => Seq::empty(),
    } + if request.tools@.len() == 0 {
        Seq::empty()
    } else {
        frame(2, Seq::empty()) + tool_frames(request.tools@, request.tools@.len())
    }
}

/// The canonical bytes of the stable prefix that ends after `stable` messages.
pub open spec fn projection_frames(request: Request, stable: nat) -> Seq<u8> {
    head_frames(request) + message_frames(request, kept_messages(request, stable))
}

/// The boundary kinds before the messages.
pub open spec fn head_kinds(request: Request) -> Seq<PromptCacheBoundary> {
    (if request.system is Some { seq![PromptCacheBoundary::AfterSystem] } else { Seq::empty() })
        + if request.tools@.len() == 0 {
        Seq::empty()
    } else {
        seq![PromptCacheBoundary::AfterTools]
    }
}

/// Every boundary, in order, given the message ordinals that own one: the
/// boundary numbered `j` sits after segment `j + 1`.
pub open spec fn points_of(heads: Seq<PromptCacheBoundary>, stops: Seq<int>) -> Seq<BoundaryPointView> {
    Seq::new(
        heads.len() + stops.len(),
        |j: int|
            if j < heads.len() {
                BoundaryPointView { kind: heads[j], segment: (j + 1) as u32, message: None }
            } else {
                BoundaryPointView {
                    kind: PromptCacheBoundary::AfterMessage,
                    segment: (j + 1) as u32,
                    message: Some(stops[j - heads.len()] as u32),
                }
            },
    )
}

/// The latest `MAX_PROMPT_CACHE_BOUNDARIES` of a run of boundaries.
pub open spec fn latest(points: Seq<BoundaryPointView>) -> Seq<BoundaryPointView> {
    if points.len() <= 64 {
        points
    } else {
        points.subrange(points.len() - 64, points.len() as int)
    }
}

/// Whether every segment number and message ordinal fits in a `u32`.
pub open spec fn segments_fit(request: Request, stable: nat) -> bool {
    let stops = message_stops(request, kept_messages(request, stable));
    &&& head_kinds(request).len() + stops.len() <= u32::MAX
    &&& forall|k: int| 0 <= k < stops.len() ==> #[trigger] stops[k] <= u32::MAX
}

/// What walking the request for a prefix of `stable` messages fails with, if
/// anything: unwritable tool JSON first, then an ordinal past `u32`.
pub open spec fn projection_error(request: Request, stable: nat) -> Option<PromptCacheProjectionError> {
    if request.tools@.len() != 0 && !tools_serialize(request.tools@) {
        Some(PromptCacheProjectionError::CanonicalJson)
    } else if !segments_fit(request, stable) {
        Some(PromptCacheProjectionError::TooManySegments)
    } else {
        None
    }
}

/// Whether the prefix of `stable` messages holds content of kind `content`.
pub open spec fn projection_kinds(request: Request, stable: nat, content: PromptCacheContent) -> bool {
    ||| (request.system is Some && content == PromptCacheContent::Text)
    ||| (request.tools@.len() != 0 && content == PromptCacheContent::Tools)
    ||| message_kinds(request, kept_messages(request, stable), content)
}

/// The ordinal of the most recent user message among the first `n`, or 0.
pub open spec fn last_user(messages: Seq<MessagePart>, n: nat) -> nat
    decreases n,
{
    if n == 0 {
        0
    } else if messages[n - 1] is User {
        (n - 1) as nat
    } else {
        last_user(messages, (n - 1) as nat)
    }
}

/// Whether `view` is the projection of `request` with a stable prefix of
/// `stable` messages.
pub open spec fn describes(view: ProjectionView, request: Request, stable: nat) -> bool {
    let bytes = saturated(projection_frames(request, stable).len());
    &&& view.stable_messages == stable
    &&& view.stable_bytes == bytes
    &&& view.estimated_tokens == (if bytes + 3 > u64::MAX { u64::MAX } else { (bytes + 3) as u64 }) / 4
    &&& view.boundaries.map_values(|p: PromptCacheBoundaryPoint| p@) == latest(
        points_of(head_kinds(request), message_stops(request, kept_messages(request, stable))),
    )
    &&& forall|c: PromptCacheContent| #[trigger] view.content.has(c) <==> projection_kinds(request, stable, c)
}


/// Appends bytes to a buffer.
fn append_bytes(out: &mut Vec<u8>, bytes: &[u8])
    ensures
        final(out)@ == old(out)@ + bytes@,
{
    let mut i: usize = 0;
    while i < bytes.len()
        invariant
            0 <= i <= bytes@.len(),
            out@ == old(out)@ + bytes@.subrange(0, i as int),
        decreases bytes@.len() - i,
    {
        out.push(bytes[i]);
        i = i + 1;
        proof {
            assert(bytes@.subrange(0, i as int) =~= bytes@.subrange(0, i - 1).push(bytes@[i - 1]));
        }
    }
    proof {
        assert(bytes@.subrange(0, bytes@.len() as int) =~= bytes@);
    }
}

/// The running state of one walk over a request.
struct Walk {
    emit: bool,
    out: Vec<u8>,
    bytes: u64,
    segment: u32,
    boundaries: Vec<PromptCacheBoundaryPoint>,
    content: PromptCacheContentSet,
    frames: Ghost<Seq<u8>>,
    points: Ghost<Seq<BoundaryPointView>>,
}

impl Walk {
    /// The count, the buffer and the kept boundaries agree with what was
    /// framed and marked so far.
    spec fn wf(&self) -> bool {
        &&& self.bytes == saturated(self.frames@.len())
        &&& self.emit ==> self.out@ == self.frames@
        &&& !self.emit ==> self.out@.len() == 0
        &&& self.segment == self.points@.len()
        &&& self.boundaries@.map_values(|p: PromptCacheBoundaryPoint| p@) == latest(self.points@)
    }

    fn new(emit: bool) -> (walk: Self)
        ensures
            walk.wf(),
            walk.emit == emit,
            walk.frames@ == Seq::<u8>::empty(),
            walk.points@ == Seq::<BoundaryPointView>::empty(),
            walk.content.has_none(),
    {
        let walk = Walk {
            emit,
            out: Vec::new(),
            bytes: 0,
            segment: 0,
            boundaries: Vec::new(),
            content: PromptCacheContentSet::none(),
            frames: Ghost(Seq::empty()),
            points: Ghost(Seq::empty()),
        };
        proof {
            assert(walk.boundaries@.map_values(|p: PromptCacheBoundaryPoint| p@) =~= latest(
                walk.points@,
            ));
        }
        walk
    }

    /// Frames one value.
    fn frame(&mut self, tag: u8, value: &[u8])
        requires
            old(self).wf(),
        ensures
            final(self).wf(),
            final(self).frames@ == old(self).frames@ + frame(tag, value@),
            final(self).emit == old(self).emit,
            final(self).segment == old(self).segment,
            final(self).points@ == old(self).points@,
            final(self).content == old(self).content,
    {
        let len: u64 = value.len() as u64;
        self.bytes = self.bytes.saturating_add(9).saturating_add(len);
        if self.emit {
            self.out.push(tag);
            frame_u64(&mut self.out, len);
            append_bytes(&mut self.out, value);
        }
        proof {
            let framed = frame(tag, value@);
            assert(framed.len() == 9 + value@.len());
            if self.emit {
                assert(self.out@ =~= old(self).frames@ + framed);
            }
            self.frames = Ghost(old(self).frames@ + framed);
        }
    }

    /// Adds a kind of content.
    fn note(&mut self, content: PromptCacheContent)
        requires
            old(self).wf(),
        ensures
            final(self).wf(),
            final(self).frames@ == old(self).frames@,
            final(self).emit == old(self).emit,
            final(self).segment == old(self).segment,
            final(self).points@ == old(self).points@,
            forall|c: PromptCacheContent| #[trigger] final(self).content.has(c) <==> (old(
                self,
            ).content.has(c) || c == content),
    {
        self.content = self.content.with(content);
    }

    /// Closes a segment with a boundary of `kind`, keeping the latest
    /// `MAX_PROMPT_CACHE_BOUNDARIES` boundaries.
    fn boundary(&mut self, kind: PromptCacheBoundary, message: Option<usize>)
        requires
            old(self).wf(),
            old(self).segment < u32::MAX,
            message matches Some(i) ==> i <= u32::MAX,
        ensures
            final(self).wf(),
            final(self).frames@ == old(self).frames@,
            final(self).emit == old(self).emit,
            final(self).content == old(self).content,
            final(self).segment == old(self).segment + 1,
            final(self).points@ == old(self).points@.push(
                BoundaryPointView {
                    kind,
                    segment: (old(self).segment + 1) as u32,
                    message: match message {
                        Some(i) => Some(i as u32),
                        None => None,
                    },
                },
            ),
    {
        self.segment = self.segment + 1;
        let ordinal: Option<u32> = match message {
            Some(i) => Some(i as u32),
            None => None,
        };
        let point = PromptCacheBoundaryPoint { kind, segment: self.segment, message: ordinal };
        let ghost before = self.boundaries@;
        if self.boundaries.len() == MAX_PROMPT_CACHE_BOUNDARIES {
            self.boundaries.remove(0);
        }
        self.boundaries.push(point);
        proof {
            let old_points = old(self).points@;
            let new_points = old_points.push(point@);
            self.points = Ghost(new_points);
            let views = self.boundaries@.map_values(|p: PromptCacheBoundaryPoint| p@);
            let old_views = before.map_values(|p: PromptCacheBoundaryPoint| p@);
            assert(old_views == latest(old_points));
            assert(old_views.len() == before.len());
            if old_points.len() < 64 {
                assert(before.len() < 64);
                assert(views =~= latest(new_points));
            } else {
                assert(before.len() == 64);
                assert(self.boundaries@ == before.remove(0).push(point));
                let n = old_points.len();
                assert(latest(new_points) =~= new_points.subrange(n + 1 - 64, (n + 1) as int));
                assert forall|j: int| 0 <= j < 64 implies views[j] == latest(new_points)[j] by {
                    if j < 63 {
                        assert(views[j] == before[j + 1]@);
                        assert(before[j + 1]@ == old_views[j + 1]);
                        assert(old_views[j + 1] == old_points[n - 64 + j + 1]);
                    }
                }
                assert(views =~= latest(new_points));
            }
        }
    }
}


fn modality_code_exec(modality: Modality) -> (code: u8)
    ensures
        code == modality_code(modality),
{
    match modality {
        Modality::Text => 0,
        Modality::Image => 1,
        Modality::Pdf => 2,
        Modality::Audio => 3,
        Modality::Video => 4,
    }
}

fn modality_content_exec(modality: Modality) -> (content: PromptCacheContent)
    ensures
        content == modality_content(modality),
{
    match modality {
        Modality::Text => PromptCacheContent::Text,
        Modality::Image => PromptCacheContent::Images,
        Modality::Pdf => PromptCacheContent::Documents,
        Modality::Audio => PromptCacheContent::Audio,
        Modality::Video => PromptCacheContent::Video,
    }
}

/// Frames the attachments that belong to message `message`.
fn write_attachments(state: &mut Walk, message: usize, attached: &[Attached])
    requires
        old(state).wf(),
    ensures
        final(state).wf(),
        final(state).frames@ == old(state).frames@ + attachment_frames(
            attached@,
            message as int,
            attached@.len(),
        ),
        final(state).emit == old(state).emit,
        final(state).segment == old(state).segment,
        final(state).points@ == old(state).points@,
        forall|c: PromptCacheContent| #[trigger] final(state).content.has(c) <==> (old(
            state,
        ).content.has(c) || attachment_kinds(attached@, message as int, attached@.len(), c)),
{
    let ghost start = *state;
    let mut i: usize = 0;
    while i < attached.len()
        invariant
            0 <= i <= attached@.len(),
            state.wf(),
            state.frames@ == start.frames@ + attachment_frames(attached@, message as int, i as nat),
            state.emit == start.emit,
            state.segment == start.segment,
            state.points@ == start.points@,
            forall|c: PromptCacheContent| #[trigger] state.content.has(c) <==> (start.content.has(c)
                || attachment_kinds(attached@, message as int, i as nat, c)),
        decreases attached@.len() - i,
    {
        let one = attached[i];
        let ghost before = state.frames@;
        if one.message == message {
            let mut index: Vec<u8> = Vec::new();
            frame_u64(&mut index, one.index as u64);
            proof {
                assert(index@ =~= be_bytes(one.index as u64));
            }
            state.frame(21, index.as_slice());
            state.frame(22, one.media_type.as_bytes());
            let code: Vec<u8> = vec![modality_code_exec(one.modality)];
            proof {
                assert(code@ =~= seq![modality_code(one.modality)]);
            }
            state.frame(23, code.as_slice());
            match one.content {
                Content::Bytes(bytes) => state.frame(24, bytes),
                Content::Instead(text) => state.frame(25, text.as_bytes()),
            }
            state.note(modality_content_exec(one.modality));
            proof {
                assert(state.frames@ =~= before + attachment_frame(one));
            }
        }
        i = i + 1;
        proof {
            assert(state.frames@ =~= start.frames@ + attachment_frames(
                attached@,
                message as int,
                i as nat,
            ));
        }
    }
}

/// Frames one provider-visible message.
fn write_message(state: &mut Walk, message: MessagePart, index: usize, attached: &[Attached])
    requires
        old(state).wf(),
    ensures
        final(state).wf(),
        final(state).frames@ == old(state).frames@ + message_frame(message, index as int, attached@),
        final(state).emit == old(state).emit,
        final(state).segment == old(state).segment,
        final(state).points@ == old(state).points@,
        forall|c: PromptCacheContent| #[trigger] final(state).content.has(c) <==> (old(
            state,
        ).content.has(c) || (carries_attachments(message) && attachment_kinds(
            attached@,
            index as int,
            attached@.len(),
            c,
        ))),
{
    let ghost start = *state;
    match message {
        MessagePart::Context(text) => {
            state.frame(10, text.as_bytes());
        },
        MessagePart::User(text) => {
            state.frame(11, text.as_bytes());
            write_attachments(state, index, attached);
            proof {
                assert(state.frames@ =~= start.frames@ + message_frame(message, index as int, attached@));
            }
        },
        MessagePart::Agent { text, calls, cut } => {
            state.frame(12, text.as_bytes());
            let ghost base = state.frames@;
            let mut i: usize = 0;
            while i < calls.len()
                invariant
                    0 <= i <= calls@.len(),
                    state.wf(),
                    state.frames@ == base + call_frames(calls@, i as nat),
                    state.emit == start.emit,
                    state.segment == start.segment,
                    state.points@ == start.points@,
                    state.content == start.content,
                decreases calls@.len() - i,
            {
                let call = calls[i];
                state.frame(13, call.id.as_bytes());
                state.frame(14, call.name.as_bytes());
                state.frame(15, call.args.as_bytes());
                i = i + 1;
                proof {
                    assert(state.frames@ =~= base + call_frames(calls@, i as nat));
                }
            }
            match cut {
                Some(word) => state.frame(16, word.as_bytes()),
                None => {},
            }
            proof {
                assert(state.frames@ =~= start.frames@ + message_frame(message, index as int, attached@));
            }
        },
        MessagePart::ToolResults(results) => {
            let empty: Vec<u8> = Vec::new();
            state.frame(17, empty.as_slice());
            let ghost base = state.frames@;
            let mut i: usize = 0;
            while i < results.len()
                invariant
                    0 <= i <= results@.len(),
                    state.wf(),
                    state.frames@ == base + result_frames(results@, i as nat),
                    state.emit == start.emit,
                    state.segment == start.segment,
                    state.points@ == start.points@,
                    state.content == start.content,
                decreases results@.len() - i,
            {
                let result = results[i];
                state.frame(18, result.id.as_bytes());
                state.frame(19, result.text.as_bytes());
                let flag: Vec<u8> = vec![if result.failed { 1u8 } else { 0u8 }];
                proof {
                    assert(flag@ =~= seq![if result.failed { 1u8 } else { 0u8 }]);
                }
                state.frame(20, flag.as_slice());
                i = i + 1;
                proof {
                    assert(state.frames@ =~= base + result_frames(results@, i as nat));
                }
            }
            write_attachments(state, index, attached);
            proof {
                assert(state.frames@ =~= start.frames@ + message_frame(message, index as int, attached@));
            }
        },
    }
}


proof fn lemma_stops_extend(request: Request, n: nat, m: nat)
    requires
        n <= m <= request.transcript@.len(),
    ensures
        message_stops(request, n).len() <= message_stops(request, m).len(),
        forall|k: int|
            0 <= k < message_stops(request, n).len() ==> #[trigger] message_stops(request, m)[k]
                == message_stops(request, n)[k],
    decreases m - n,
{
    if n < m {
        lemma_stops_extend(request, n, (m - 1) as nat);
    }
}

proof fn lemma_points_push(heads: Seq<PromptCacheBoundary>, stops: Seq<int>, x: int)
    ensures
        points_of(heads, stops.push(x)) == points_of(heads, stops).push(
            BoundaryPointView {
                kind: PromptCacheBoundary::AfterMessage,
                segment: (heads.len() + stops.len() + 1) as u32,
                message: Some(x as u32),
            },
        ),
{
    assert(points_of(heads, stops.push(x)) =~= points_of(heads, stops).push(
        BoundaryPointView {
            kind: PromptCacheBoundary::AfterMessage,
            segment: (heads.len() + stops.len() + 1) as u32,
            message: Some(x as u32),
        },
    ));
}

/// The walk has framed, marked and noted the first `n` messages after the
/// head.
spec fn walked_through(state: Walk, req: Request, head: Seq<u8>, n: nat) -> bool {
    &&& n <= req.transcript@.len()
    &&& state.wf()
    &&& state.frames@ == head + message_frames(req, n)
    &&& state.points@ == points_of(head_kinds(req), message_stops(req, n))
    &&& forall|k: int|
        0 <= k < message_stops(req, n).len() ==> #[trigger] message_stops(req, n)[k] <= u32::MAX
    &&& req.tools@.len() != 0 ==> tools_serialize(req.tools@)
    &&& forall|c: PromptCacheContent| #[trigger] state.content.has(c) <==> (
    (req.system is Some && c == PromptCacheContent::Text) || (req.tools@.len() != 0 && c
        == PromptCacheContent::Tools) || message_kinds(req, n, c))
}

proof fn lemma_ordinal_overflow(req: Request, i: nat, kept: nat, stable: nat)
    requires
        i < kept,
        kept == kept_messages(req, stable),
        is_projected(req.transcript@[i as int]),
        head_kinds(req).len() + message_stops(req, i).len() == u32::MAX || i > u32::MAX,
    ensures
        !segments_fit(req, stable),
{
    lemma_stops_extend(req, i + 1, kept);
    let stops = message_stops(req, kept);
    let here = message_stops(req, i);
    assert(message_stops(req, i + 1) == here.push(i as int));
    assert(stops[here.len() as int] == i);
}

/// Walks message `i`, the next one after those already walked.
fn walk_message(
    state: &mut Walk,
    request: &Request,
    i: usize,
    kept: usize,
    stable_messages: usize,
    Ghost(head): Ghost<Seq<u8>>,
) -> (step: Result<(), PromptCacheProjectionError>)
    requires
        i < kept,
        kept == kept_messages(*request, stable_messages as nat),
        walked_through(*old(state), *request, head, i as nat),
    ensures
        final(state).emit == old(state).emit,
        step is Ok ==> walked_through(*final(state), *request, head, (i + 1) as nat),
        step matches Err(e) ==> projection_error(*request, stable_messages as nat) == Some(e),
{
    let ghost req = *request;
    let message = request.transcript[i];
    let visible = match message {
        MessagePart::Agent { text, calls, .. } => !(text.as_bytes().len() == 0 && calls.len() == 0),
        _ => true,
    };
    proof {
        assert(visible == is_projected(message));
    }
    if visible {
        if state.segment == u32::MAX || i > 0xffff_ffffusize {
            proof {
                lemma_ordinal_overflow(req, i as nat, kept as nat, stable_messages as nat);
            }
            return Err(PromptCacheProjectionError::TooManySegments);
        }
        let ghost start = *state;
        state.note(PromptCacheContent::Text);
        write_message(state, message, i, request.attached);
        state.boundary(PromptCacheBoundary::AfterMessage, Some(i));
        proof {
            lemma_points_push(head_kinds(req), message_stops(req, i as nat), i as int);
            assert(message_stops(req, (i + 1) as nat) == message_stops(req, i as nat).push(i as int));
            assert(state.frames@ =~= head + message_frames(req, (i + 1) as nat));
            assert forall|c: PromptCacheContent| #[trigger] state.content.has(c) <==> (
            (req.system is Some && c == PromptCacheContent::Text) || (req.tools@.len() != 0 && c
                == PromptCacheContent::Tools) || message_kinds(req, (i + 1) as nat, c)) by {
                assert(start.content.has(c) <==> ((req.system is Some && c
                    == PromptCacheContent::Text) || (req.tools@.len() != 0 && c
                    == PromptCacheContent::Tools) || message_kinds(req, i as nat, c)));
            }
        }
    } else {
        proof {
            assert(state.frames@ =~= head + message_frames(req, (i + 1) as nat));
            assert forall|c: PromptCacheContent| #[trigger] state.content.has(c) <==> (
            (req.system is Some && c == PromptCacheContent::Text) || (req.tools@.len() != 0 && c
                == PromptCacheContent::Tools) || message_kinds(req, (i + 1) as nat, c)) by {
            }
        }
    }
    Ok(())
}

/// Walks the request once: frames the stable prefix of `stable_messages`
/// messages, marks its boundaries and notes its content kinds.
fn walk(request: &Request, stable_messages: usize, emit: bool) -> (walked: Result<
    Walk,
    PromptCacheProjectionError,
>)
    ensures
        walked matches Err(e) ==> projection_error(*request, stable_messages as nat) == Some(e),
        walked matches Ok(w) ==> {
            &&& projection_error(*request, stable_messages as nat) is None
            &&& w.wf()
            &&& w.emit == emit
            &&& w.frames@ == projection_frames(*request, stable_messages as nat)
            &&& w.points@ == points_of(
                head_kinds(*request),
                message_stops(*request, kept_messages(*request, stable_messages as nat)),
            )
            &&& forall|c: PromptCacheContent| #[trigger] w.content.has(c) <==> projection_kinds(
                *request,
                stable_messages as nat,
                c,
            )
        },
{
    let ghost req = *request;
    let mut state = Walk::new(emit);
    let header: &str = "crucible.prompt-cache.projection.v2";
    state.frame(0, header.as_bytes());
    match request.system {
        Some(system) => {
            state.note(PromptCacheContent::Text);
            state.frame(1, system.as_bytes());
            state.boundary(PromptCacheBoundary::AfterSystem, None);
        },
        None => {},
    }
    let ghost after_system = state.frames@;
    if request.tools.len() > 0 {
        state.note(PromptCacheContent::Tools);
        let empty: Vec<u8> = Vec::new();
        state.frame(2, empty.as_slice());
        let ghost base = state.frames@;
        let ghost seg = state.segment;
        let ghost pts = state.points@;
        let ghost kinds = state.content;
        let mut i: usize = 0;
        while i < request.tools.len()
            invariant
                0 <= i <= req.tools@.len(),
                req == *request,
                state.wf(),
                state.emit == emit,
                state.frames@ == base + tool_frames(req.tools@, i as nat),
                state.segment == seg,
                state.points@ == pts,
                state.content == kinds,
                seg <= 1,
                forall|j: int| 0 <= j < i ==> (#[trigger] schema_parameters(req.tools@[j].schema@)) is Some,
            decreases req.tools@.len() - i,
        {
            let tool = request.tools[i];
            state.frame(3, tool.name.as_bytes());
            match described_tool_schema(tool.schema) {
                Some(parts) => {
                    state.frame(4, parts.1.as_str().as_bytes());
                    state.frame(5, parts.0.as_slice());
                },
                None => {
                    proof {
                        assert(!tools_serialize(req.tools@));
                    }
                    return Err(PromptCacheProjectionError::CanonicalJson);
                },
            }
            i = i + 1;
            proof {
                assert(state.frames@ =~= base + tool_frames(req.tools@, i as nat));
            }
        }
        state.boundary(PromptCacheBoundary::AfterTools, None);
    }
    proof {
        assert(state.frames@ =~= head_frames(req));
        assert(state.points@ =~= points_of(head_kinds(req), Seq::empty()));
        assert(message_stops(req, 0) =~= Seq::<int>::empty());
    }
    let ghost head = state.frames@;
    let ghost head_content = state.content;
    let kept: usize = if stable_messages <= request.transcript.len() {
        stable_messages
    } else {
        request.transcript.len()
    };
    let mut i: usize = 0;
    while i < kept
        invariant
            0 <= i <= kept,
            kept == kept_messages(req, stable_messages as nat),
            req == *request,
            state.emit == emit,
            head == head_frames(req),
            walked_through(state, req, head, i as nat),
        decreases kept - i,
    {
        match walk_message(&mut state, request, i, kept, stable_messages, Ghost(head)) {
            Ok(()) => {},
            Err(e) => {
                return Err(e);
            },
        }
        i = i + 1;
    }
    proof {
        assert(state.frames@ =~= projection_frames(req, stable_messages as nat));
    }
    Ok(state)
}


/// The ordinal of the most recent user message, or 0 where there is none.
fn last_user_message(messages: &[MessagePart]) -> (found: usize)
    ensures
        found == last_user(messages@, messages@.len()),
{
    let mut found: usize = 0;
    let mut i: usize = 0;
    while i < messages.len()
        invariant
            0 <= i <= messages@.len(),
            found == last_user(messages@, i as nat),
        decreases messages@.len() - i,
    {
        if let MessagePart::User(_) = messages[i] {
            found = i;
        }
        i = i + 1;
    }
    found
}

impl PromptCacheProjection {
    /// Inspects the exact borrowed request without retaining any prompt bytes.
    ///
    /// The stable transcript prefix ends immediately before the most recent
    /// user message. That preserves every earlier provider-visible item in
    /// order and leaves the current prompt, its context deltas, tool exchange,
    /// and steering in the volatile suffix.
    ///
    /// Fails if request ordinals exceed their stable representation or
    /// canonical tool-schema serialization fails.
    pub fn inspect(request: &Request) -> (projection: Result<Self, PromptCacheProjectionError>)
        ensures
            projection matches Err(e) ==> projection_error(
                *request,
                last_user(request.transcript@, request.transcript@.len()),
            ) == Some(e),
            projection matches Ok(p) ==> {
                &&& projection_error(
                    *request,
                    last_user(request.transcript@, request.transcript@.len()),
                ) is None
                &&& describes(
                    p@,
                    *request,
                    last_user(request.transcript@, request.transcript@.len()),
                )
            },
    {
        let stable_messages = last_user_message(request.transcript);
        let state = match walk(request, stable_messages, false) {
            Ok(state) => state,
            Err(e) => {
                return Err(e);
            },
        };
        // The estimate only predicts eligibility; provider usage remains
        // authoritative for context accounting and hit reporting.
        let estimated_tokens = state.bytes.saturating_add(3) / 4;
        Ok(Self {
            stable_messages,
            stable_bytes: state.bytes,
            estimated_tokens,
            boundaries: state.boundaries,
            content: state.content,
        })
    }

    /// The canonical stable-prefix bytes, for a caller-owned digest.
    ///
    /// Fails where [`PromptCacheProjection::inspect`] fails on the same
    /// request.
    pub fn write_stable(&self, request: &Request) -> (written: Result<
        Vec<u8>,
        PromptCacheProjectionError,
    >)
        ensures
            written matches Err(e) ==> projection_error(*request, self@.stable_messages as nat)
                == Some(e),
            written matches Ok(bytes) ==> {
                &&& projection_error(*request, self@.stable_messages as nat) is None
                &&& bytes@ == projection_frames(*request, self@.stable_messages as nat)
            },
    {
        match walk(request, self.stable_messages, true) {
            Ok(state) => Ok(state.out),
            Err(e) => Err(e),
        }
    }
}


proof fn lemma_message_frames_agree(first: Request, second: Request, n: nat)
    requires
        n <= first.transcript@.len(),
        n <= second.transcript@.len(),
        first.transcript@.subrange(0, n as int) == second.transcript@.subrange(0, n as int),
        first.attached@ == second.attached@,
    ensures
        message_frames(first, n) == message_frames(second, n),
        message_stops(first, n) == message_stops(second, n),
    decreases n,
{
    if n > 0 {
        assert(first.transcript@[n - 1] == first.transcript@.subrange(0, n as int)[n - 1]);
        assert(second.transcript@[n - 1] == second.transcript@.subrange(0, n as int)[n - 1]);
        assert(first.transcript@.subrange(0, n - 1) =~= first.transcript@.subrange(0, n as int).subrange(0, n - 1));
        assert(second.transcript@.subrange(0, n - 1) =~= second.transcript@.subrange(0, n as int).subrange(0, n - 1));
        lemma_message_frames_agree(first, second, (n - 1) as nat);
    }
}

/// What comes after the stable prefix never reaches it: two requests with the
/// same system prompt, tools and attachment content whose transcripts agree on
/// their first `stable` messages have the same stable bytes and boundaries,
/// whatever either says afterwards.
pub proof fn lemma_volatile_suffix_leaves_the_prefix(first: Request, second: Request, stable: nat)
    requires
        stable <= first.transcript@.len(),
        stable <= second.transcript@.len(),
        first.transcript@.subrange(0, stable as int) == second.transcript@.subrange(0, stable as int),
        first.system == second.system,
        first.tools@ == second.tools@,
        first.attached@ == second.attached@,
    ensures
        projection_frames(first, stable) == projection_frames(second, stable),
        points_of(head_kinds(first), message_stops(first, kept_messages(first, stable)))
            == points_of(head_kinds(second), message_stops(second, kept_messages(second, stable))),
{
    lemma_message_frames_agree(first, second, stable);
}


/// What `write_stable` writes is what `inspect` counted: for a projection
/// that describes a request, the stable bytes of that request number its
/// `stable_bytes` (held at `u64::MAX`), and its token estimate is that count
/// plus three, divided by four.
pub proof fn lemma_written_prefix_is_the_counted_prefix(
    view: ProjectionView,
    request: Request,
    stable: nat,
)
    requires
        describes(view, request, stable),
    ensures
        view.stable_bytes == saturated(projection_frames(request, stable).len()),
        view.estimated_tokens == (if view.stable_bytes + 3 > u64::MAX {
            u64::MAX
        } else {
            (view.stable_bytes + 3) as u64
        }) / 4,
{
}

} // verus!
