//! Owned tool descriptions and immutable advertised rosters.
//!
//! A tool's name, provider schema, source and scheduling controls are
//! configuration, so they travel in a [`ToolDescriptor`]. A [`ToolSnapshot`]
//! is the one roster a provider request was admitted against: bounded in
//! size, and holding no two names a case-blind permission rule would read as
//! one.

use vstd::prelude::*;
use vstd::utf8::encode_utf8;
use std::time::Duration;
use crate::duration::{duration_nanos, nanos_of};
use crate::prompt_cache::resource::canonical_v7;
use crate::provider::{CallPart, ToolSchema};
use crate::registry::{
    provenance_error_text,
    provenance_text,
    registry_error_text,
    Provenance,
    ProvenanceError,
    ProvenanceView,
    ReceiptView,
    RegistryError,
    RegistryErrorView,
    SourceKind,
    SourceReceipt,
};
use crate::text::{ascii_lowercase, decimal, decimal_text, joined, same_ignoring_ascii_case, same_text};
use crate::tool::{capped, ToolError, TOOL_RESULT_MIN_BYTES, ToolOutputRetention};

verus! {

/// The most bytes a provider-visible tool name may retain.
pub const TOOL_NAME_BYTES: usize = 4096;

/// The most bytes retained for one provider tool-call identifier.
pub const TOOL_CALL_ID_BYTES: usize = 16384;

/// The most bytes retained for one tool call's argument text.
pub const TOOL_ARGUMENT_BYTES: usize = 1048576;

/// The most bytes one exact provider schema may retain.
pub const TOOL_SCHEMA_BYTES: usize = 1048576;

/// The most bytes in a stable, receipt-safe source identifier.
pub const TOOL_SOURCE_ID_BYTES: usize = crate::registry::SOURCE_ID_BYTES;

/// The most bytes in the diagnostic spelling of a source.
pub const TOOL_SOURCE_LABEL_BYTES: usize = crate::registry::SOURCE_LABEL_BYTES;

/// The most bytes in one resource-exclusion key.
pub const TOOL_RESOURCE_KEY_BYTES: usize = 4096;

/// The most visible/reachable entries one immutable snapshot retains.
pub const TOOL_SNAPSHOT_ENTRIES: usize = 1024;

/// The aggregate descriptor bytes one immutable snapshot retains.
pub const TOOL_SNAPSHOT_BYTES: usize = 16777216;

/// Where a tool registration came from: the registry's shared source kind.
pub type ToolSourceKind = SourceKind;

/// The receipt-safe projection of a tool registration source.
pub type ToolSourceReceipt = SourceReceipt;

/// A tool registration's bounded source identity and diagnostic spelling.
pub type ToolProvenance = Provenance;

/// How many bytes `s` takes in UTF-8.
pub open spec fn byte_len(s: Seq<char>) -> int {
    encode_utf8(s).len() as int
}

/// Why owned tool metadata or one of its controls was refused.
#[derive(Debug, Clone, PartialEq, Eq)]
pub enum ToolDescriptorError {
    /// The tool's source could not be described.
    Provenance(ProvenanceError),
    /// A retained string was empty.
    Empty {
        /// Which descriptor field.
        field: &'static str,
    },
    /// A retained string crossed its boundary.
    TooLong {
        /// Which descriptor field.
        field: &'static str,
        /// Its boundary.
        maximum: usize,
        /// What was supplied.
        actual: usize,
    },
    /// A timeout of no time at all.
    ZeroTimeout,
    /// An explicit result allowance too small to state an elision.
    ResultBytesTooSmall {
        /// The smallest usable encoded allowance.
        minimum: usize,
        /// What was supplied.
        actual: usize,
    },
}

/// The sentence a descriptor refusal reads as.
pub open spec fn descriptor_error_text(error: ToolDescriptorError) -> Seq<char> {
    match error {
        ToolDescriptorError::Provenance(e) => provenance_error_text(e),
        ToolDescriptorError::Empty { field } => field@ + " must not be empty"@,
        ToolDescriptorError::TooLong { field, maximum, actual } => field@ + " is "@ + decimal(
            actual as nat,
        ) + " bytes; the maximum is "@ + decimal(maximum as nat),
        ToolDescriptorError::ZeroTimeout => "a tool timeout must be greater than zero"@,
        ToolDescriptorError::ResultBytesTooSmall { minimum, actual } => "a tool result limit is "@
            + decimal(actual as nat) + " bytes; the minimum is "@ + decimal(minimum as nat),
    }
}

impl ToolDescriptorError {
    /// The diagnostic sentence.
    pub fn message(&self) -> (text: String)
        ensures
            text@ == descriptor_error_text(*self),
    {
        match self {
            Self::Provenance(error) => error.message(),
            Self::Empty { field } => joined((*field).to_owned(), " must not be empty"),
            Self::TooLong { field, maximum, actual } => {
                let head = joined(joined((*field).to_owned(), " is "), decimal_text(*actual as u64).as_str());
                joined(joined(head, " bytes; the maximum is "), decimal_text(*maximum as u64).as_str())
            },
            Self::ZeroTimeout => "a tool timeout must be greater than zero".to_owned(),
            Self::ResultBytesTooSmall { minimum, actual } => {
                let head = joined("a tool result limit is ".to_owned(), decimal_text(*actual as u64).as_str());
                joined(joined(head, " bytes; the minimum is "), decimal_text(*minimum as u64).as_str())
            },
        }
    }
}

/// Why a retained descriptor field is refused, if it is: empty, or longer
/// than `maximum` bytes.
pub open spec fn descriptor_field_refusal(field: &'static str, value: Seq<char>, maximum: usize) -> Option<
    ToolDescriptorError,
> {
    if value.len() == 0 {
        Some(ToolDescriptorError::Empty { field })
    } else if byte_len(value) > maximum {
        Some(ToolDescriptorError::TooLong { field, maximum, actual: byte_len(value) as usize })
    } else {
        None
    }
}

fn bounded(field: &'static str, value: &str, maximum: usize) -> (checked: Result<
    (),
    ToolDescriptorError,
>)
    ensures
        match descriptor_field_refusal(field, value@, maximum) {
            Some(e) => checked == Err::<(), ToolDescriptorError>(e),
            None => checked is Ok,
        },
{
    if value.is_empty() {
        return Err(ToolDescriptorError::Empty { field });
    }
    let bytes = value.as_bytes().len();
    if bytes > maximum {
        return Err(ToolDescriptorError::TooLong { field, maximum, actual: bytes });
    }
    Ok(())
}

/// A bounded key whose calls may not overlap.
#[derive(Clone, PartialEq, Eq)]
pub struct ToolResourceKey(String);

impl View for ToolResourceKey {
    type V = Seq<char>;

    closed spec fn view(&self) -> Seq<char> {
        self.0@
    }
}

impl ToolResourceKey {
    /// Takes one resource name.
    pub fn new(key: &str) -> (made: Result<Self, ToolDescriptorError>)
        ensures
            match descriptor_field_refusal("tool resource key", key@, TOOL_RESOURCE_KEY_BYTES) {
                Some(e) => made matches Err(refusal) && refusal == e,
                None => made matches Ok(k) && k@ == key@,
            },
    {
        match bounded("tool resource key", key, TOOL_RESOURCE_KEY_BYTES) {
            Err(e) => Err(e),
            Ok(()) => Ok(Self(key.to_owned())),
        }
    }

    /// The exact resource name.
    pub fn as_str(&self) -> (key: &str)
        ensures
            key@ == self@,
    {
        self.0.as_str()
    }
}

/// Whether and with what other calls one invocation may execute.
#[derive(Clone, PartialEq, Eq)]
pub enum ToolExecutionMode {
    /// A barrier: every preceding call finishes before this starts, and every
    /// following call waits for it.
    Sequential,
    /// May overlap other admitted parallel work within the run ceiling.
    Parallel,
    /// May overlap except with another call holding the same key.
    Exclusive(ToolResourceKey),
}

/// The bytes an execution mode keeps alive: its key, where it has one.
pub open spec fn execution_bytes(mode: ToolExecutionMode) -> int {
    match mode {
        ToolExecutionMode::Exclusive(key) => byte_len(key@),
        _ => 0,
    }
}

/// Static, owned configuration for one tool executor.
#[derive(Clone, PartialEq, Eq)]
pub struct ToolDescriptor {
    name: String,
    schema: String,
    provenance: Provenance,
    execution: ToolExecutionMode,
    timeout: Option<Duration>,
    result_bytes: Option<usize>,
}

/// The content of a [`ToolDescriptor`].
pub struct ToolDescriptorView {
    pub name: Seq<char>,
    pub schema: Seq<char>,
    pub provenance: ProvenanceView,
    pub execution: ToolExecutionMode,
    pub timeout: Option<Duration>,
    pub result_bytes: Option<usize>,
}

impl View for ToolDescriptor {
    type V = ToolDescriptorView;

    closed spec fn view(&self) -> ToolDescriptorView {
        ToolDescriptorView {
            name: self.name@,
            schema: self.schema@,
            provenance: self.provenance@,
            execution: self.execution,
            timeout: self.timeout,
            result_bytes: self.result_bytes,
        }
    }
}

/// What every descriptor satisfies: a bounded, non-empty name and schema,
/// and a result ceiling, where one is set, that can always state elision.
pub open spec fn descriptor_bounded(d: ToolDescriptorView) -> bool {
    &&& 0 < d.name.len() && byte_len(d.name) <= TOOL_NAME_BYTES
    &&& 0 < d.schema.len() && byte_len(d.schema) <= TOOL_SCHEMA_BYTES
    &&& d.result_bytes matches Some(bytes) ==> bytes >= TOOL_RESULT_MIN_BYTES
}

/// The bytes a descriptor keeps alive, held at the top of `usize`.
pub open spec fn descriptor_bytes(d: ToolDescriptorView) -> int {
    capped(
        byte_len(d.name) + byte_len(d.schema) + byte_len(d.provenance.id) + byte_len(
            d.provenance.label,
        ) + execution_bytes(d.execution),
    )
}

impl ToolDescriptor {
    /// Builds the smallest descriptor, executing sequentially with no
    /// descriptor-local timeout or result ceiling.
    pub fn new(name: &str, schema: &str, provenance: Provenance) -> (made: Result<
        Self,
        ToolDescriptorError,
    >)
        ensures
            match descriptor_field_refusal("tool name", name@, TOOL_NAME_BYTES) {
                Some(e) => made matches Err(refusal) && refusal == e,
                None => match descriptor_field_refusal("tool schema", schema@, TOOL_SCHEMA_BYTES) {
                    Some(e) => made matches Err(refusal) && refusal == e,
                    None => made matches Ok(d) && d@ == (ToolDescriptorView {
                        name: name@,
                        schema: schema@,
                        provenance: provenance@,
                        execution: ToolExecutionMode::Sequential,
                        timeout: None,
                        result_bytes: None,
                    }),
                },
            },
            made matches Ok(d) ==> descriptor_bounded(d@),
    {
        if let Err(e) = bounded("tool name", name, TOOL_NAME_BYTES) {
            return Err(e);
        }
        if let Err(e) = bounded("tool schema", schema, TOOL_SCHEMA_BYTES) {
            return Err(e);
        }
        Ok(
            Self {
                name: name.to_owned(),
                schema: schema.to_owned(),
                provenance,
                execution: ToolExecutionMode::Sequential,
                timeout: None,
                result_bytes: None,
            },
        )
    }

    /// Sets the call scheduling mode.
    pub fn executing(self, execution: ToolExecutionMode) -> (d: Self)
        ensures
            d@ == (ToolDescriptorView { execution, ..self@ }),
            descriptor_bounded(self@) ==> descriptor_bounded(d@),
    {
        let mut d = self;
        d.execution = execution;
        d
    }

    /// Applies a cooperative per-call timeout; a zero interval is refused.
    pub fn timing_out_after(self, timeout: Duration) -> (d: Result<Self, ToolDescriptorError>)
        ensures
            duration_nanos(timeout) == 0 ==> (d matches Err(e) && e == ToolDescriptorError::ZeroTimeout),
            duration_nanos(timeout) > 0 ==> (d matches Ok(v) && v@ == (ToolDescriptorView {
                timeout: Some(timeout),
                ..self@
            })),
            d matches Ok(v) ==> (descriptor_bounded(self@) ==> descriptor_bounded(v@)),
    {
        if nanos_of(&timeout) == 0 {
            return Err(ToolDescriptorError::ZeroTimeout);
        }
        let mut d = self;
        d.timeout = Some(timeout);
        Ok(d)
    }

    /// Applies a descriptor-local retained-result ceiling, refused where it
    /// could not hold the elision note every bounded result promises.
    pub fn limiting_result_to(self, bytes: usize) -> (d: Result<Self, ToolDescriptorError>)
        ensures
            bytes < TOOL_RESULT_MIN_BYTES ==> (d matches Err(e) && e
                == (ToolDescriptorError::ResultBytesTooSmall {
                minimum: TOOL_RESULT_MIN_BYTES,
                actual: bytes,
            })),
            bytes >= TOOL_RESULT_MIN_BYTES ==> (d matches Ok(v) && v@ == (ToolDescriptorView {
                result_bytes: Some(bytes),
                ..self@
            })),
            d matches Ok(v) ==> (descriptor_bounded(self@) ==> descriptor_bounded(v@)),
    {
        if bytes < TOOL_RESULT_MIN_BYTES {
            return Err(
                ToolDescriptorError::ResultBytesTooSmall { minimum: TOOL_RESULT_MIN_BYTES, actual: bytes },
            );
        }
        let mut d = self;
        d.result_bytes = Some(bytes);
        Ok(d)
    }

    /// The exact provider-visible name.
    pub fn name(&self) -> (name: &str)
        ensures
            name@ == self@.name,
    {
        self.name.as_str()
    }

    /// The exact raw schema the provider adapter projects.
    pub fn schema(&self) -> (schema: &str)
        ensures
            schema@ == self@.schema,
    {
        self.schema.as_str()
    }

    /// Where this registration came from.
    pub fn provenance(&self) -> (provenance: &Provenance)
        ensures
            provenance@ == self@.provenance,
    {
        &self.provenance
    }

    /// How calls may overlap.
    pub fn execution(&self) -> (execution: &ToolExecutionMode)
        ensures
            *execution == self@.execution,
    {
        &self.execution
    }

    /// Its cooperative timeout, where one was set.
    pub fn timeout(&self) -> (timeout: Option<Duration>)
        ensures
            timeout == self@.timeout,
    {
        self.timeout
    }

    /// Its retained-result ceiling, where one was set.
    pub fn result_bytes(&self) -> (bytes: Option<usize>)
        ensures
            bytes == self@.result_bytes,
    {
        self.result_bytes
    }

    /// The bytes this descriptor keeps alive, for a roster's ceiling.
    pub fn retained_bytes(&self) -> (bytes: usize)
        ensures
            bytes == descriptor_bytes(self@),
    {
        let key = match &self.execution {
            ToolExecutionMode::Exclusive(key) => key.as_str().as_bytes().len(),
            ToolExecutionMode::Sequential => 0,
            ToolExecutionMode::Parallel => 0,
        };
        self.name.as_str().as_bytes().len().saturating_add(self.schema.as_str().as_bytes().len()).saturating_add(
            self.provenance.retained_bytes(),
        ).saturating_add(key)
    }

    /// The borrowed projection a provider serializes.
    pub fn advertised(&self) -> (schema: ToolSchema<'_>)
        ensures
            schema.name@ == self@.name,
            schema.schema@ == self@.schema,
    {
        ToolSchema { name: self.name.as_str(), schema: self.schema.as_str() }
    }
}

/// Equality identity and model-visible label for one materialized roster.
///
/// Each generation is minted with a fresh version-7 identifier, and two
/// generations are equal exactly when they carry the same label: a clone of
/// a snapshot shares its generation. Where no identifier can be minted (the
/// clock reads before 1970, or the system has no randomness to give) the
/// label is empty, and such generations cannot be told apart.
#[derive(Clone, PartialEq, Eq)]
pub struct ToolGeneration {
    context: String,
}

impl View for ToolGeneration {
    type V = Seq<char>;

    closed spec fn view(&self) -> Seq<char> {
        self.context@
    }
}

impl ToolGeneration {
    fn new() -> (generation: Self)
        ensures
            generation@.len() == 0 || (generation@.len() == 36 && canonical_v7(generation@)),
    {
        let context = match crate::prompt_cache::resource::mint_uuid_v7() {
            Some(context) => context,
            None => String::new(),
        };
        Self { context }
    }

    /// The opaque label safe for the model-visible tool advertisement.
    pub fn context_id(&self) -> (label: &str)
        ensures
            label@ == self@,
    {
        self.context.as_str()
    }

    fn copy(&self) -> (copied: Self)
        ensures
            copied@ == self@,
    {
        Self { context: self.context.clone() }
    }
}

/// The closed final state recorded for one tool invocation.
#[derive(Debug, Clone, Copy, PartialEq, Eq, Structural)]
pub enum ToolOutcome {
    /// The executor returned a successful result.
    Succeeded,
    /// The executor or one of its pipeline stages failed.
    Failed,
    /// Standing permission policy forbade the call.
    Forbidden,
    /// The user refused the call.
    Refused,
    /// The run was cancelled before the call could finish.
    Cancelled,
    /// The descriptor's cooperative deadline elapsed.
    TimedOut,
    /// The call was invalid, unknown, or stale before effects.
    Rejected,
    /// An earlier call ended the turn before this call could run.
    NotRun,
    /// The per-turn retained-output allowance was exhausted.
    OutputLimit,
    /// The executor panicked and was contained by the scheduler.
    Panicked,
}

/// Bounded audit and usage evidence emitted with one final result.
#[derive(Clone)]
pub struct ToolReceipt {
    generation: ToolGeneration,
    source: Option<SourceReceipt>,
    input_bytes: usize,
    output: ToolOutputRetention,
    outcome: ToolOutcome,
}

/// The content of a [`ToolReceipt`].
pub struct ToolReceiptView {
    pub generation: Seq<char>,
    pub source: Option<ReceiptView>,
    pub input_bytes: usize,
    pub output: (usize, usize, usize),
    pub outcome: ToolOutcome,
}

impl View for ToolReceipt {
    type V = ToolReceiptView;

    closed spec fn view(&self) -> ToolReceiptView {
        ToolReceiptView {
            generation: self.generation@,
            source: match self.source {
                Some(r) => Some(r@),
                None => None,
            },
            input_bytes: self.input_bytes,
            output: self.output@,
            outcome: self.outcome,
        }
    }
}

impl ToolReceipt {
    /// Records the exact generation, safe source, retained sizes, and outcome.
    pub fn new(
        generation: ToolGeneration,
        source: Option<SourceReceipt>,
        input_bytes: usize,
        output: ToolOutputRetention,
        outcome: ToolOutcome,
    ) -> (receipt: Self)
        ensures
            receipt@ == (ToolReceiptView {
                generation: generation@,
                source: match source {
                    Some(r) => Some(r@),
                    None => None,
                },
                input_bytes,
                output: output@,
                outcome,
            }),
    {
        Self { generation, source, input_bytes, output, outcome }
    }

    /// The immutable roster this call was answered against.
    pub fn generation(&self) -> (generation: &ToolGeneration)
        ensures
            generation@ == self@.generation,
    {
        &self.generation
    }

    /// The non-sensitive registration source, where the name resolved.
    pub fn source(&self) -> (source: Option<&SourceReceipt>)
        ensures
            source matches Some(r) ==> self@.source == Some(r@),
            source is None ==> self@.source is None,
    {
        match &self.source {
            Some(r) => Some(r),
            None => None,
        }
    }

    /// Bytes in the final arguments authorized for execution.
    pub fn input_bytes(&self) -> (bytes: usize)
        ensures
            bytes == self@.input_bytes,
    {
        self.input_bytes
    }

    /// Encoded output sizes before and after the per-result limiter.
    pub fn output(&self) -> (output: ToolOutputRetention)
        ensures
            output@ == self@.output,
    {
        self.output
    }

    /// The one closed final state.
    pub fn outcome(&self) -> (outcome: ToolOutcome)
        ensures
            outcome == self@.outcome,
    {
        self.outcome
    }
}

/// Why a roster could not be registered or materialized.

pub enum ToolsetError {
    /// One descriptor was not bounded or usable.
    Descriptor(ToolDescriptorError),
    /// One registration's source could not be described.
    Provenance(ProvenanceError),
    /// A live source could not be started, read, or released.
    Source {
        /// Which source, by the stable spelling its provenance carries.
        id: String,
        /// What went wrong, in the words the source's own failure used.
        problem: String,
    },
    /// Two distinct registrations answer to one provider-visible name.
    Duplicate {
        /// The colliding name.
        name: String,
        /// The registration already present.
        first: Provenance,
        /// The registration that was refused.
        second: Provenance,
    },
    /// A snapshot held too many tools.
    Entries {
        /// The ceiling.
        maximum: usize,
        /// The requested count.
        actual: usize,
    },
    /// Aggregate descriptor data crossed its boundary.
    Bytes {
        /// The ceiling.
        maximum: usize,
        /// The requested bytes.
        actual: usize,
    },
    /// The tool registry refused a transaction for a reason of its own.
    Registry(RegistryError),
}

/// The sentence a toolset refusal reads as.
pub open spec fn toolset_error_text(error: ToolsetError) -> Seq<char> {
    match error {
        ToolsetError::Descriptor(e) => descriptor_error_text(e),
        ToolsetError::Provenance(e) => provenance_error_text(e),
        ToolsetError::Source { id, problem } => "tool source "@ + id@ + ": "@ + problem@,
        ToolsetError::Duplicate { name, first, second } => "tool "@ + name@
            + " is registered by both "@ + provenance_text(first@) + " and "@ + provenance_text(
            second@,
        ),
        ToolsetError::Entries { maximum, actual } => "a tool snapshot has "@ + decimal(
            actual as nat,
        ) + " entries; the maximum is "@ + decimal(maximum as nat),
        ToolsetError::Bytes { maximum, actual } => "a tool snapshot retains "@ + decimal(
            actual as nat,
        ) + " descriptor bytes; the maximum is "@ + decimal(maximum as nat),
        ToolsetError::Registry(e) => "the tool registry refused the change: "@
            + registry_error_text(e@),
    }
}

impl ToolsetError {
    /// The diagnostic sentence.
    pub fn message(&self) -> (text: String)
        ensures
            text@ == toolset_error_text(*self),
    {
        match self {
            Self::Descriptor(error) => error.message(),
            Self::Provenance(error) => error.message(),
            Self::Source { id, problem } => {
                let head = joined(joined("tool source ".to_owned(), id.as_str()), ": ");
                joined(head, problem.as_str())
            },
            Self::Duplicate { name, first, second } => {
                let head = joined(joined("tool ".to_owned(), name.as_str()), " is registered by both ");
                let head = joined(joined(head, first.text().as_str()), " and ");
                joined(head, second.text().as_str())
            },
            Self::Entries { maximum, actual } => {
                let head = joined("a tool snapshot has ".to_owned(), decimal_text(*actual as u64).as_str());
                joined(joined(head, " entries; the maximum is "), decimal_text(*maximum as u64).as_str())
            },
            Self::Bytes { maximum, actual } => {
                let head = joined("a tool snapshot retains ".to_owned(), decimal_text(*actual as u64).as_str());
                joined(joined(head, " descriptor bytes; the maximum is "), decimal_text(*maximum as u64).as_str())
            },
            Self::Registry(error) => joined(
                "the tool registry refused the change: ".to_owned(),
                error.message().as_str(),
            ),
        }
    }
}

/// The toolset refusal a registry refusal becomes: the four the two share
/// keep their shape, and the registry's own are carried whole.
pub open spec fn toolset_error_from_registry(error: RegistryError) -> ToolsetError {
    match error {
        RegistryError::Provenance(e) => ToolsetError::Provenance(e),
        RegistryError::Duplicate { id, first, second } => ToolsetError::Duplicate {
            name: id,
            first,
            second,
        },
        RegistryError::Entries { maximum, actual } => ToolsetError::Entries { maximum, actual },
        RegistryError::Bytes { maximum, actual } => ToolsetError::Bytes { maximum, actual },
        RegistryError::Unknown { id } => ToolsetError::Registry(RegistryError::Unknown { id }),
        RegistryError::Superseded => ToolsetError::Registry(RegistryError::Superseded),
        RegistryError::Stale => ToolsetError::Registry(RegistryError::Stale),
    }
}

impl From<RegistryError> for ToolsetError {
    fn from(error: RegistryError) -> (converted: Self) {
        match error {
            RegistryError::Provenance(e) => Self::Provenance(e),
            RegistryError::Duplicate { id, first, second } => Self::Duplicate {
                name: id,
                first,
                second,
            },
            RegistryError::Entries { maximum, actual } => Self::Entries { maximum, actual },
            RegistryError::Bytes { maximum, actual } => Self::Bytes { maximum, actual },
            RegistryError::Unknown { id } => Self::Registry(RegistryError::Unknown { id }),
            RegistryError::Superseded => Self::Registry(RegistryError::Superseded),
            RegistryError::Stale => Self::Registry(RegistryError::Stale),
        }
    }
}

impl vstd::std_specs::convert::FromSpecImpl<RegistryError> for ToolsetError {
    open spec fn obeys_from_spec() -> bool {
        true
    }

    open spec fn from_spec(v: RegistryError) -> Self {
        toolset_error_from_registry(v)
    }
}

/// The contents of a sequence of descriptors.
pub open spec fn descriptor_views(ds: Seq<ToolDescriptor>) -> Seq<ToolDescriptorView> {
    Seq::new(ds.len(), |i: int| ds[i]@)
}

/// What the first `n` descriptors keep alive together, held at the top of
/// `usize` as a running saturating sum is.
pub open spec fn roster_bytes(ds: Seq<ToolDescriptorView>, n: int) -> int
    decreases n,
{
    if n <= 0 {
        0
    } else {
        capped(roster_bytes(ds, n - 1) + descriptor_bytes(ds[n - 1]))
    }
}

/// Whether two names are one name to a permission rule, which reads names
/// without ASCII case.
pub open spec fn reads_alike(a: Seq<char>, b: Seq<char>) -> bool {
    ascii_lowercase(a) == ascii_lowercase(b)
}

/// `j` is the first descriptor before `i` whose name reads like `i`'s.
pub open spec fn first_alike(ds: Seq<ToolDescriptorView>, i: int, j: int) -> bool {
    &&& 0 <= j < i
    &&& reads_alike(ds[j].name, ds[i].name)
    &&& forall|k: int| 0 <= k < j ==> !reads_alike(#[trigger] ds[k].name, ds[i].name)
}

/// The first earlier descriptor whose name reads like the `i`th's, if any.
pub open spec fn earlier_alike(ds: Seq<ToolDescriptorView>, i: int) -> Option<int> {
    if exists|j: int| first_alike(ds, i, j) {
        Some(choose|j: int| first_alike(ds, i, j))
    } else {
        None
    }
}

/// The first reason, from the `i`th descriptor on, that a roster is refused:
/// the index where the running total first crosses the byte ceiling
/// (`None` beside it), or where a name first reads like an earlier one
/// (the earlier index beside it).
pub open spec fn roster_refusal(ds: Seq<ToolDescriptorView>, i: int) -> Option<(int, Option<int>)>
    decreases ds.len() - i,
{
    if i < 0 || i >= ds.len() {
        None
    } else if roster_bytes(ds, i + 1) > TOOL_SNAPSHOT_BYTES {
        Some((i, None))
    } else if earlier_alike(ds, i) is Some {
        Some((i, earlier_alike(ds, i)))
    } else {
        roster_refusal(ds, i + 1)
    }
}

/// The content of a [`ToolAdmission`].
pub struct AdmissionView {
    pub generation: Seq<char>,
    pub index: usize,
    pub id: Seq<char>,
    pub name: Seq<char>,
    pub args: Seq<char>,
}

/// A name admitted from one exact immutable generation.
///
/// Made only by [`ToolSnapshot::admit_call`]. It is not an executor handle:
/// resolving it through a snapshot rechecks the generation first.
#[derive(Clone)]
pub struct ToolAdmission {
    generation: ToolGeneration,
    index: usize,
    id: String,
    name: String,
    args: String,
}

impl View for ToolAdmission {
    type V = AdmissionView;

    closed spec fn view(&self) -> AdmissionView {
        AdmissionView {
            generation: self.generation@,
            index: self.index,
            id: self.id@,
            name: self.name@,
            args: self.args@,
        }
    }
}

impl ToolAdmission {
    /// The generation permission approval must remain bound to.
    pub fn generation(&self) -> (generation: &ToolGeneration)
        ensures
            generation@ == self@.generation,
    {
        &self.generation
    }

    /// The exact admitted provider-visible name.
    pub fn name(&self) -> (name: &str)
        ensures
            name@ == self@.name,
    {
        self.name.as_str()
    }
}

/// The first of a call's identifier, name and arguments that crosses its
/// bound, with the bound and the call's byte count: an identifier or a name
/// must be non-empty, arguments may be empty.
pub open spec fn call_field_refusal(call: CallPart) -> Option<(Seq<char>, usize, usize)> {
    if call.id.len() == 0 || call.id.len() > TOOL_CALL_ID_BYTES {
        Some(("identifier"@, TOOL_CALL_ID_BYTES, call.id.len()))
    } else if call.name.len() == 0 || call.name.len() > TOOL_NAME_BYTES {
        Some(("name"@, TOOL_NAME_BYTES, call.name.len()))
    } else if call.args.len() > TOOL_ARGUMENT_BYTES {
        Some(("arguments"@, TOOL_ARGUMENT_BYTES, call.args.len()))
    } else {
        None
    }
}

/// Whether entry `i` is the first named exactly `name`.
pub open spec fn first_named(entries: Seq<ToolDescriptorView>, name: Seq<char>, i: int) -> bool {
    &&& 0 <= i < entries.len()
    &&& entries[i].name == name
    &&& forall|k: int| 0 <= k < i ==> #[trigger] entries[k].name != name
}

/// Whether an admission resolves through a snapshot: minted by its generation
/// and still naming the entry at its position.
pub open spec fn resolves_in(snapshot: ToolSnapshotView, admission: AdmissionView) -> bool {
    &&& admission.generation == snapshot.generation
    &&& admission.index < snapshot.entries.len()
    &&& snapshot.entries[admission.index as int].name == admission.name
}

/// Checks one bounded call field.
fn call_bound(field: &'static str, value: &str, maximum: usize) -> (checked: Result<(), ToolError>)
    ensures
        checked is Ok <==> (value.len() != 0 && value.len() <= maximum),
        checked matches Err(e) ==> (e matches ToolError::InvalidCall { field: f, maximum: m, actual: a } && f@
            == field@ && m == maximum && a == value.len()),
{
    if value.len() == 0 || value.len() > maximum {
        return Err(ToolError::InvalidCall { field, maximum, actual: value.len() });
    }
    Ok(())
}

/// One immutable, provider-ordered set of visible and reachable tools.
#[derive(Clone)]
pub struct ToolSnapshot {
    generation: ToolGeneration,
    entries: Vec<ToolDescriptor>,
}

/// The content of a [`ToolSnapshot`].
pub struct ToolSnapshotView {
    pub generation: Seq<char>,
    pub entries: Seq<ToolDescriptorView>,
}

impl View for ToolSnapshot {
    type V = ToolSnapshotView;

    closed spec fn view(&self) -> ToolSnapshotView {
        ToolSnapshotView { generation: self.generation@, entries: descriptor_views(self.entries@) }
    }
}

impl ToolSnapshot {
    /// An empty generation.
    pub fn empty() -> (snapshot: Self)
        ensures
            snapshot@.entries.len() == 0,
            snapshot@.generation.len() == 0 || (snapshot@.generation.len() == 36 && canonical_v7(
                snapshot@.generation,
            )),
    {
        let snapshot = Self { generation: ToolGeneration::new(), entries: Vec::new() };
        assert(snapshot@.entries =~= Seq::<ToolDescriptorView>::empty());
        snapshot
    }

    /// Materializes one bounded generation: refused where it holds too many
    /// descriptors, where their running total crosses the byte ceiling, or
    /// where a name reads, without ASCII case, like an earlier one.
    pub fn new(entries: Vec<ToolDescriptor>) -> (made: Result<Self, ToolsetError>)
        ensures
            ({
                let ds = descriptor_views(entries@);
                &&& ds.len() > TOOL_SNAPSHOT_ENTRIES ==> (made matches Err(
                    ToolsetError::Entries { maximum, actual },
                ) && maximum == TOOL_SNAPSHOT_ENTRIES && actual == ds.len())
                &&& ds.len() <= TOOL_SNAPSHOT_ENTRIES ==> match roster_refusal(ds, 0) {
                    None => made matches Ok(snapshot) && snapshot@.entries == ds,
                    Some((at, None)) => made matches Err(ToolsetError::Bytes { maximum, actual })
                        && maximum == TOOL_SNAPSHOT_BYTES && actual == roster_bytes(ds, at + 1),
                    Some((at, Some(j))) => made matches Err(
                        ToolsetError::Duplicate { name, first, second },
                    ) && name@ == ds[at].name && first@ == ds[j].provenance && second@
                        == ds[at].provenance,
                }
            }),
    {
        if entries.len() > TOOL_SNAPSHOT_ENTRIES {
            return Err(ToolsetError::Entries { maximum: TOOL_SNAPSHOT_ENTRIES, actual: entries.len() });
        }
        let ghost ds = descriptor_views(entries@);
        let mut retained: usize = 0;
        let mut at: usize = 0;
        while at < entries.len()
            invariant
                ds == descriptor_views(entries@),
                ds.len() <= TOOL_SNAPSHOT_ENTRIES,
                at <= entries@.len(),
                retained == roster_bytes(ds, at as int),
                roster_refusal(ds, 0) == roster_refusal(ds, at as int),
            decreases entries@.len() - at,
        {
            retained = retained.saturating_add(entries[at].retained_bytes());
            assert(ds[at as int] == entries@[at as int]@);
            if retained > TOOL_SNAPSHOT_BYTES {
                return Err(ToolsetError::Bytes { maximum: TOOL_SNAPSHOT_BYTES, actual: retained });
            }
            let mut first: usize = 0;
            while first < at
                invariant
                    ds == descriptor_views(entries@),
                    first <= at < entries@.len(),
                    ds.len() <= TOOL_SNAPSHOT_ENTRIES,
                    retained == roster_bytes(ds, at as int + 1),
                    retained <= TOOL_SNAPSHOT_BYTES,
                    roster_refusal(ds, 0) == roster_refusal(ds, at as int),
                    forall|k: int| 0 <= k < first ==> !reads_alike(#[trigger] ds[k].name, ds[at as int].name),
                decreases at - first,
            {
                if same_ignoring_ascii_case(entries[first].name(), entries[at].name()) {
                    proof {
                        let i = at as int;
                        let j = first as int;
                        assert(first_alike(ds, i, j));
                        let c = choose|c: int| first_alike(ds, i, c);
                        assert(first_alike(ds, i, c));
                        if c < j {
                            assert(!reads_alike(ds[c].name, ds[i].name));
                        } else if j < c {
                            assert(!reads_alike(ds[j].name, ds[i].name));
                        }
                        assert(earlier_alike(ds, i) == Some(j));
                    }
                    return Err(
                        ToolsetError::Duplicate {
                            name: entries[at].name().to_owned(),
                            first: entries[first].provenance().copy(),
                            second: entries[at].provenance().copy(),
                        },
                    );
                }
                first = first + 1;
            }
            proof {
                let i = at as int;
                assert forall|j: int| !first_alike(ds, i, j) by {
                    if 0 <= j < i {
                        assert(!reads_alike(ds[j].name, ds[i].name));
                    }
                }
                assert(earlier_alike(ds, i) is None);
            }
            at = at + 1;
        }
        Ok(Self { generation: ToolGeneration::new(), entries })
    }

    /// Which exact materialization this is.
    pub fn generation(&self) -> (generation: &ToolGeneration)
        ensures
            generation@ == self@.generation,
    {
        &self.generation
    }

    /// The first entry named exactly `name`.
    pub fn find(&self, name: &str) -> (found: Option<&ToolDescriptor>)
        ensures
            found is None ==> forall|i: int|
                0 <= i < self@.entries.len() ==> #[trigger] self@.entries[i].name != name@,
            found matches Some(d) ==> exists|i: int|
                0 <= i < self@.entries.len() && #[trigger] self@.entries[i] == d@ && d@.name
                    == name@ && forall|k: int|
                    0 <= k < i ==> #[trigger] self@.entries[k].name != name@,
    {
        let mut i: usize = 0;
        while i < self.entries.len()
            invariant
                i <= self.entries@.len(),
                forall|k: int| 0 <= k < i ==> #[trigger] self@.entries[k].name != name@,
            decreases self.entries@.len() - i,
        {
            if same_text(self.entries[i].name(), name) {
                assert(self@.entries[i as int] == self.entries@[i as int]@);
                return Some(&self.entries[i]);
            }
            assert(self@.entries[i as int] == self.entries@[i as int]@);
            i = i + 1;
        }
        None
    }

    /// Validates and admits one call from this generation: refused where a
    /// retained field crosses its bound, or, as unknown, where no entry of
    /// this generation has the call's name.
    pub fn admit_call(&self, call: &CallPart) -> (admitted: Result<ToolAdmission, ToolError>)
        ensures
            admitted is Ok <==> (call_field_refusal(*call) is None && exists|i: int|
                0 <= i < self@.entries.len() && #[trigger] self@.entries[i].name == call.name@),
            admitted matches Err(e) ==> match call_field_refusal(*call) {
                Some(refusal) => e matches ToolError::InvalidCall { field, maximum, actual }
                    && field@ == refusal.0 && maximum == refusal.1 && actual == refusal.2,
                None => e matches ToolError::Unknown(name) && name@ == call.name@,
            },
            admitted matches Ok(a) ==> {
                &&& a@.generation == self@.generation
                &&& first_named(self@.entries, call.name@, a@.index as int)
                &&& a@.id == call.id@
                &&& a@.name == call.name@
                &&& a@.args == call.args@
            },
    {
        if let Err(e) = call_bound("identifier", call.id, TOOL_CALL_ID_BYTES) {
            return Err(e);
        }
        if let Err(e) = call_bound("name", call.name, TOOL_NAME_BYTES) {
            return Err(e);
        }
        if call.args.len() > TOOL_ARGUMENT_BYTES {
            return Err(
                ToolError::InvalidCall {
                    field: "arguments",
                    maximum: TOOL_ARGUMENT_BYTES,
                    actual: call.args.len(),
                },
            );
        }
        let mut i: usize = 0;
        while i < self.entries.len()
            invariant
                i <= self.entries@.len(),
                forall|k: int| 0 <= k < i ==> #[trigger] self@.entries[k].name != call.name@,
                call_field_refusal(*call) is None,
            decreases self.entries@.len() - i,
        {
            assert(self@.entries[i as int] == self.entries@[i as int]@);
            if same_text(self.entries[i].name(), call.name) {
                assert(self@.entries[i as int].name == call.name@);
                return Ok(
                    ToolAdmission {
                        generation: self.generation.copy(),
                        index: i,
                        id: call.id.to_owned(),
                        name: call.name.to_owned(),
                        args: call.args.to_owned(),
                    },
                );
            }
            i = i + 1;
        }
        Err(ToolError::Unknown(call.name.to_owned()))
    }

    /// Resolves an admission only through the generation that minted it:
    /// refused as stale for another generation or a position that no longer
    /// holds the admitted name.
    pub fn resolve(&self, admission: &ToolAdmission) -> (resolved: Result<&ToolDescriptor, ToolError>)
        ensures
            resolved is Ok <==> resolves_in(self@, admission@),
            resolved matches Ok(d) ==> d@ == self@.entries[admission@.index as int],
            resolved matches Err(e) ==> e matches ToolError::StaleGeneration { tool } && tool@
                == admission@.name,
    {
        if !same_text(admission.generation.context_id(), self.generation.context_id()) {
            return Err(ToolError::StaleGeneration { tool: admission.name.clone() });
        }
        if admission.index < self.entries.len() {
            assert(self@.entries[admission.index as int] == self.entries@[admission.index as int]@);
            if same_text(self.entries[admission.index].name(), admission.name.as_str()) {
                return Ok(&self.entries[admission.index]);
            }
        }
        Err(ToolError::StaleGeneration { tool: admission.name.clone() })
    }

    /// The provider projections, in materialized order.
    pub fn advertised(&self) -> (schemas: Vec<ToolSchema<'_>>)
        ensures
            schemas@.len() == self@.entries.len(),
            forall|i: int|
                0 <= i < schemas@.len() ==> #[trigger] schemas@[i].name@ == self@.entries[i].name
                    && schemas@[i].schema@ == self@.entries[i].schema,
    {
        let mut schemas: Vec<ToolSchema<'_>> = Vec::new();
        let mut i: usize = 0;
        while i < self.entries.len()
            invariant
                i <= self.entries@.len(),
                schemas@.len() == i,
                forall|k: int|
                    0 <= k < i ==> #[trigger] schemas@[k].name@ == self@.entries[k].name
                        && schemas@[k].schema@ == self@.entries[k].schema,
            decreases self.entries@.len() - i,
        {
            schemas.push(self.entries[i].advertised());
            i = i + 1;
        }
        schemas
    }

    /// The entries in provider order.
    pub fn entries(&self) -> (entries: &[ToolDescriptor])
        ensures
            descriptor_views(entries@) == self@.entries,
    {
        self.entries.as_slice()
    }
}

impl Default for ToolSnapshot {
    fn default() -> (snapshot: Self)
        ensures
            snapshot@.entries.len() == 0,
            snapshot@.generation.len() == 0 || (snapshot@.generation.len() == 36 && canonical_v7(
                snapshot@.generation,
            )),
    {
        Self::empty()
    }
}

/// A roster that was materialized holds no two names a case-blind permission
/// rule reads as one, and its descriptors' running total never crosses the
/// byte ceiling.
pub proof fn lemma_materialized_roster_is_unambiguous(ds: Seq<ToolDescriptorView>, from: int)
    requires
        0 <= from <= ds.len(),
        roster_refusal(ds, from) is None,
    ensures
        forall|i: int| from <= i < ds.len() ==> #[trigger] roster_bytes(ds, i + 1) <= TOOL_SNAPSHOT_BYTES,
        forall|i: int, j: int|
            from <= i < ds.len() && 0 <= j < i ==> !reads_alike(#[trigger] ds[j].name, #[trigger] ds[i].name),
    decreases ds.len() - from,
{
    if from < ds.len() {
        lemma_materialized_roster_is_unambiguous(ds, from + 1);
        assert forall|j: int| 0 <= j < from implies !reads_alike(ds[j].name, ds[from].name) by {
            if reads_alike(ds[j].name, ds[from].name) {
                lemma_some_first_alike(ds, from, j);
            }
        }
    }
}

proof fn lemma_some_first_alike(ds: Seq<ToolDescriptorView>, i: int, j: int)
    requires
        0 <= j < i,
        reads_alike(ds[j].name, ds[i].name),
    ensures
        exists|c: int| first_alike(ds, i, c),
    decreases j,
{
    if forall|k: int| 0 <= k < j ==> !reads_alike(#[trigger] ds[k].name, ds[i].name) {
        assert(first_alike(ds, i, j));
    } else {
        let k = choose|k: int| 0 <= k < j && reads_alike(#[trigger] ds[k].name, ds[i].name);
        lemma_some_first_alike(ds, i, k);
    }
}


/// An admission resolves, to the entry it admitted, through the snapshot that
/// minted it, and through no snapshot of another generation.
pub proof fn lemma_admission_resolves_where_it_was_admitted(
    snapshot: ToolSnapshotView,
    admission: AdmissionView,
    other: ToolSnapshotView,
)
    requires
        admission.generation == snapshot.generation,
        first_named(snapshot.entries, admission.name, admission.index as int),
    ensures
        resolves_in(snapshot, admission),
        snapshot.entries[admission.index as int].name == admission.name,
        other.generation != snapshot.generation ==> !resolves_in(other, admission),
{
}

} // verus!
