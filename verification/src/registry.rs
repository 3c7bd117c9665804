//! Source-aware registries: what was contributed, by whom, and which record
//! answers to a name.
//!
//! A registry is read through immutable snapshots and written through staged
//! transactions. A [`Staged`] set is built up from the current generation, or
//! from nothing for a reload, validated record by record, and then committed as
//! one swap. Every snapshot is its own [`RegistryGeneration`]; a
//! [`RegistryHandle`] minted from one generation resolves only through that
//! generation and is refused as stale by every later one.

use std::sync::Arc;

use vstd::prelude::*;
use vstd::string::StringSliceAdditionalSpecFns;
use vstd::utf8::encode_utf8;

use crate::text::{decimal, decimal_text, joined, same_text};

verus! {

/// The most bytes in a stable, receipt-safe source identifier.
pub const SOURCE_ID_BYTES: usize = 256;

/// The most bytes in the diagnostic spelling of a source.
pub const SOURCE_LABEL_BYTES: usize = 4096;

/// The most records one registry generation retains.
pub const REGISTRY_ENTRIES: usize = 4096;

/// The aggregate retained bytes one registry generation may hold.
pub const REGISTRY_BYTES: usize = 16777216;

/// Where a registration came from.
#[derive(Debug, Clone, Copy, PartialEq, Eq, Structural)]
pub enum SourceKind {
    /// Compiled into this binary.
    Builtin,
    /// Supplied directly by the user.
    User,
    /// Supplied by a trusted project.
    Project,
    /// Contributed by an extension.
    Extension,
    /// Materialized from an MCP server.
    Mcp,
    /// Contributed by a skill.
    Skill,
    /// Local to an agent definition.
    Agent,
    /// A bounded source kind not covered above.
    Other,
}

/// The receipt spelling of a source kind.
pub open spec fn kind_word(kind: SourceKind) -> Seq<char> {
    match kind {
        SourceKind::Builtin => "builtin"@,
        SourceKind::User => "user"@,
        SourceKind::Project => "project"@,
        SourceKind::Extension => "extension"@,
        SourceKind::Mcp => "mcp"@,
        SourceKind::Skill => "skill"@,
        SourceKind::Agent => "agent"@,
        SourceKind::Other => "other"@,
    }
}

impl SourceKind {
    /// The receipt spelling.
    pub fn as_str(self) -> (word: &'static str)
        ensures
            word@ == kind_word(self),
    {
        match self {
            Self::Builtin => "builtin",
            Self::User => "user",
            Self::Project => "project",
            Self::Extension => "extension",
            Self::Mcp => "mcp",
            Self::Skill => "skill",
            Self::Agent => "agent",
            Self::Other => "other",
        }
    }
}

/// Why a source could not be described.
#[derive(Debug, Clone, PartialEq, Eq)]
pub enum ProvenanceError {
    /// A retained string was empty.
    Empty {
        /// Which field.
        field: &'static str,
    },
    /// A retained string crossed its boundary.
    TooLong {
        /// Which field.
        field: &'static str,
        /// Its boundary.
        maximum: usize,
        /// What was supplied.
        actual: usize,
    },
}

/// The sentence a provenance failure reads as.
pub open spec fn provenance_error_text(error: ProvenanceError) -> Seq<char> {
    match error {
        ProvenanceError::Empty { field } => field@ + " must not be empty"@,
        ProvenanceError::TooLong { field, maximum, actual } => field@ + " is "@ + decimal(
            actual as nat,
        ) + " bytes; the maximum is "@ + decimal(maximum as nat),
    }
}

impl ProvenanceError {
    /// The diagnostic sentence.
    pub fn message(&self) -> (text: String)
        ensures
            text@ == provenance_error_text(*self),
    {
        match self {
            Self::Empty { field } => joined((*field).to_owned(), " must not be empty"),
            Self::TooLong { field, maximum, actual } => {
                let head = joined(joined((*field).to_owned(), " is "), decimal_text(*actual as u64).as_str());
                joined(joined(head, " bytes; the maximum is "), decimal_text(*maximum as u64).as_str())
            },
        }
    }
}

/// Why a field is refused, if it is: empty, or longer than `maximum` bytes.
pub open spec fn field_refusal(field: &'static str, value: Seq<char>, maximum: usize) -> Option<
    ProvenanceError,
> {
    if value.len() == 0 {
        Some(ProvenanceError::Empty { field })
    } else if encode_utf8(value).len() > maximum {
        Some(ProvenanceError::TooLong { field, maximum, actual: encode_utf8(value).len() as usize })
    } else {
        None
    }
}

fn bounded(field: &'static str, value: &str, maximum: usize) -> (checked: Result<(), ProvenanceError>)
    ensures
        match checked {
            Ok(()) => field_refusal(field, value@, maximum) is None,
            Err(e) => field_refusal(field, value@, maximum) == Some(e),
        },
{
    if value.is_empty() {
        return Err(ProvenanceError::Empty { field });
    }
    let length = value.as_bytes().len();
    if length > maximum {
        return Err(ProvenanceError::TooLong { field, maximum, actual: length });
    }
    Ok(())
}

/// Why a provenance is refused, if it is: its id first, then its label.
pub open spec fn provenance_refusal(id: Seq<char>, label: Seq<char>) -> Option<ProvenanceError> {
    match field_refusal("source id", id, SOURCE_ID_BYTES) {
        Some(e) => Some(e),
        None => field_refusal("source label", label, SOURCE_LABEL_BYTES),
    }
}

/// The content of one provenance.
pub struct ProvenanceView {
    pub kind: SourceKind,
    pub id: Seq<char>,
    pub label: Seq<char>,
}

/// A registration's bounded source identity and its diagnostic spelling.
#[derive(Clone, PartialEq, Eq)]
pub struct Provenance {
    kind: SourceKind,
    id: String,
    label: String,
}

impl View for Provenance {
    type V = ProvenanceView;

    closed spec fn view(&self) -> ProvenanceView {
        ProvenanceView { kind: self.kind, id: self.id@, label: self.label@ }
    }
}

/// How a provenance reads in a wiring diagnostic: its label, then its kind and id.
pub open spec fn provenance_text(provenance: ProvenanceView) -> Seq<char> {
    provenance.label + " ["@ + kind_word(provenance.kind) + ":"@ + provenance.id + "]"@
}

impl Provenance {
    /// Builds one source record.
    ///
    /// `id` is the non-sensitive stable spelling allowed into audit receipts;
    /// `label` is the fuller text shown only in an explicit wiring diagnostic.
    pub fn new(kind: SourceKind, id: &str, label: &str) -> (made: Result<Self, ProvenanceError>)
        ensures
            match made {
                Ok(p) => provenance_refusal(id@, label@) is None && p@ == (ProvenanceView {
                    kind,
                    id: id@,
                    label: label@,
                }),
                Err(e) => provenance_refusal(id@, label@) == Some(e),
            },
    {
        match bounded("source id", id, SOURCE_ID_BYTES) {
            Ok(()) => {},
            Err(e) => {
                return Err(e);
            },
        }
        match bounded("source label", label, SOURCE_LABEL_BYTES) {
            Ok(()) => {},
            Err(e) => {
                return Err(e);
            },
        }
        Ok(Self { kind, id: id.to_owned(), label: label.to_owned() })
    }

    /// A tool compiled into this binary: `crucible:{name}`, labelled
    /// `built-in {name} tool`.
    pub fn builtin(name: &str) -> (made: Result<Self, ProvenanceError>)
        ensures
            match made {
                Ok(p) => provenance_refusal("crucible:"@ + name@, "built-in "@ + name@ + " tool"@)
                    is None && p@ == (ProvenanceView {
                    kind: SourceKind::Builtin,
                    id: "crucible:"@ + name@,
                    label: "built-in "@ + name@ + " tool"@,
                }),
                Err(e) => provenance_refusal("crucible:"@ + name@, "built-in "@ + name@ + " tool"@)
                    == Some(e),
            },
    {
        let id = joined("crucible:".to_owned(), name);
        let label = joined(joined("built-in ".to_owned(), name), " tool");
        Self::new(SourceKind::Builtin, id.as_str(), label.as_str())
    }

    /// The coarse source kind safe to retain in a receipt.
    pub fn kind(&self) -> (kind: SourceKind)
        ensures
            kind == self@.kind,
    {
        self.kind
    }

    /// The bounded non-sensitive identifier safe to retain in a receipt.
    pub fn id(&self) -> (id: &str)
        ensures
            id@ == self@.id,
    {
        self.id.as_str()
    }

    /// The full diagnostic spelling.
    pub fn label(&self) -> (label: &str)
        ensures
            label@ == self@.label,
    {
        self.label.as_str()
    }

    /// The part of this source safe to retain with an invocation event.
    pub fn receipt(&self) -> (receipt: SourceReceipt)
        ensures
            receipt@ == (ReceiptView { kind: self@.kind, id: self@.id }),
    {
        SourceReceipt { kind: self.kind, id: self.id.clone() }
    }

    /// The bytes this record keeps alive.
    pub fn retained_bytes(&self) -> (bytes: usize)
        ensures
            bytes == if encode_utf8(self@.id).len() + encode_utf8(self@.label).len() > usize::MAX {
                usize::MAX as int
            } else {
                (encode_utf8(self@.id).len() + encode_utf8(self@.label).len()) as int
            },
    {
        self.id.as_str().as_bytes().len().saturating_add(self.label.as_str().as_bytes().len())
    }

    /// How this source reads in a wiring diagnostic.
    pub fn text(&self) -> (text: String)
        ensures
            text@ == provenance_text(self@),
    {
        let head = joined(joined(self.label.clone(), " ["), self.kind.as_str());
        joined(joined(joined(head, ":"), self.id.as_str()), "]")
    }

    /// An exact copy.
    pub fn copy(&self) -> (copied: Self)
        ensures
            copied@ == self@,
    {
        Self { kind: self.kind, id: self.id.clone(), label: self.label.clone() }
    }
}

/// The content of one receipt.
pub struct ReceiptView {
    pub kind: SourceKind,
    pub id: Seq<char>,
}

/// The receipt-safe projection of a registration source.
#[derive(Debug, Clone, PartialEq, Eq)]
pub struct SourceReceipt {
    kind: SourceKind,
    id: String,
}

impl View for SourceReceipt {
    type V = ReceiptView;

    closed spec fn view(&self) -> ReceiptView {
        ReceiptView { kind: self.kind, id: self.id@ }
    }
}

impl SourceReceipt {
    /// The coarse source family.
    pub fn kind(&self) -> (kind: SourceKind)
        ensures
            kind == self@.kind,
    {
        self.kind
    }

    /// The bounded, non-sensitive source identifier.
    pub fn id(&self) -> (id: &str)
        ensures
            id@ == self@.id,
    {
        self.id.as_str()
    }
}

/// What a registry can hold: a record with a stable identifier, the
/// provenance collisions are decided from, and a retained size.
///
/// An implementation states in the three spec functions what its record
/// answers to, where it came from and what it keeps alive. One that does not
/// leaves them unspecified, and nothing is proved of its records.
pub trait Registered {
    /// The identifier a record answers to.
    closed spec fn spec_id(&self) -> Seq<char> {
        arbitrary()
    }

    /// Where a record came from.
    closed spec fn spec_provenance(&self) -> ProvenanceView {
        arbitrary()
    }

    /// The bytes a record keeps alive.
    closed spec fn spec_retained(&self) -> usize {
        arbitrary()
    }

    /// The stable identifier two contributions would collide on.
    fn id(&self) -> (id: &str)
        ensures
            id@ == self.spec_id(),
    ;

    /// Where this record came from.
    fn provenance(&self) -> (provenance: &Provenance)
        ensures
            provenance@ == self.spec_provenance(),
    ;

    /// The bytes this record keeps alive, for the generation's ceiling.
    fn retained_bytes(&self) -> (bytes: usize)
        ensures
            bytes == self.spec_retained(),
    ;
}

/// What a registry does when two records claim one identifier.
#[derive(Debug, Clone, Copy, PartialEq, Eq)]
pub enum Collision {
    /// The second registration is refused, naming both.
    Refuse,
    /// The record from the earlier-listed source kind keeps the identifier and
    /// the other is recorded as shadowed; two records of one kind, or of kinds
    /// the list leaves out, are refused.
    Prefer(&'static [SourceKind]),
}

/// The first position of `kind` in `order`.
pub open spec fn first_position(order: Seq<SourceKind>, kind: SourceKind) -> Option<int>
    decreases order.len(),
{
    if order.len() == 0 {
        None
    } else if order[0] == kind {
        Some(0)
    } else {
        match first_position(order.drop_first(), kind) {
            Some(i) => Some(i + 1),
            None => None,
        }
    }
}

/// The rank of `kind` under a policy: lower wins, none never does.
pub open spec fn collision_rank(policy: Collision, kind: SourceKind) -> Option<int> {
    match policy {
        Collision::Refuse => None,
        Collision::Prefer(order) => first_position(order@, kind),
    }
}

proof fn lemma_first_position(order: Seq<SourceKind>, kind: SourceKind, i: int)
    requires
        0 <= i < order.len(),
        order[i] == kind,
        forall|j: int| 0 <= j < i ==> order[j] != kind,
    ensures
        first_position(order, kind) == Some(i),
    decreases i,
{
    if i > 0 {
        let rest = order.drop_first();
        assert forall|j: int| 0 <= j < i - 1 implies rest[j] != kind by {
            assert(rest[j] == order[j + 1]);
        }
        lemma_first_position(rest, kind, i - 1);
    }
}

proof fn lemma_no_position(order: Seq<SourceKind>, kind: SourceKind)
    requires
        forall|j: int| 0 <= j < order.len() ==> order[j] != kind,
    ensures
        first_position(order, kind) is None,
    decreases order.len(),
{
    if order.len() > 0 {
        let rest = order.drop_first();
        assert forall|j: int| 0 <= j < rest.len() implies rest[j] != kind by {
            assert(rest[j] == order[j + 1]);
        }
        lemma_no_position(rest, kind);
    }
}

impl Collision {
    /// The rank of `kind` under this policy: lower wins, `None` never does.
    fn rank(self, kind: SourceKind) -> (rank: Option<usize>)
        ensures
            match rank {
                Some(r) => collision_rank(self, kind) == Some(r as int),
                None => collision_rank(self, kind) is None,
            },
    {
        match self {
            Self::Refuse => None,
            Self::Prefer(order) => {
                let mut i: usize = 0;
                while i < order.len()
                    invariant
                        0 <= i <= order@.len(),
                        self == Collision::Prefer(order),
                        forall|j: int| 0 <= j < i ==> order@[j] != kind,
                    decreases order@.len() - i,
                {
                    if order[i] == kind {
                        proof {
                            lemma_first_position(order@, kind, i as int);
                        }
                        return Some(i);
                    }
                    i = i + 1;
                }
                proof {
                    lemma_no_position(order@, kind);
                }
                None
            },
        }
    }
}

/// The content of one shadow.
pub struct ShadowView {
    pub id: Seq<char>,
    pub winner: ProvenanceView,
    pub loser: ProvenanceView,
}

/// One identifier claimed by two records, and which of them kept it.
#[derive(Clone, PartialEq, Eq)]
pub struct Shadow {
    id: String,
    winner: Provenance,
    loser: Provenance,
}

impl View for Shadow {
    type V = ShadowView;

    closed spec fn view(&self) -> ShadowView {
        ShadowView { id: self.id@, winner: self.winner@, loser: self.loser@ }
    }
}

impl Shadow {
    /// The contested identifier.
    pub fn id(&self) -> (id: &str)
        ensures
            id@ == self@.id,
    {
        self.id.as_str()
    }

    /// The registration that answers to the identifier.
    pub fn winner(&self) -> (winner: &Provenance)
        ensures
            winner@ == self@.winner,
    {
        &self.winner
    }

    /// The registration that was kept out of the generation.
    pub fn loser(&self) -> (loser: &Provenance)
        ensures
            loser@ == self@.loser,
    {
        &self.loser
    }

    /// How the shadow reads in a wiring diagnostic.
    pub fn text(&self) -> (text: String)
        ensures
            text@ == self@.id + ": "@ + provenance_text(self@.winner) + " shadows "@
                + provenance_text(self@.loser),
    {
        let head = joined(joined(self.id.clone(), ": "), self.winner.text().as_str());
        joined(joined(head, " shadows "), self.loser.text().as_str())
    }

    fn copy(&self) -> (copied: Self)
        ensures
            copied@ == self@,
    {
        Self { id: self.id.clone(), winner: self.winner.copy(), loser: self.loser.copy() }
    }
}

/// Why a registration or a lookup was refused.
#[derive(Clone, PartialEq, Eq)]
pub enum RegistryError {
    /// The record's source could not be described.
    Provenance(ProvenanceError),
    /// Two distinct registrations answer to one identifier and the policy
    /// prefers neither.
    Duplicate {
        /// The contested identifier.
        id: String,
        /// The registration already present.
        first: Provenance,
        /// The registration that was refused.
        second: Provenance,
    },
    /// A generation would hold too many records.
    Entries {
        /// The ceiling.
        maximum: usize,
        /// The requested count.
        actual: usize,
    },
    /// Aggregate retained data crossed its boundary.
    Bytes {
        /// The ceiling.
        maximum: usize,
        /// The requested bytes.
        actual: usize,
    },
    /// No record answers to the identifier.
    Unknown {
        /// The identifier looked for.
        id: String,
    },
    /// The staged set was built from a generation that is no longer current.
    Superseded,
    /// A handle from another generation was presented.
    Stale,
}

/// The sentence a registry error reads as.
pub open spec fn registry_error_text(error: RegistryErrorView) -> Seq<char> {
    match error {
        RegistryErrorView::Provenance(e) => provenance_error_text(e),
        RegistryErrorView::Duplicate { id, first, second } => id + " is registered by both "@
            + provenance_text(first) + " and "@ + provenance_text(second),
        RegistryErrorView::Entries { maximum, actual } => "a registry generation has "@ + decimal(
            actual as nat,
        ) + " entries; the maximum is "@ + decimal(maximum as nat),
        RegistryErrorView::Bytes { maximum, actual } => "a registry generation retains "@
            + decimal(actual as nat) + " bytes; the maximum is "@ + decimal(maximum as nat),
        RegistryErrorView::Unknown { id } => id + " is not registered"@,
        RegistryErrorView::Superseded =>
            "the registry changed while a transaction was staged; stage it again"@,
        RegistryErrorView::Stale => "the handle belongs to an earlier registry generation"@,
    }
}

impl RegistryError {
    /// The diagnostic sentence.
    pub fn message(&self) -> (text: String)
        ensures
            text@ == registry_error_text(self@),
    {
        match self {
            Self::Provenance(error) => error.message(),
            Self::Duplicate { id, first, second } => {
                let head = joined(joined(id.clone(), " is registered by both "), first.text().as_str());
                joined(joined(head, " and "), second.text().as_str())
            },
            Self::Entries { maximum, actual } => {
                let head = joined("a registry generation has ".to_owned(), decimal_text(*actual as u64).as_str());
                joined(joined(head, " entries; the maximum is "), decimal_text(*maximum as u64).as_str())
            },
            Self::Bytes { maximum, actual } => {
                let head = joined("a registry generation retains ".to_owned(), decimal_text(*actual as u64).as_str());
                joined(joined(head, " bytes; the maximum is "), decimal_text(*maximum as u64).as_str())
            },
            Self::Unknown { id } => joined(id.clone(), " is not registered"),
            Self::Superseded => "the registry changed while a transaction was staged; stage it again".to_owned(),
            Self::Stale => "the handle belongs to an earlier registry generation".to_owned(),
        }
    }
}

/// The content of one generation's identity.
pub struct GenerationView {
    pub label: Seq<char>,
    pub serial: u64,
}

/// Equality identity for one committed generation: an opaque label minted
/// for it and its place in its registry's sequence of commits. Where no
/// identifier can be minted (the clock reads before 1970, or the system has
/// no randomness to give) the label is empty and the serial alone tells the
/// generations of one registry apart.
#[derive(Clone, PartialEq, Eq)]
pub struct RegistryGeneration {
    label: String,
    serial: u64,
}

impl View for RegistryGeneration {
    type V = GenerationView;

    closed spec fn view(&self) -> GenerationView {
        GenerationView { label: self.label@, serial: self.serial }
    }
}

impl RegistryGeneration {
    fn new(serial: u64) -> (generation: Self)
        ensures
            generation@.serial == serial,
            generation@.label.len() == 0 || (generation@.label.len() == 36
                && crate::prompt_cache::resource::canonical_v7(generation@.label)),
    {
        let label = match crate::prompt_cache::resource::mint_uuid_v7() {
            Some(label) => label,
            None => String::new(),
        };
        Self { label, serial }
    }

    /// The opaque label a diagnostic may quote.
    pub fn label(&self) -> (label: &str)
        ensures
            label@ == self@.label,
    {
        self.label.as_str()
    }

    fn same_as(&self, other: &Self) -> (same: bool)
        ensures
            same == (self@ == other@),
    {
        self.serial == other.serial && same_text(self.label.as_str(), other.label.as_str())
    }

    fn copy(&self) -> (copied: Self)
        ensures
            copied@ == self@,
    {
        Self { label: self.label.clone(), serial: self.serial }
    }
}

/// The content of one handle.
pub struct HandleView {
    pub generation: GenerationView,
    pub index: usize,
}

/// A record found in one exact generation.
#[derive(Clone)]
pub struct RegistryHandle {
    generation: RegistryGeneration,
    index: usize,
}

impl View for RegistryHandle {
    type V = HandleView;

    closed spec fn view(&self) -> HandleView {
        HandleView { generation: self.generation@, index: self.index }
    }
}

impl RegistryHandle {
    /// The generation this handle resolves through.
    pub fn generation(&self) -> (generation: &RegistryGeneration)
        ensures
            generation@ == self@.generation,
    {
        &self.generation
    }
}

/// The content of one registry error.
pub enum RegistryErrorView {
    Provenance(ProvenanceError),
    Duplicate { id: Seq<char>, first: ProvenanceView, second: ProvenanceView },
    Entries { maximum: usize, actual: usize },
    Bytes { maximum: usize, actual: usize },
    Unknown { id: Seq<char> },
    Superseded,
    Stale,
}

impl View for RegistryError {
    type V = RegistryErrorView;

    open spec fn view(&self) -> RegistryErrorView {
        match self {
            RegistryError::Provenance(e) => RegistryErrorView::Provenance(*e),
            RegistryError::Duplicate { id, first, second } => RegistryErrorView::Duplicate {
                id: id@,
                first: first@,
                second: second@,
            },
            RegistryError::Entries { maximum, actual } => RegistryErrorView::Entries {
                maximum: *maximum,
                actual: *actual,
            },
            RegistryError::Bytes { maximum, actual } => RegistryErrorView::Bytes {
                maximum: *maximum,
                actual: *actual,
            },
            RegistryError::Unknown { id } => RegistryErrorView::Unknown { id: id@ },
            RegistryError::Superseded => RegistryErrorView::Superseded,
            RegistryError::Stale => RegistryErrorView::Stale,
        }
    }
}

/// A result taken by its view.
pub open spec fn outcome_view(result: Result<(), RegistryError>) -> Result<(), RegistryErrorView> {
    match result {
        Ok(()) => Ok(()),
        Err(e) => Err(e@),
    }
}

/// `a + b`, held at the top of `usize`.
pub open spec fn saturating_sum(a: usize, b: usize) -> usize {
    if a + b > usize::MAX {
        usize::MAX
    } else {
        (a + b) as usize
    }
}

/// `a - b`, held at zero.
pub open spec fn saturating_less(a: usize, b: usize) -> usize {
    if a < b {
        0
    } else {
        (a - b) as usize
    }
}

/// The first position of a record answering to `id`.
pub open spec fn position_of<T: Registered>(entries: Seq<T>, id: Seq<char>) -> Option<int>
    decreases entries.len(),
{
    if entries.len() == 0 {
        None
    } else if entries[0].spec_id() == id {
        Some(0)
    } else {
        match position_of(entries.drop_first(), id) {
            Some(i) => Some(i + 1),
            None => None,
        }
    }
}

/// The retained bytes of `entries`, summed and held at the top of `usize`.
pub open spec fn retained_total<T: Registered>(entries: Seq<T>) -> usize
    decreases entries.len(),
{
    if entries.len() == 0 {
        0
    } else {
        saturating_sum(retained_total(entries.drop_last()), entries.last().spec_retained())
    }
}

/// The content of one staged set.
pub struct StagedView<T> {
    pub based_on: Option<GenerationView>,
    pub policy: Collision,
    pub entries: Seq<T>,
    pub shadows: Seq<ShadowView>,
    pub retained: usize,
}

/// Appending a record with a new identifier: refused past the entry ceiling
/// or the byte ceiling, else added at the end.
pub open spec fn appended<T: Registered>(staged: StagedView<T>, record: T) -> (
    StagedView<T>,
    Result<(), RegistryErrorView>,
) {
    if staged.entries.len() >= REGISTRY_ENTRIES {
        (
            staged,
            Err(
                RegistryErrorView::Entries {
                    maximum: REGISTRY_ENTRIES,
                    actual: saturating_sum(staged.entries.len() as usize, 1),
                },
            ),
        )
    } else {
        let total = saturating_sum(staged.retained, record.spec_retained());
        if total > REGISTRY_BYTES {
            (staged, Err(RegistryErrorView::Bytes { maximum: REGISTRY_BYTES, actual: total }))
        } else {
            (StagedView { entries: staged.entries.push(record), retained: total, ..staged }, Ok(()))
        }
    }
}

/// Staging one record. A new identifier is appended. A taken one is decided
/// by the policy: a better-ranked newcomer replaces the present record in its
/// place, recording that it shadows it (and is then charged against the byte
/// ceiling without the record it replaced); a worse-ranked newcomer is kept
/// out as shadowed; two records of one rank, or of a kind the policy does not
/// rank, are refused, naming both.
pub open spec fn registration<T: Registered>(staged: StagedView<T>, record: T) -> (
    StagedView<T>,
    Result<(), RegistryErrorView>,
) {
    match position_of(staged.entries, record.spec_id()) {
        None => appended(staged, record),
        Some(i) => {
            let present = staged.entries[i];
            let kept = collision_rank(staged.policy, present.spec_provenance().kind);
            let offered = collision_rank(staged.policy, record.spec_provenance().kind);
            if kept is Some && offered is Some && offered->0 < kept->0 {
                let shadowed = StagedView {
                    shadows: staged.shadows.push(
                        ShadowView {
                            id: record.spec_id(),
                            winner: record.spec_provenance(),
                            loser: present.spec_provenance(),
                        },
                    ),
                    retained: saturating_less(staged.retained, present.spec_retained()),
                    ..staged
                };
                let total = saturating_sum(shadowed.retained, record.spec_retained());
                if total > REGISTRY_BYTES {
                    (
                        shadowed,
                        Err(RegistryErrorView::Bytes { maximum: REGISTRY_BYTES, actual: total }),
                    )
                } else {
                    (
                        StagedView {
                            entries: staged.entries.update(i, record),
                            retained: total,
                            ..shadowed
                        },
                        Ok(()),
                    )
                }
            } else if kept is Some && offered is Some && offered->0 > kept->0 {
                (
                    StagedView {
                        shadows: staged.shadows.push(
                            ShadowView {
                                id: record.spec_id(),
                                winner: present.spec_provenance(),
                                loser: record.spec_provenance(),
                            },
                        ),
                        ..staged
                    },
                    Ok(()),
                )
            } else {
                (
                    staged,
                    Err(
                        RegistryErrorView::Duplicate {
                            id: record.spec_id(),
                            first: present.spec_provenance(),
                            second: record.spec_provenance(),
                        },
                    ),
                )
            }
        },
    }
}

/// Whether no two of `entries` answer to one identifier.
pub open spec fn ids_distinct<T: Registered>(entries: Seq<T>) -> bool {
    forall|i: int, j: int|
        0 <= i < j < entries.len() ==> (#[trigger] entries[i]).spec_id() != (#[trigger] entries[j]).spec_id()
}

/// Whether exactly one of `entries` answers to `id`.
pub open spec fn answers_once<T: Registered>(entries: Seq<T>, id: Seq<char>) -> bool {
    exists|i: int|
        0 <= i < entries.len() && (#[trigger] entries[i]).spec_id() == id && forall|j: int|
            0 <= j < entries.len() && (#[trigger] entries[j]).spec_id() == id ==> j == i
}

/// Two records with one identifier are one slot: staging keeps the
/// identifiers of a staged set distinct, and after a registration that is
/// not refused exactly one staged record answers to the offered identifier.
pub proof fn lemma_registration_keeps_one_record_per_id<T: Registered>(staged: StagedView<T>, record: T)
    ensures
        ids_distinct(staged.entries) ==> ids_distinct(registration(staged, record).0.entries),
        ids_distinct(staged.entries) && registration(staged, record).1 is Ok ==> answers_once(
            registration(staged, record).0.entries,
            record.spec_id(),
        ),
{
    let id = record.spec_id();
    let after = registration(staged, record).0.entries;
    lemma_position_of_bounds(staged.entries, id);
    if ids_distinct(staged.entries) {
        match position_of(staged.entries, id) {
            None => {
                if registration(staged, record).1 is Ok {
                    assert(after == staged.entries.push(record));
                    assert forall|i: int, j: int| 0 <= i < j < after.len() implies (#[trigger] after[i]).spec_id()
                        != (#[trigger] after[j]).spec_id() by {
                        if j < staged.entries.len() {
                            assert(after[i] == staged.entries[i] && after[j] == staged.entries[j]);
                        } else {
                            assert(after[i] == staged.entries[i]);
                        }
                    }
                    let n = staged.entries.len() as int;
                    assert(after[n].spec_id() == id);
                    assert forall|j: int| 0 <= j < after.len() && (#[trigger] after[j]).spec_id() == id implies j
                        == n by {
                        if j < n {
                            assert(after[j] == staged.entries[j]);
                        }
                    }
                } else {
                    assert(after == staged.entries);
                }
            },
            Some(i) => {
                if after != staged.entries {
                    assert(after == staged.entries.update(i, record));
                    assert forall|a: int, b: int| 0 <= a < b < after.len() implies (#[trigger] after[a]).spec_id()
                        != (#[trigger] after[b]).spec_id() by {
                        assert(staged.entries[a].spec_id() != staged.entries[b].spec_id());
                    }
                }
                if registration(staged, record).1 is Ok {
                    assert(after[i].spec_id() == id);
                    assert forall|j: int| 0 <= j < after.len() && (#[trigger] after[j]).spec_id() == id implies j
                        == i by {
                        if j != i {
                            assert(after[j] == staged.entries[j]);
                            if j < i {
                                assert(staged.entries[j].spec_id() != staged.entries[i].spec_id());
                            } else {
                                assert(staged.entries[i].spec_id() != staged.entries[j].spec_id());
                            }
                        }
                    }
                }
            },
        }
    }
}

/// Removing the record at `i` keeps the remaining identifiers distinct.
proof fn lemma_removal_keeps_ids_distinct<T: Registered>(entries: Seq<T>, i: int)
    requires
        ids_distinct(entries),
        0 <= i < entries.len(),
    ensures
        ids_distinct(entries.remove(i)),
{
    let after = entries.remove(i);
    assert forall|a: int, b: int| 0 <= a < b < after.len() implies (#[trigger] after[a]).spec_id()
        != (#[trigger] after[b]).spec_id() by {
        let x = if a < i { a } else { a + 1 };
        let y = if b < i { b } else { b + 1 };
        assert(after[a] == entries[x] && after[b] == entries[y]);
        assert(entries[x].spec_id() != entries[y].spec_id());
    }
}

proof fn lemma_position_of_bounds<T: Registered>(entries: Seq<T>, id: Seq<char>)
    ensures
        position_of(entries, id) matches Some(i) ==> 0 <= i < entries.len() && entries[i].spec_id()
            == id && forall|j: int| 0 <= j < i ==> (#[trigger] entries[j]).spec_id() != id,
        position_of(entries, id) is None ==> forall|j: int|
            0 <= j < entries.len() ==> (#[trigger] entries[j]).spec_id() != id,
    decreases entries.len(),
{
    if entries.len() > 0 {
        lemma_position_of_bounds(entries.drop_first(), id);
        assert forall|j: int| 1 <= j < entries.len() implies entries[j] == entries.drop_first()[j
            - 1] by {}
    }
}

proof fn lemma_position_is_first<T: Registered>(entries: Seq<T>, id: Seq<char>, i: int)
    requires
        0 <= i < entries.len(),
        entries[i].spec_id() == id,
        forall|j: int| 0 <= j < i ==> (#[trigger] entries[j]).spec_id() != id,
    ensures
        position_of(entries, id) == Some(i),
    decreases i,
{
    if i > 0 {
        let rest = entries.drop_first();
        assert forall|j: int| 0 <= j < i - 1 implies (#[trigger] rest[j]).spec_id() != id by {
            assert(rest[j] == entries[j + 1]);
        }
        lemma_position_is_first(rest, id, i - 1);
    }
}

proof fn lemma_position_is_none<T: Registered>(entries: Seq<T>, id: Seq<char>)
    requires
        forall|j: int| 0 <= j < entries.len() ==> (#[trigger] entries[j]).spec_id() != id,
    ensures
        position_of(entries, id) is None,
    decreases entries.len(),
{
    if entries.len() > 0 {
        let rest = entries.drop_first();
        assert forall|j: int| 0 <= j < rest.len() implies (#[trigger] rest[j]).spec_id() != id by {
            assert(rest[j] == entries[j + 1]);
        }
        lemma_position_is_none(rest, id);
    }
}

/// The order two records of one new identifier arrive in does not decide
/// which one answers to it: under a policy that ranks both kinds apart, the
/// better-ranked one holds the identifier and the other is recorded as
/// shadowed by it, whichever came first.
pub proof fn lemma_arrival_order_does_not_decide_precedence<T: Registered>(
    staged: StagedView<T>,
    first: T,
    second: T,
)
    requires
        first.spec_id() == second.spec_id(),
        position_of(staged.entries, first.spec_id()) is None,
        staged.entries.len() < REGISTRY_ENTRIES,
        staged.retained + first.spec_retained() + second.spec_retained() <= REGISTRY_BYTES,
        collision_rank(staged.policy, first.spec_provenance().kind) is Some,
        collision_rank(staged.policy, second.spec_provenance().kind) is Some,
        collision_rank(staged.policy, first.spec_provenance().kind) != collision_rank(
            staged.policy,
            second.spec_provenance().kind,
        ),
    ensures
        ({
            let (one, r1) = registration(staged, first);
            let (one_then, r2) = registration(one, second);
            let (other, r3) = registration(staged, second);
            let (other_then, r4) = registration(other, first);
            let winner = if collision_rank(staged.policy, first.spec_provenance().kind)->0
                < collision_rank(staged.policy, second.spec_provenance().kind)->0 {
                first
            } else {
                second
            };
            let loser = if winner == first {
                second
            } else {
                first
            };
            &&& r1 is Ok && r2 is Ok && r3 is Ok && r4 is Ok
            &&& one_then.entries == staged.entries.push(winner)
            &&& other_then.entries == staged.entries.push(winner)
            &&& one_then.shadows == staged.shadows.push(
                ShadowView {
                    id: first.spec_id(),
                    winner: winner.spec_provenance(),
                    loser: loser.spec_provenance(),
                },
            )
            &&& other_then.shadows == one_then.shadows
            &&& one_then.retained == other_then.retained
        }),
{
    let id = first.spec_id();
    let n = staged.entries.len() as int;
    let (one, r1) = registration(staged, first);
    lemma_position_of_bounds(staged.entries, id);
    assert(one.entries == staged.entries.push(first));
    assert forall|j: int| 0 <= j < n implies (#[trigger] one.entries[j]).spec_id() != id by {
        assert(one.entries[j] == staged.entries[j]);
    }
    lemma_position_is_first(one.entries, id, n);
    let (other, r3) = registration(staged, second);
    assert(other.entries == staged.entries.push(second));
    assert forall|j: int| 0 <= j < n implies (#[trigger] other.entries[j]).spec_id() != id by {
        assert(other.entries[j] == staged.entries[j]);
    }
    lemma_position_is_first(other.entries, id, n);
    assert(staged.entries.push(first).update(n, second) =~= staged.entries.push(second));
    assert(staged.entries.push(second).update(n, first) =~= staged.entries.push(first));
}

/// `Arc::clone`, which the standard library documents as making another
/// pointer to the same allocation: the copy points at the same value.
#[verifier::external_body]
fn share<T>(shared: &Arc<T>) -> (copy: Arc<T>)
    ensures
        copy == *shared,
{
    Arc::clone(shared)
}

/// The records held behind a list of shared pointers.
pub open spec fn pointees<T>(entries: Seq<Arc<T>>) -> Seq<T> {
    entries.map_values(|entry: Arc<T>| *entry)
}

fn share_all<T>(entries: &Vec<Arc<T>>) -> (copy: Vec<Arc<T>>)
    ensures
        pointees(copy@) == pointees(entries@),
{
    let mut copy: Vec<Arc<T>> = Vec::new();
    let mut i: usize = 0;
    while i < entries.len()
        invariant
            0 <= i <= entries@.len(),
            copy@.len() == i,
            forall|j: int| 0 <= j < i ==> *copy@[j] == *entries@[j],
        decreases entries@.len() - i,
    {
        copy.push(share(&entries[i]));
        i = i + 1;
    }
    assert(pointees(copy@) =~= pointees(entries@));
    copy
}

/// The views of a list of shadows.
pub open spec fn shadow_views(shadows: Seq<Shadow>) -> Seq<ShadowView> {
    shadows.map_values(|shadow: Shadow| shadow@)
}

fn copy_shadows(shadows: &Vec<Shadow>) -> (copy: Vec<Shadow>)
    ensures
        shadow_views(copy@) == shadow_views(shadows@),
{
    let mut copy: Vec<Shadow> = Vec::new();
    let mut i: usize = 0;
    while i < shadows.len()
        invariant
            0 <= i <= shadows@.len(),
            copy@.len() == i,
            forall|j: int| 0 <= j < i ==> copy@[j]@ == shadows@[j]@,
        decreases shadows@.len() - i,
    {
        copy.push(shadows[i].copy());
        i = i + 1;
    }
    assert(shadow_views(copy@) =~= shadow_views(shadows@));
    copy
}

fn find_position<T: Registered>(entries: &Vec<Arc<T>>, id: &str) -> (found: Option<usize>)
    ensures
        match found {
            Some(i) => position_of(pointees(entries@), id@) == Some(i as int) && i < entries@.len(),
            None => position_of(pointees(entries@), id@) is None,
        },
{
    let ghost records = pointees(entries@);
    let mut i: usize = 0;
    while i < entries.len()
        invariant
            0 <= i <= entries@.len(),
            records == pointees(entries@),
            forall|j: int| 0 <= j < i ==> (#[trigger] records[j]).spec_id() != id@,
        decreases entries@.len() - i,
    {
        let entry: &T = &entries[i];
        if same_text(entry.id(), id) {
            proof {
                lemma_position_is_first(records, id@, i as int);
            }
            return Some(i);
        }
        i = i + 1;
    }
    proof {
        lemma_position_is_none(records, id@);
    }
    None
}

/// The content of one snapshot.
pub struct SnapshotView<T> {
    pub generation: GenerationView,
    pub entries: Seq<T>,
    pub shadows: Seq<ShadowView>,
}

/// One immutable, registration-ordered generation of a registry.

pub struct RegistrySnapshot<T> {
    generation: RegistryGeneration,
    entries: Vec<Arc<T>>,
    shadows: Vec<Shadow>,
}

impl<T> View for RegistrySnapshot<T> {
    type V = SnapshotView<T>;

    closed spec fn view(&self) -> SnapshotView<T> {
        SnapshotView {
            generation: self.generation@,
            entries: pointees(self.entries@),
            shadows: shadow_views(self.shadows@),
        }
    }
}

/// The content of one report row.
pub struct RowView {
    pub id: Seq<char>,
    pub source: ReceiptView,
}

/// One registered or shadowed record, as capability inspection reports it.
#[derive(Debug, Clone, PartialEq, Eq)]
pub struct RegistryRow {
    id: String,
    source: SourceReceipt,
}

impl View for RegistryRow {
    type V = RowView;

    closed spec fn view(&self) -> RowView {
        RowView { id: self.id@, source: self.source@ }
    }
}

impl RegistryRow {
    /// The record's identifier.
    pub fn id(&self) -> (id: &str)
        ensures
            id@ == self@.id,
    {
        self.id.as_str()
    }

    /// The receipt-safe source.
    pub fn source(&self) -> (source: &SourceReceipt)
        ensures
            source@ == self@.source,
    {
        &self.source
    }
}

/// The views of a list of rows.
pub open spec fn row_views(rows: Seq<RegistryRow>) -> Seq<RowView> {
    rows.map_values(|row: RegistryRow| row@)
}

/// A receipt-safe account of one generation: what answers, and what was
/// contributed but kept out.
#[derive(Debug, Clone, PartialEq, Eq)]
pub struct RegistryReport {
    generation: String,
    registered: Vec<RegistryRow>,
    shadowed: Vec<RegistryRow>,
}

/// The content of one report.
pub struct ReportView {
    pub generation: Seq<char>,
    pub registered: Seq<RowView>,
    pub shadowed: Seq<RowView>,
}

impl View for RegistryReport {
    type V = ReportView;

    closed spec fn view(&self) -> ReportView {
        ReportView {
            generation: self.generation@,
            registered: row_views(self.registered@),
            shadowed: row_views(self.shadowed@),
        }
    }
}

impl RegistryReport {
    /// The generation's opaque label.
    pub fn generation(&self) -> (label: &str)
        ensures
            label@ == self@.generation,
    {
        self.generation.as_str()
    }

    /// Every record that answers to its identifier.
    pub fn registered(&self) -> (rows: &[RegistryRow])
        ensures
            row_views(rows@) == self@.registered,
    {
        self.registered.as_slice()
    }

    /// Every record another one kept out.
    pub fn shadowed(&self) -> (rows: &[RegistryRow])
        ensures
            row_views(rows@) == self@.shadowed,
    {
        self.shadowed.as_slice()
    }
}

/// What inspection reports of a generation: each record's identifier and
/// receipt, and each shadowed record's identifier and the receipt of the one
/// kept out; never a label.
pub open spec fn inspection<T: Registered>(snapshot: SnapshotView<T>) -> ReportView {
    ReportView {
        generation: snapshot.generation.label,
        registered: snapshot.entries.map_values(
            |entry: T|
                RowView {
                    id: entry.spec_id(),
                    source: ReceiptView {
                        kind: entry.spec_provenance().kind,
                        id: entry.spec_provenance().id,
                    },
                },
        ),
        shadowed: snapshot.shadows.map_values(
            |shadow: ShadowView|
                RowView {
                    id: shadow.id,
                    source: ReceiptView { kind: shadow.loser.kind, id: shadow.loser.id },
                },
        ),
    }
}

impl<T: Registered> RegistrySnapshot<T> {
    /// A generation with nothing in it.
    pub fn empty() -> (snapshot: Self)
        ensures
            snapshot@.entries.len() == 0,
            snapshot@.shadows.len() == 0,
            snapshot@.generation.serial == 0,
            ids_distinct(snapshot@.entries),
    {
        let snapshot = Self {
            generation: RegistryGeneration::new(0),
            entries: Vec::new(),
            shadows: Vec::new(),
        };
        assert(snapshot@.entries =~= Seq::<T>::empty());
        snapshot
    }

    /// Which exact generation this is.
    pub fn generation(&self) -> (generation: &RegistryGeneration)
        ensures
            generation@ == self@.generation,
    {
        &self.generation
    }

    /// Every record, in the order it was registered.
    pub fn entries(&self) -> (entries: &[Arc<T>])
        ensures
            pointees(entries@) == self@.entries,
    {
        self.entries.as_slice()
    }

    /// Every identifier a second record claimed, and who kept it.
    pub fn shadows(&self) -> (shadows: &[Shadow])
        ensures
            shadow_views(shadows@) == self@.shadows,
    {
        self.shadows.as_slice()
    }

    /// The record answering to `id`.
    pub fn find(&self, id: &str) -> (found: Option<&Arc<T>>)
        ensures
            match position_of(self@.entries, id@) {
                Some(i) => found matches Some(entry) && **entry == self@.entries[i],
                None => found is None,
            },
    {
        match find_position(&self.entries, id) {
            Some(i) => Some(&self.entries[i]),
            None => None,
        }
    }

    /// A handle to the record answering to `id`, bound to this generation.
    pub fn handle(&self, id: &str) -> (handle: Option<RegistryHandle>)
        ensures
            match position_of(self@.entries, id@) {
                Some(i) => handle matches Some(h) && h@ == (HandleView {
                    generation: self@.generation,
                    index: i as usize,
                }),
                None => handle is None,
            },
    {
        match find_position(&self.entries, id) {
            Some(index) => Some(RegistryHandle { generation: self.generation.copy(), index }),
            None => None,
        }
    }

    /// Resolves a handle only through the generation that minted it.
    pub fn resolve(&self, handle: &RegistryHandle) -> (resolved: Result<&Arc<T>, RegistryError>)
        ensures
            handle@.generation == self@.generation && handle@.index < self@.entries.len() ==> (
            resolved matches Ok(entry) && **entry == self@.entries[handle@.index as int]),
            !(handle@.generation == self@.generation && handle@.index < self@.entries.len()) ==> (
            resolved matches Err(e) && e is Stale),
    {
        if !handle.generation.same_as(&self.generation) {
            return Err(RegistryError::Stale);
        }
        if handle.index < self.entries.len() {
            Ok(&self.entries[handle.index])
        } else {
            Err(RegistryError::Stale)
        }
    }

    /// What this generation holds, in receipt-safe terms.
    pub fn inspect(&self) -> (report: RegistryReport)
        ensures
            report@ == inspection(self@),
    {
        let mut registered: Vec<RegistryRow> = Vec::new();
        let mut i: usize = 0;
        while i < self.entries.len()
            invariant
                0 <= i <= self.entries@.len(),
                registered@.len() == i,
                forall|j: int|
                    0 <= j < i ==> (#[trigger] registered@[j])@ == (RowView {
                        id: (*self.entries@[j]).spec_id(),
                        source: ReceiptView {
                            kind: (*self.entries@[j]).spec_provenance().kind,
                            id: (*self.entries@[j]).spec_provenance().id,
                        },
                    }),
            decreases self.entries@.len() - i,
        {
            let entry: &T = &self.entries[i];
            registered.push(
                RegistryRow { id: entry.id().to_owned(), source: entry.provenance().receipt() },
            );
            i = i + 1;
        }
        let mut shadowed: Vec<RegistryRow> = Vec::new();
        let mut k: usize = 0;
        while k < self.shadows.len()
            invariant
                0 <= k <= self.shadows@.len(),
                shadowed@.len() == k,
                forall|j: int|
                    0 <= j < k ==> (#[trigger] shadowed@[j])@ == (RowView {
                        id: self.shadows@[j]@.id,
                        source: ReceiptView {
                            kind: self.shadows@[j]@.loser.kind,
                            id: self.shadows@[j]@.loser.id,
                        },
                    }),
            decreases self.shadows@.len() - k,
        {
            let shadow = &self.shadows[k];
            shadowed.push(
                RegistryRow { id: shadow.id().to_owned(), source: shadow.loser().receipt() },
            );
            k = k + 1;
        }
        let report = RegistryReport {
            generation: self.generation.label().to_owned(),
            registered,
            shadowed,
        };
        assert(report@.registered =~= inspection(self@).registered);
        assert(report@.shadowed =~= inspection(self@).shadowed);
        report
    }

    fn copy(&self) -> (copied: Self)
        ensures
            copied@ == self@,
    {
        Self {
            generation: self.generation.copy(),
            entries: share_all(&self.entries),
            shadows: copy_shadows(&self.shadows),
        }
    }

    fn stage(&self, policy: Collision) -> (staged: Staged<T>)
        ensures
            staged@ == (StagedView {
                based_on: Some(self@.generation),
                policy,
                entries: self@.entries,
                shadows: self@.shadows,
                retained: retained_total(self@.entries),
            }),
    {
        let ghost records = self@.entries;
        let mut retained: usize = 0;
        let mut i: usize = 0;
        while i < self.entries.len()
            invariant
                0 <= i <= self.entries@.len(),
                records == pointees(self.entries@),
                retained == retained_total(records.take(i as int)),
            decreases self.entries@.len() - i,
        {
            assert(records.take(i + 1).drop_last() =~= records.take(i as int));
            let entry: &T = &self.entries[i];
            retained = retained.saturating_add(entry.retained_bytes());
            i = i + 1;
        }
        assert(records.take(records.len() as int) =~= records);
        Staged {
            based_on: Some(self.generation.copy()),
            policy,
            entries: share_all(&self.entries),
            shadows: copy_shadows(&self.shadows),
            retained,
        }
    }
}

/// A set of registrations being assembled for one atomic commit.
pub struct Staged<T> {
    based_on: Option<RegistryGeneration>,
    policy: Collision,
    entries: Vec<Arc<T>>,
    shadows: Vec<Shadow>,
    retained: usize,
}

impl<T> View for Staged<T> {
    type V = StagedView<T>;

    closed spec fn view(&self) -> StagedView<T> {
        StagedView {
            based_on: match self.based_on {
                Some(g) => Some(g@),
                None => None,
            },
            policy: self.policy,
            entries: pointees(self.entries@),
            shadows: shadow_views(self.shadows@),
            retained: self.retained,
        }
    }
}

impl<T: Registered> Staged<T> {
    /// Adds one record, as [`registration`] describes.
    pub fn register(&mut self, record: T) -> (result: Result<(), RegistryError>)
        ensures
            (final(self)@, outcome_view(result)) == registration(old(self)@, record),
            ids_distinct(old(self)@.entries) ==> ids_distinct(final(self)@.entries),
            ids_distinct(old(self)@.entries) && result is Ok ==> answers_once(
                final(self)@.entries,
                record.spec_id(),
            ),
    {
        let ghost before = self@;
        proof {
            lemma_registration_keeps_one_record_per_id(before, record);
        }
        let record = Arc::new(record);
        let index = match find_position(&self.entries, record.id()) {
            Some(index) => index,
            None => {
                return self.append(record);
            },
        };
        let present = share(&self.entries[index]);
        proof {
            lemma_position_of_bounds(before.entries, (*record).spec_id());
        }
        let kept = self.policy.rank(present.provenance().kind());
        let offered = self.policy.rank(record.provenance().kind());
        match (kept, offered) {
            (Some(kept), Some(offered)) => {
                if offered < kept {
                    self.shadows.push(
                        Shadow {
                            id: record.id().to_owned(),
                            winner: record.provenance().copy(),
                            loser: present.provenance().copy(),
                        },
                    );
                    self.retained = self.retained.saturating_sub(present.retained_bytes());
                    let total = self.retained.saturating_add(record.retained_bytes());
                    if total > REGISTRY_BYTES {
                        proof {
                            assert(self@.shadows =~= before.shadows.push(
                                ShadowView {
                                    id: (*record).spec_id(),
                                    winner: (*record).spec_provenance(),
                                    loser: (*present).spec_provenance(),
                                },
                            ));
                        }
                        return Err(RegistryError::Bytes { maximum: REGISTRY_BYTES, actual: total });
                    }
                    self.retained = total;
                    self.entries.set(index, record);
                    proof {
                        assert(self@.shadows =~= before.shadows.push(
                            ShadowView {
                                id: (*record).spec_id(),
                                winner: (*record).spec_provenance(),
                                loser: (*present).spec_provenance(),
                            },
                        ));
                        assert(self@.entries =~= before.entries.update(index as int, *record));
                    }
                    return Ok(());
                } else if offered > kept {
                    self.shadows.push(
                        Shadow {
                            id: record.id().to_owned(),
                            winner: present.provenance().copy(),
                            loser: record.provenance().copy(),
                        },
                    );
                    proof {
                        assert(self@.shadows =~= before.shadows.push(
                            ShadowView {
                                id: (*record).spec_id(),
                                winner: (*present).spec_provenance(),
                                loser: (*record).spec_provenance(),
                            },
                        ));
                    }
                    return Ok(());
                }
            },
            _ => {},
        }
        Err(
            RegistryError::Duplicate {
                id: record.id().to_owned(),
                first: present.provenance().copy(),
                second: record.provenance().copy(),
            },
        )
    }

    fn append(&mut self, record: Arc<T>) -> (result: Result<(), RegistryError>)
        ensures
            (final(self)@, outcome_view(result)) == appended(old(self)@, *record),
    {
        if self.entries.len() >= REGISTRY_ENTRIES {
            return Err(
                RegistryError::Entries {
                    maximum: REGISTRY_ENTRIES,
                    actual: self.entries.len().saturating_add(1),
                },
            );
        }
        let total = self.retained.saturating_add(record.retained_bytes());
        if total > REGISTRY_BYTES {
            return Err(RegistryError::Bytes { maximum: REGISTRY_BYTES, actual: total });
        }
        let ghost before = self@;
        self.retained = total;
        self.entries.push(record);
        proof {
            assert(self@.entries =~= before.entries.push(*record));
        }
        Ok(())
    }

    /// Removes the record answering to `id`, and every shadow it cast or
    /// suffered.
    pub fn deregister(&mut self, id: &str) -> (removed: Result<Arc<T>, RegistryError>)
        ensures
            match position_of(old(self)@.entries, id@) {
                None => (removed matches Err(e) && e@ == RegistryErrorView::Unknown { id: id@ }
                    && final(self)@ == old(self)@),
                Some(i) => (removed matches Ok(r) && *r == old(self)@.entries[i] && final(self)@
                    == (StagedView {
                    entries: old(self)@.entries.remove(i),
                    shadows: old(self)@.shadows.filter(|shadow: ShadowView| shadow.id != id@),
                    retained: saturating_less(old(self)@.retained, (*r).spec_retained()),
                    ..old(self)@
                })),
            },
            ids_distinct(old(self)@.entries) ==> ids_distinct(final(self)@.entries),
    {
        let ghost before = self@;
        let index = match find_position(&self.entries, id) {
            Some(index) => index,
            None => {
                return Err(RegistryError::Unknown { id: id.to_owned() });
            },
        };
        let removed = self.entries.remove(index);
        let mut kept: Vec<Shadow> = Vec::new();
        let mut k: usize = 0;
        let ghost old_shadows = before.shadows;
        while k < self.shadows.len()
            invariant
                0 <= k <= self.shadows@.len(),
                shadow_views(self.shadows@) == old_shadows,
                shadow_views(kept@) == old_shadows.take(k as int).filter(
                    |shadow: ShadowView| shadow.id != id@,
                ),
            decreases self.shadows@.len() - k,
        {
            let shadow = &self.shadows[k];
            let ghost view = shadow@;
            assert(old_shadows.take(k + 1) =~= old_shadows.take(k as int).push(view));
            proof {
                old_shadows.take(k as int).lemma_filter_push(
                    view,
                    |shadow: ShadowView| shadow.id != id@,
                );
            }
            if !same_text(shadow.id(), id) {
                kept.push(shadow.copy());
                assert(shadow_views(kept@) =~= shadow_views(kept@).drop_last().push(view));
            }
            k = k + 1;
        }
        assert(old_shadows.take(old_shadows.len() as int) =~= old_shadows);
        self.shadows = kept;
        self.retained = self.retained.saturating_sub(removed.retained_bytes());
        proof {
            assert(self@.entries =~= before.entries.remove(index as int));
            lemma_position_of_bounds(before.entries, id@);
            if ids_distinct(before.entries) {
                lemma_removal_keeps_ids_distinct(before.entries, index as int);
            }
        }
        Ok(removed)
    }

    /// The identifiers staged so far, in registration order.
    pub fn ids(&self) -> (ids: Vec<&str>)
        ensures
            ids@.len() == self@.entries.len(),
            forall|i: int| 0 <= i < ids@.len() ==> (#[trigger] ids@[i])@ == self@.entries[i].spec_id(),
    {
        let mut ids: Vec<&str> = Vec::new();
        let mut i: usize = 0;
        while i < self.entries.len()
            invariant
                0 <= i <= self.entries@.len(),
                ids@.len() == i,
                forall|j: int| 0 <= j < i ==> (#[trigger] ids@[j])@ == (*self.entries@[j]).spec_id(),
            decreases self.entries@.len() - i,
        {
            let entry: &T = &self.entries[i];
            ids.push(entry.id());
            i = i + 1;
        }
        ids
    }
}

/// The content of one live registry.
pub struct RegistryView<T> {
    pub policy: Collision,
    pub current: SnapshotView<T>,
}

/// A live registry: one current generation, replaced whole.
pub struct Registry<T> {
    policy: Collision,
    current: RegistrySnapshot<T>,
}

impl<T> View for Registry<T> {
    type V = RegistryView<T>;

    closed spec fn view(&self) -> RegistryView<T> {
        RegistryView { policy: self.policy, current: self.current@ }
    }
}

impl<T: Registered> Registry<T> {
    /// An empty registry under `policy`.
    pub fn new(policy: Collision) -> (registry: Self)
        ensures
            registry@.policy == policy,
            registry@.current.entries.len() == 0,
            registry@.current.shadows.len() == 0,
            ids_distinct(registry@.current.entries),
    {
        Self { policy, current: RegistrySnapshot::empty() }
    }

    /// The collision policy every commit is checked under.
    pub fn policy(&self) -> (policy: Collision)
        ensures
            policy == self@.policy,
    {
        self.policy
    }

    /// The current generation.
    pub fn snapshot(&self) -> (snapshot: RegistrySnapshot<T>)
        ensures
            snapshot@ == self@.current,
    {
        self.current.copy()
    }

    /// Starts a transaction from the current generation.
    ///
    /// The commit is refused if another transaction lands first, so two
    /// writers cannot each build on a generation the other has replaced.
    pub fn stage(&self) -> (staged: Staged<T>)
        ensures
            staged@ == (StagedView {
                based_on: Some(self@.current.generation),
                policy: self@.policy,
                entries: self@.current.entries,
                shadows: self@.current.shadows,
                retained: retained_total(self@.current.entries),
            }),
    {
        self.current.stage(self.policy)
    }

    /// Starts a transaction from nothing: a reload, whose commit replaces
    /// every record whatever the current generation holds.
    pub fn replacing(&self) -> (staged: Staged<T>)
        ensures
            staged@ == (StagedView::<T> {
                based_on: None,
                policy: self@.policy,
                entries: Seq::empty(),
                shadows: Seq::empty(),
                retained: 0,
            }),
            ids_distinct(staged@.entries),
    {
        let staged = Staged {
            based_on: None,
            policy: self.policy,
            entries: Vec::new(),
            shadows: Vec::new(),
            retained: 0,
        };
        assert(staged@.entries =~= Seq::<T>::empty());
        assert(staged@.shadows =~= Seq::<ShadowView>::empty());
        staged
    }

    /// Makes a staged set the current generation, all at once: refused, with
    /// nothing changed, when the set was staged from a generation that is no
    /// longer current.
    pub fn commit(&mut self, staged: Staged<T>) -> (committed: Result<
        RegistrySnapshot<T>,
        RegistryError,
    >)
        ensures
            !commit_lands(old(self)@, staged@) ==> (committed matches Err(e) && e is Superseded
                && final(self)@ == old(self)@),
            committed matches Ok(next) ==> {
                &&& next@.entries == staged@.entries
                &&& next@.shadows == staged@.shadows
                &&& next@.generation.serial == next_serial(old(self)@.current.generation.serial)
                &&& final(self)@ == (RegistryView { current: next@, ..old(self)@ })
            },
            committed is Ok <==> commit_lands(old(self)@, staged@),
    {
        if let Some(based_on) = &staged.based_on {
            if !based_on.same_as(&self.current.generation) {
                return Err(RegistryError::Superseded);
            }
        }
        let serial = self.current.generation.serial.wrapping_add(1);
        let next = RegistrySnapshot {
            generation: RegistryGeneration::new(serial),
            entries: staged.entries,
            shadows: staged.shadows,
        };
        self.current = next.copy();
        Ok(next)
    }
}

/// A committed generation refuses every handle minted by the generation it
/// replaced: the handle names the old generation, and the new one is later
/// in the registry's sequence.
pub proof fn lemma_committed_generation_refuses_older_handles(
    before: GenerationView,
    after: GenerationView,
    handle: HandleView,
)
    requires
        before.serial < u64::MAX,
        after.serial == before.serial + 1,
        handle.generation == before,
    ensures
        handle.generation != after,
{
}


/// Whether a commit of `staged` lands on `registry`: a reload always does; a
/// transaction does only while the generation it was staged from is current.
pub open spec fn commit_lands<T>(registry: RegistryView<T>, staged: StagedView<T>) -> bool {
    match staged.based_on {
        Some(g) => g == registry.current.generation,
        None => true,
    }
}

/// The serial of the generation a commit makes after `serial`.
pub open spec fn next_serial(serial: u64) -> u64 {
    if serial == u64::MAX {
        0
    } else {
        (serial + 1) as u64
    }
}

/// A transaction staged from the current generation, and a reload, both
/// land; the generation a commit makes differs from the one it replaces; and
/// once a commit has replaced a generation, a transaction staged from it is
/// refused.
pub proof fn lemma_commit_lands_only_on_its_own_generation<T>(
    registry: RegistryView<T>,
    staged: StagedView<T>,
    later: RegistryView<T>,
)
    requires
        later.current.generation.serial == next_serial(registry.current.generation.serial),
    ensures
        staged.based_on == Some(registry.current.generation) ==> commit_lands(registry, staged),
        staged.based_on is None ==> commit_lands(registry, staged) && commit_lands(later, staged),
        next_serial(registry.current.generation.serial) != registry.current.generation.serial,
        staged.based_on == Some(registry.current.generation) ==> !commit_lands(later, staged),
{
}

} // verus!
