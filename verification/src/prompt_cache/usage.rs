//! Provider-neutral per-attempt token accounting.
//!
//! Provider protocols disagree about whether cache buckets are subsets of an
//! inclusive input total or disjoint values that must be added. Adapters make
//! that decision once at the wire boundary and hand the runner this shape.
//! Missing fields remain `None`; absence is never rewritten as zero.

use vstd::prelude::*;
use vstd::string::StringSliceAdditionalSpecFns;

use super::attempt::PromptCacheOutcome;
use super::capability::PromptCacheUsageReporting;
use crate::text::same_text;

verus! {

/// Maximum provider-labelled numeric details retained for one usage report.
pub const MAX_PROVIDER_USAGE_DETAILS: usize = 16;

/// Maximum bytes in one static provider detail label.
pub const MAX_PROVIDER_USAGE_DETAIL_LABEL_BYTES: usize = 64;

/// Why a provider usage report could not be normalized safely.
#[derive(Debug, Clone, Copy, PartialEq, Eq, Structural)]
pub enum UsageError {
    /// A subset was larger than its inclusive total.
    SubsetExceedsTotal,
    /// Disjoint or aggregate token counts overflowed `u64`.
    Overflow,
    /// A reported aggregate contradicted its known components.
    ContradictoryTotal,
    /// More diagnostic numeric fields arrived than the retained bound.
    TooManyDetails,
    /// A detail label was empty, unbounded, or not a safe static identifier.
    InvalidDetailLabel,
}

impl UsageError {
    /// The diagnostic sentence.
    pub fn message(&self) -> (text: &'static str)
        ensures
            text@ == match *self {
                UsageError::SubsetExceedsTotal => "a prompt-cache usage subset exceeded its inclusive input total"@,
                UsageError::Overflow => "prompt-cache usage token arithmetic overflowed"@,
                UsageError::ContradictoryTotal => "provider usage total contradicted its known input/output components"@,
                UsageError::TooManyDetails => "provider usage reported too many numeric detail fields"@,
                UsageError::InvalidDetailLabel => "provider usage detail label was invalid"@,
            },
    {
        match self {
            Self::SubsetExceedsTotal =>
                "a prompt-cache usage subset exceeded its inclusive input total",
            Self::Overflow => "prompt-cache usage token arithmetic overflowed",
            Self::ContradictoryTotal =>
                "provider usage total contradicted its known input/output components",
            Self::TooManyDetails => "provider usage reported too many numeric detail fields",
            Self::InvalidDetailLabel => "provider usage detail label was invalid",
        }
    }
}

/// Normalized input-token categories for one provider attempt.
#[derive(Debug, Clone, Copy, PartialEq, Eq, Structural)]
pub struct InputTokenUsage {
    /// Complete provider-visible input occupying the context window.
    pub total: Option<u64>,
    /// Input not served from a cache, where derivable or reported.
    pub uncached: Option<u64>,
    /// Provider-reported cache-read input.
    pub cache_read: Option<u64>,
    /// Provider-reported cache creation/write input.
    pub cache_write_or_creation: Option<u64>,
}

/// An inclusive total less its subsets: refused when a subset alone exceeds
/// the total, when the subsets overflow together, or when they exceed it
/// together; unknown unless every part is known.
pub open spec fn subtracted_subsets(total: Option<u64>, read: Option<u64>, write: Option<u64>) -> Result<
    Option<u64>,
    UsageError,
> {
    if total is Some && ((read is Some && read->0 > total->0) || (write is Some && write->0
        > total->0)) {
        Err(UsageError::SubsetExceedsTotal)
    } else if total is Some && read is Some && write is Some {
        if read->0 + write->0 > u64::MAX {
            Err(UsageError::Overflow)
        } else if read->0 + write->0 > total->0 {
            Err(UsageError::SubsetExceedsTotal)
        } else {
            Ok(Some((total->0 - read->0 - write->0) as u64))
        }
    } else {
        Ok(None)
    }
}

/// The outcome a usage report shows under a reporting contract: positive
/// reported activity first, then reported zeros in every field the contract
/// promises, else nothing reported.
pub open spec fn reported_outcome(usage: InputTokenUsage, reporting: PromptCacheUsageReporting) -> PromptCacheOutcome {
    let read = usage.cache_read;
    let write = usage.cache_write_or_creation;
    let read_active = read is Some && read->0 > 0;
    let write_active = write is Some && write->0 > 0;
    if read_active && write_active {
        PromptCacheOutcome::ReadAndWrite
    } else if read_active {
        PromptCacheOutcome::Read
    } else if write_active {
        PromptCacheOutcome::Write
    } else if match reporting {
        PromptCacheUsageReporting::NoDetail => false,
        PromptCacheUsageReporting::ReadTokens => read == Some(0u64),
        PromptCacheUsageReporting::ReadAndWriteTokens => read == Some(0u64) && write == Some(0u64),
    } {
        PromptCacheOutcome::NoActivity
    } else {
        PromptCacheOutcome::Unreported
    }
}

fn is_active(tokens: Option<u64>) -> (active: bool)
    ensures
        active == (tokens is Some && tokens->0 > 0),
{
    match tokens {
        Some(count) => count > 0,
        None => false,
    }
}

fn is_zero(tokens: Option<u64>) -> (zero: bool)
    ensures
        zero == (tokens == Some(0u64)),
{
    match tokens {
        Some(count) => count == 0,
        None => false,
    }
}

fn subtract_subsets(total: Option<u64>, read: Option<u64>, write: Option<u64>) -> (uncached: Result<
    Option<u64>,
    UsageError,
>)
    ensures
        uncached == subtracted_subsets(total, read, write),
{
    if let Some(total) = total {
        let read_over = match read {
            Some(read) => read > total,
            None => false,
        };
        let write_over = match write {
            Some(write) => write > total,
            None => false,
        };
        if read_over || write_over {
            return Err(UsageError::SubsetExceedsTotal);
        }
    }
    match (total, read, write) {
        (Some(total), Some(read), Some(write)) => {
            let cached = match read.checked_add(write) {
                Some(cached) => cached,
                None => {
                    return Err(UsageError::Overflow);
                },
            };
            match total.checked_sub(cached) {
                Some(uncached) => Ok(Some(uncached)),
                None => Err(UsageError::SubsetExceedsTotal),
            }
        },
        _ => Ok(None),
    }
}

impl InputTokenUsage {
    /// No input fields were reported.
    pub fn unknown() -> (usage: Self)
        ensures
            usage == (InputTokenUsage {
                total: None,
                uncached: None,
                cache_read: None,
                cache_write_or_creation: None,
            }),
    {
        Self { total: None, uncached: None, cache_read: None, cache_write_or_creation: None }
    }

    /// An inclusive total with a documented cached-read subset.
    ///
    /// Used by protocols where cached tokens are part of the prompt total, not
    /// a second quantity to add. When the subset is absent, uncached input
    /// stays unknown.
    pub fn inclusive_read(total: Option<u64>, read: Option<u64>) -> (usage: Result<
        Self,
        UsageError,
    >)
        ensures
            usage is Err <==> (total is Some && read is Some && read->0 > total->0),
            usage is Err ==> usage == Err::<Self, _>(UsageError::SubsetExceedsTotal),
            usage matches Ok(u) ==> u == (InputTokenUsage {
                total,
                uncached: if total is Some && read is Some {
                    Some((total->0 - read->0) as u64)
                } else {
                    None
                },
                cache_read: read,
                cache_write_or_creation: None,
            }),
    {
        let uncached = match (total, read) {
            (Some(total), Some(read)) => match total.checked_sub(read) {
                Some(uncached) => Some(uncached),
                None => {
                    return Err(UsageError::SubsetExceedsTotal);
                },
            },
            _ => None,
        };
        Ok(Self { total, uncached, cache_read: read, cache_write_or_creation: None })
    }

    /// An inclusive total with documented read and write/creation subsets.
    pub fn inclusive_read_write(total: Option<u64>, read: Option<u64>, write: Option<u64>) -> (usage:
        Result<Self, UsageError>)
        ensures
            match subtracted_subsets(total, read, write) {
                Ok(uncached) => usage == Ok::<Self, UsageError>(
                    InputTokenUsage { total, uncached, cache_read: read, cache_write_or_creation: write },
                ),
                Err(e) => usage == Err::<Self, UsageError>(e),
            },
    {
        let uncached = match subtract_subsets(total, read, write) {
            Ok(uncached) => uncached,
            Err(e) => {
                return Err(e);
            },
        };
        Ok(Self { total, uncached, cache_read: read, cache_write_or_creation: write })
    }

    /// Disjoint uncached, read, and write/creation buckets.
    ///
    /// A total is derived only when every bucket is present. A missing cache
    /// field is unknown, not a reported zero.
    pub fn disjoint(uncached: Option<u64>, read: Option<u64>, write: Option<u64>) -> (usage: Result<
        Self,
        UsageError,
    >)
        ensures
            usage is Err <==> (uncached is Some && read is Some && write is Some && uncached->0
                + read->0 + write->0 > u64::MAX),
            usage is Err ==> usage == Err::<Self, _>(UsageError::Overflow),
            usage matches Ok(u) ==> u == (InputTokenUsage {
                total: if uncached is Some && read is Some && write is Some {
                    Some((uncached->0 + read->0 + write->0) as u64)
                } else {
                    None
                },
                uncached,
                cache_read: read,
                cache_write_or_creation: write,
            }),
    {
        let total = match (uncached, read, write) {
            (Some(uncached), Some(read), Some(write)) => {
                let partial = match uncached.checked_add(read) {
                    Some(partial) => partial,
                    None => {
                        return Err(UsageError::Overflow);
                    },
                };
                match partial.checked_add(write) {
                    Some(total) => Some(total),
                    None => {
                        return Err(UsageError::Overflow);
                    },
                }
            },
            _ => None,
        };
        Ok(Self { total, uncached, cache_read: read, cache_write_or_creation: write })
    }

    /// Provider-reported outcome under the capability's reporting contract.
    pub fn outcome(self, reporting: PromptCacheUsageReporting) -> (outcome: PromptCacheOutcome)
        ensures
            outcome == reported_outcome(self, reporting),
    {
        let read = self.cache_read;
        let write = self.cache_write_or_creation;
        if is_active(read) && is_active(write) {
            return PromptCacheOutcome::ReadAndWrite;
        }
        if is_active(read) {
            return PromptCacheOutcome::Read;
        }
        if is_active(write) {
            return PromptCacheOutcome::Write;
        }
        let complete_zero = match reporting {
            PromptCacheUsageReporting::NoDetail => false,
            PromptCacheUsageReporting::ReadTokens => is_zero(read),
            PromptCacheUsageReporting::ReadAndWriteTokens => is_zero(read) && is_zero(write),
        };
        if complete_zero {
            PromptCacheOutcome::NoActivity
        } else {
            PromptCacheOutcome::Unreported
        }
    }
}

impl Default for InputTokenUsage {
    fn default() -> (usage: Self)
        ensures
            usage == (InputTokenUsage {
                total: None,
                uncached: None,
                cache_read: None,
                cache_write_or_creation: None,
            }),
    {
        Self::unknown()
    }
}

/// Cache activity is read only off what the provider reported: with neither
/// cache field reported the outcome is unreported, never a zero, and any
/// reported activity shows whatever the reporting contract.
pub proof fn lemma_outcome_comes_only_from_reported_fields(
    usage: InputTokenUsage,
    reporting: PromptCacheUsageReporting,
)
    ensures
        usage.cache_read is None && usage.cache_write_or_creation is None ==> reported_outcome(
            usage,
            reporting,
        ) == PromptCacheOutcome::Unreported,
        reported_outcome(usage, reporting) == PromptCacheOutcome::NoActivity
            ==> reporting != PromptCacheUsageReporting::NoDetail && usage.cache_read == Some(0u64),
        (reported_outcome(usage, reporting) is Read || reported_outcome(usage, reporting)
            is ReadAndWrite) ==> usage.cache_read is Some && usage.cache_read->0 > 0,
        (reported_outcome(usage, reporting) is Write || reported_outcome(usage, reporting)
            is ReadAndWrite) ==> usage.cache_write_or_creation is Some
            && usage.cache_write_or_creation->0 > 0,
{
}

/// An inclusive total splits exactly into its uncached part and its cached
/// subsets, and a disjoint report adds its buckets into one total.
pub proof fn lemma_inclusive_and_disjoint_totals_agree(
    total: Option<u64>,
    read: Option<u64>,
    write: Option<u64>,
)
    ensures
        subtracted_subsets(total, read, write) matches Ok(Some(uncached)) ==> uncached + read->0
            + write->0 == total->0,
        subtracted_subsets(total, read, write) matches Ok(None) ==> total is None || read is None
            || write is None,
{
}

/// Whether a byte may appear in a provider detail label.
pub open spec fn detail_label_byte(b: u8) -> bool {
    (0x61 <= b <= 0x7a) || (0x30 <= b <= 0x39) || b == 0x5f
}

/// A safe detail label: 1 to 64 bytes of lowercase ASCII letters, digits and `_`.
pub open spec fn valid_detail_label(label: Seq<u8>) -> bool {
    &&& 0 < label.len() <= MAX_PROVIDER_USAGE_DETAIL_LABEL_BYTES
    &&& forall|i: int| 0 <= i < label.len() ==> detail_label_byte(#[trigger] label[i])
}

fn is_detail_label_byte(b: u8) -> (ok: bool)
    ensures
        ok == detail_label_byte(b),
{
    (0x61 <= b && b <= 0x7a) || (0x30 <= b && b <= 0x39) || b == 0x5f
}

fn detail_label_ok(label: &str) -> (ok: bool)
    ensures
        ok == valid_detail_label(label.spec_bytes()),
{
    let raw = label.as_bytes();
    let n = raw.len();
    if n == 0 || n > MAX_PROVIDER_USAGE_DETAIL_LABEL_BYTES {
        return false;
    }
    let mut i: usize = 0;
    while i < n
        invariant
            raw@ == label.spec_bytes(),
            n == raw@.len(),
            0 <= i <= n,
            forall|j: int| 0 <= j < i ==> detail_label_byte(#[trigger] raw@[j]),
        decreases n - i,
    {
        if !is_detail_label_byte(raw[i]) {
            assert(!detail_label_byte(label.spec_bytes()[i as int]));
            return false;
        }
        i = i + 1;
    }
    true
}

/// One bounded, provider-labelled numeric explanation field.
#[derive(Debug, Clone, Copy, PartialEq, Eq)]
pub struct ProviderNumericDetail {
    /// Static adapter-owned label, never provider-controlled response text.
    pub label: &'static str,
    /// Reported numeric value.
    pub value: u64,
}

impl ProviderNumericDetail {
    /// Validates a static detail label before retaining it.
    pub fn new(label: &'static str, value: u64) -> (detail: Result<Self, UsageError>)
        ensures
            detail is Ok <==> valid_detail_label(label.spec_bytes()),
            detail matches Ok(d) ==> d.label == label && d.value == value,
            detail is Err ==> detail == Err::<Self, _>(UsageError::InvalidDetailLabel),
    {
        if !detail_label_ok(label) {
            return Err(UsageError::InvalidDetailLabel);
        }
        Ok(Self { label, value })
    }
}

/// The content of one normalized usage report.
pub struct UsageView {
    pub input: InputTokenUsage,
    pub output: Option<u64>,
    pub reasoning: Option<u64>,
    pub total: Option<u64>,
    pub storage_token_hours: Option<u64>,
    pub details: Seq<ProviderNumericDetail>,
}

/// Whether every detail carries a safe label.
pub open spec fn details_valid(details: Seq<ProviderNumericDetail>) -> bool {
    forall|i: int| 0 <= i < details.len() ==> valid_detail_label((#[trigger] details[i]).label.spec_bytes())
}

/// The checks one usage report must pass, in order, and the report it makes:
/// the detail bound, each label, reasoning within output, a derivable total
/// that fits, a reported total equal to the derived one and no smaller than
/// either component. The total is the reported one, else the derived one.
pub open spec fn checked_usage(
    input: InputTokenUsage,
    output: Option<u64>,
    reasoning: Option<u64>,
    reported_total: Option<u64>,
    details: Seq<ProviderNumericDetail>,
) -> Result<UsageView, UsageError> {
    if details.len() > MAX_PROVIDER_USAGE_DETAILS {
        Err(UsageError::TooManyDetails)
    } else if !details_valid(details) {
        Err(UsageError::InvalidDetailLabel)
    } else if reasoning is Some && output is Some && reasoning->0 > output->0 {
        Err(UsageError::SubsetExceedsTotal)
    } else if input.total is Some && output is Some && input.total->0 + output->0 > u64::MAX {
        Err(UsageError::Overflow)
    } else {
        let derived: Option<u64> = if input.total is Some && output is Some {
            Some((input.total->0 + output->0) as u64)
        } else {
            None
        };
        if reported_total is Some && derived is Some && reported_total->0 != derived->0 {
            Err(UsageError::ContradictoryTotal)
        } else if reported_total is Some && ((input.total is Some && input.total->0
            > reported_total->0) || (output is Some && output->0 > reported_total->0)) {
            Err(UsageError::ContradictoryTotal)
        } else {
            Ok(
                UsageView {
                    input,
                    output,
                    reasoning,
                    total: if reported_total is Some {
                        reported_total
                    } else {
                        derived
                    },
                    storage_token_hours: None,
                    details,
                },
            )
        }
    }
}

/// The first position in `details` whose label spells `label`, if any.
pub open spec fn label_position(details: Seq<ProviderNumericDetail>, label: Seq<char>) -> Option<int>
    decreases details.len(),
{
    if details.len() == 0 {
        None
    } else if details[0].label@ == label {
        Some(0)
    } else {
        match label_position(details.drop_first(), label) {
            Some(i) => Some(i + 1),
            None => None,
        }
    }
}

/// `details` with `detail` replacing the first one of its label, or appended.
pub open spec fn upserted(details: Seq<ProviderNumericDetail>, detail: ProviderNumericDetail) -> Seq<
    ProviderNumericDetail,
> {
    match label_position(details, detail.label@) {
        Some(i) => details.update(i, detail),
        None => details.push(detail),
    }
}

/// Older details with each newer one applied in order.
pub open spec fn merged_details(
    older: Seq<ProviderNumericDetail>,
    newer: Seq<ProviderNumericDetail>,
) -> Seq<ProviderNumericDetail>
    decreases newer.len(),
{
    if newer.len() == 0 {
        older
    } else {
        upserted(merged_details(older, newer.drop_last()), newer.last())
    }
}

/// A newer value where one was reported, else the older one.
pub open spec fn newer_or(newer: Option<u64>, older: Option<u64>) -> Option<u64> {
    if newer is Some {
        newer
    } else {
        older
    }
}

proof fn lemma_label_position_bounds(details: Seq<ProviderNumericDetail>, label: Seq<char>)
    ensures
        label_position(details, label) matches Some(i) ==> 0 <= i < details.len()
            && details[i].label@ == label && forall|j: int|
            0 <= j < i ==> (#[trigger] details[j]).label@ != label,
        label_position(details, label) is None ==> forall|j: int|
            0 <= j < details.len() ==> (#[trigger] details[j]).label@ != label,
    decreases details.len(),
{
    if details.len() > 0 {
        lemma_label_position_bounds(details.drop_first(), label);
        assert forall|j: int| 1 <= j < details.len() implies details[j] == details.drop_first()[j
            - 1] by {}
    }
}

fn find_label(details: &Vec<ProviderNumericDetail>, label: &'static str) -> (found: Option<usize>)
    ensures
        match found {
            Some(i) => label_position(details@, label@) == Some(i as int),
            None => label_position(details@, label@) is None,
        },
{
    proof {
        lemma_label_position_bounds(details@, label@);
    }
    let mut i: usize = 0;
    while i < details.len()
        invariant
            0 <= i <= details@.len(),
            forall|j: int| 0 <= j < i ==> (#[trigger] details@[j]).label@ != label@,
        decreases details@.len() - i,
    {
        if same_text(details[i].label, label) {
            proof {
                lemma_first_position(details@, label@, i as int);
            }
            return Some(i);
        }
        i = i + 1;
    }
    proof {
        lemma_no_position(details@, label@);
    }
    None
}

proof fn lemma_first_position(details: Seq<ProviderNumericDetail>, label: Seq<char>, i: int)
    requires
        0 <= i < details.len(),
        details[i].label@ == label,
        forall|j: int| 0 <= j < i ==> (#[trigger] details[j]).label@ != label,
    ensures
        label_position(details, label) == Some(i),
    decreases i,
{
    if i > 0 {
        let rest = details.drop_first();
        assert forall|j: int| 0 <= j < i - 1 implies (#[trigger] rest[j]).label@ != label by {
            assert(rest[j] == details[j + 1]);
        }
        lemma_first_position(rest, label, i - 1);
    }
}

proof fn lemma_no_position(details: Seq<ProviderNumericDetail>, label: Seq<char>)
    requires
        forall|j: int| 0 <= j < details.len() ==> (#[trigger] details[j]).label@ != label,
    ensures
        label_position(details, label) is None,
    decreases details.len(),
{
    if details.len() > 0 {
        let rest = details.drop_first();
        assert forall|j: int| 0 <= j < rest.len() implies (#[trigger] rest[j]).label@ != label by {
            assert(rest[j] == details[j + 1]);
        }
        lemma_no_position(rest, label);
    }
}

fn copy_details(details: &[ProviderNumericDetail]) -> (out: Vec<ProviderNumericDetail>)
    ensures
        out@ == details@,
{
    let mut out: Vec<ProviderNumericDetail> = Vec::new();
    let mut i: usize = 0;
    while i < details.len()
        invariant
            0 <= i <= details@.len(),
            out@ == details@.take(i as int),
        decreases details@.len() - i,
    {
        out.push(details[i]);
        assert(details@.take(i + 1) =~= details@.take(i as int).push(details@[i as int]));
        i = i + 1;
    }
    assert(details@.take(details@.len() as int) =~= details@);
    out
}

/// Normalized usage for one provider response/attempt.
#[derive(Debug, Clone, PartialEq, Eq)]
pub struct ProviderUsage {
    /// Provider-visible input categories.
    pub input: InputTokenUsage,
    /// Generated output tokens, where reported.
    pub output: Option<u64>,
    /// Reasoning tokens, where separately reported. This is ordinarily a
    /// subset of output and is never added a second time.
    pub reasoning: Option<u64>,
    /// Complete input plus output, where reported or safely derivable.
    pub total: Option<u64>,
    /// Persistent cached-content storage in whole token-hours, where the
    /// provider reports it or an adapter can derive it without rounding.
    pub storage_token_hours: Option<u64>,
    details: Vec<ProviderNumericDetail>,
}

impl View for ProviderUsage {
    type V = UsageView;

    closed spec fn view(&self) -> UsageView {
        UsageView {
            input: self.input,
            output: self.output,
            reasoning: self.reasoning,
            total: self.total,
            storage_token_hours: self.storage_token_hours,
            details: self.details@,
        }
    }
}

/// The result of a usage construction, taken by its view.
pub open spec fn usage_result_view(result: Result<ProviderUsage, UsageError>) -> Result<
    UsageView,
    UsageError,
> {
    match result {
        Ok(u) => Ok(u@),
        Err(e) => Err(e),
    }
}

impl ProviderUsage {
    /// A partial or complete normalized report.
    pub fn new(
        input: InputTokenUsage,
        output: Option<u64>,
        reasoning: Option<u64>,
        reported_total: Option<u64>,
        details: &[ProviderNumericDetail],
    ) -> (usage: Result<Self, UsageError>)
        ensures
            usage_result_view(usage) == checked_usage(
                input,
                output,
                reasoning,
                reported_total,
                details@,
            ),
    {
        if details.len() > MAX_PROVIDER_USAGE_DETAILS {
            return Err(UsageError::TooManyDetails);
        }
        let mut i: usize = 0;
        while i < details.len()
            invariant
                0 <= i <= details@.len(),
                details@.len() <= MAX_PROVIDER_USAGE_DETAILS,
                forall|j: int|
                    0 <= j < i ==> valid_detail_label((#[trigger] details@[j]).label.spec_bytes()),
            decreases details@.len() - i,
        {
            if ProviderNumericDetail::new(details[i].label, details[i].value).is_err() {
                assert(!valid_detail_label(details@[i as int].label.spec_bytes()));
                assert(!details_valid(details@));
                return Err(UsageError::InvalidDetailLabel);
            }
            i = i + 1;
        }
        if let (Some(reasoning), Some(output)) = (reasoning, output) {
            if reasoning > output {
                return Err(UsageError::SubsetExceedsTotal);
            }
        }
        let derived = match (input.total, output) {
            (Some(input), Some(output)) => match input.checked_add(output) {
                Some(sum) => Some(sum),
                None => {
                    return Err(UsageError::Overflow);
                },
            },
            _ => None,
        };
        if let (Some(reported), Some(derived)) = (reported_total, derived) {
            if reported != derived {
                return Err(UsageError::ContradictoryTotal);
            }
        }
        if let Some(reported) = reported_total {
            let input_over = match input.total {
                Some(input) => input > reported,
                None => false,
            };
            let output_over = match output {
                Some(output) => output > reported,
                None => false,
            };
            if input_over || output_over {
                return Err(UsageError::ContradictoryTotal);
            }
        }
        let total = match reported_total {
            Some(reported) => Some(reported),
            None => derived,
        };
        Ok(
            Self {
                input,
                output,
                reasoning,
                total,
                storage_token_hours: None,
                details: copy_details(details),
            },
        )
    }

    /// Reported input categories.
    pub(crate) fn input_categories(&self) -> (input: InputTokenUsage)
        ensures
            input == self@.input,
    {
        self.input
    }

    /// Reported output tokens.
    pub(crate) fn output_tokens(&self) -> (output: Option<u64>)
        ensures
            output == self@.output,
    {
        self.output
    }

    /// Reported reasoning tokens.
    pub(crate) fn reasoning_tokens(&self) -> (reasoning: Option<u64>)
        ensures
            reasoning == self@.reasoning,
    {
        self.reasoning
    }

    /// Reported storage token-hours.
    pub(crate) fn storage_hours(&self) -> (hours: Option<u64>)
        ensures
            hours == self@.storage_token_hours,
    {
        self.storage_token_hours
    }

    /// Adds a documented whole-token-hour storage quantity.
    pub fn with_storage_token_hours(self, token_hours: u64) -> (usage: Self)
        ensures
            usage@ == (UsageView { storage_token_hours: Some(token_hours), ..self@ }),
    {
        let mut usage = self;
        usage.storage_token_hours = Some(token_hours);
        usage
    }

    /// Provider-labelled numeric fields retained under the fixed bound.
    pub fn details(&self) -> (details: &[ProviderNumericDetail])
        ensures
            details@ == self@.details,
    {
        self.details.as_slice()
    }

    /// Combines partial reports from one attempt, with newly reported fields
    /// replacing prior levels and absent fields preserving what was known.
    pub fn merged(&self, newer: &Self) -> (merged: Result<Self, UsageError>)
        ensures
            usage_result_view(merged) == match checked_usage(
                InputTokenUsage {
                    total: newer_or(newer@.input.total, self@.input.total),
                    uncached: newer_or(newer@.input.uncached, self@.input.uncached),
                    cache_read: newer_or(newer@.input.cache_read, self@.input.cache_read),
                    cache_write_or_creation: newer_or(
                        newer@.input.cache_write_or_creation,
                        self@.input.cache_write_or_creation,
                    ),
                },
                newer_or(newer@.output, self@.output),
                newer_or(newer@.reasoning, self@.reasoning),
                newer_or(newer@.total, self@.total),
                merged_details(self@.details, newer@.details),
            ) {
                Ok(view) => Ok(
                    UsageView {
                        storage_token_hours: newer_or(
                            newer@.storage_token_hours,
                            self@.storage_token_hours,
                        ),
                        ..view
                    },
                ),
                Err(e) => Err(e),
            },
    {
        let input = InputTokenUsage {
            total: match newer.input.total {
                Some(v) => Some(v),
                None => self.input.total,
            },
            uncached: match newer.input.uncached {
                Some(v) => Some(v),
                None => self.input.uncached,
            },
            cache_read: match newer.input.cache_read {
                Some(v) => Some(v),
                None => self.input.cache_read,
            },
            cache_write_or_creation: match newer.input.cache_write_or_creation {
                Some(v) => Some(v),
                None => self.input.cache_write_or_creation,
            },
        };
        let mut details = copy_details(self.details.as_slice());
        let mut i: usize = 0;
        while i < newer.details.len()
            invariant
                0 <= i <= newer.details@.len(),
                details@ == merged_details(self.details@, newer.details@.take(i as int)),
            decreases newer.details@.len() - i,
        {
            let detail = newer.details[i];
            assert(newer.details@.take(i + 1).drop_last() =~= newer.details@.take(i as int));
            assert(newer.details@.take(i + 1).last() == detail);
            match find_label(&details, detail.label) {
                Some(at) => {
                    proof {
                        lemma_label_position_bounds(details@, detail.label@);
                    }
                    details.set(at, detail);
                },
                None => {
                    details.push(detail);
                },
            }
            i = i + 1;
        }
        assert(newer.details@.take(newer.details@.len() as int) =~= newer.details@);
        let output = match newer.output {
            Some(v) => Some(v),
            None => self.output,
        };
        let reasoning = match newer.reasoning {
            Some(v) => Some(v),
            None => self.reasoning,
        };
        let total = match newer.total {
            Some(v) => Some(v),
            None => self.total,
        };
        let storage = match newer.storage_token_hours {
            Some(v) => Some(v),
            None => self.storage_token_hours,
        };
        match Self::new(input, output, reasoning, total, details.as_slice()) {
            Ok(made) => {
                let mut merged = made;
                merged.storage_token_hours = storage;
                Ok(merged)
            },
            Err(e) => Err(e),
        }
    }
}


/// The outcome names exactly the reported activity: it is a read outcome
/// (`Read` or `ReadAndWrite`) exactly when a positive cache read was
/// reported, a write outcome (`Write` or `ReadAndWrite`) exactly when a
/// positive cache write was reported, whatever the reporting contract; and it
/// claims no activity only where neither was reported positive.
pub proof fn lemma_outcome_names_the_reported_activity(
    usage: InputTokenUsage,
    reporting: PromptCacheUsageReporting,
)
    ensures
        ({
            let outcome = reported_outcome(usage, reporting);
            let read_active = usage.cache_read is Some && usage.cache_read->0 > 0;
            let write_active = usage.cache_write_or_creation is Some
                && usage.cache_write_or_creation->0 > 0;
            &&& (outcome == PromptCacheOutcome::Read || outcome == PromptCacheOutcome::ReadAndWrite)
                <==> read_active
            &&& (outcome == PromptCacheOutcome::Write || outcome == PromptCacheOutcome::ReadAndWrite)
                <==> write_active
            &&& outcome == PromptCacheOutcome::NoActivity ==> !read_active && !write_active
        }),
{
}

} // verus!
