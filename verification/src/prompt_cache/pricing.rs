//! Versioned provider/model pricing and exact unknown-preserving cost accounting.

use vstd::prelude::*;
use vstd::string::StringSliceAdditionalSpecFns;

use super::capability::PromptCacheRetentionClass;
use super::usage::{ProviderUsage, UsageView};
use crate::text::same_text;

verus! {

/// Whether `code` is three uppercase ASCII letters.
pub open spec fn valid_currency_code(code: Seq<u8>) -> bool {
    &&& code.len() == 3
    &&& forall|i: int| 0 <= i < 3 ==> 0x41 <= #[trigger] code[i] <= 0x5a
}

/// ISO-4217-style currency code compiled into a reviewed pricing record.
#[derive(Debug, Clone, Copy, PartialEq, Eq)]
pub struct PricingCurrency(&'static str);

impl PricingCurrency {
    /// The currency code's text.
    pub closed spec fn code(self) -> Seq<char> {
        self.0@
    }

    /// Creates one static three-letter uppercase currency code.
    pub fn new(code: &'static str) -> (currency: Self)
        requires
            valid_currency_code(code.spec_bytes()),
        ensures
            currency.code() == code@,
    {
        Self(code)
    }

    /// Canonical currency code.
    pub fn as_str(self) -> (code: &'static str)
        ensures
            code@ == self.code(),
    {
        self.0
    }

    fn same(self, other: Self) -> (same: bool)
        ensures
            same == (self.code() == other.code()),
    {
        same_text(self.0, other.0)
    }
}

/// Unit in which a published rate is stated.
#[derive(Debug, Clone, Copy, PartialEq, Eq, Structural)]
pub enum PricingUnit {
    /// Per one million tokens.
    MillionTokens,
    /// Per one million token-hours of retained storage.
    MillionTokenHours,
    /// A monetary total assembled from rates published in multiple units.
    Mixed,
}

/// Whether `year` is a Gregorian leap year.
pub open spec fn is_leap_year(year: int) -> bool {
    year % 400 == 0 || (year % 4 == 0 && year % 100 != 0)
}

/// Days in one month of one Gregorian year; zero for a month that does not exist.
pub open spec fn month_length(year: int, month: int) -> int {
    if month == 1 || month == 3 || month == 5 || month == 7 || month == 8 || month == 10 || month
        == 12 {
        31
    } else if month == 4 || month == 6 || month == 9 || month == 11 {
        30
    } else if month == 2 {
        if is_leap_year(year) {
            29
        } else {
            28
        }
    } else {
        0
    }
}

/// Days in one Gregorian year.
pub open spec fn year_length(year: int) -> int {
    if is_leap_year(year) {
        366
    } else {
        365
    }
}

/// A date that pricing metadata can carry: years 1970 to 9999 of the
/// Gregorian calendar.
pub open spec fn valid_date(year: int, month: int, day: int) -> bool {
    &&& 1970 <= year <= 9999
    &&& 1 <= month <= 12
    &&& 1 <= day <= month_length(year, month)
}

/// The year holding the day `days` days after the first of `year`, and the
/// day's offset within that year.
pub open spec fn walk_years(year: int, days: int) -> (int, int)
    decreases days,
{
    if days < 0 || days < year_length(year) {
        (year, days)
    } else {
        walk_years(year + 1, days - year_length(year))
    }
}

/// The month holding the day `days` days after the first of `month`, and the
/// day's offset within that month.
pub open spec fn walk_months(year: int, month: int, days: int) -> (int, int)
    decreases 12 - month,
{
    if month >= 12 || days < month_length(year, month) {
        (month, days)
    } else {
        walk_months(year, month + 1, days - month_length(year, month))
    }
}

/// Days from 1970-01-01 to 9600-01-01.
pub open spec fn days_to_9600() -> int {
    2786800
}

/// Days from 1970-01-01 to 10000-01-01.
pub open spec fn days_to_10000() -> int {
    2932897
}

/// Days in one 400-year Gregorian cycle.
pub open spec fn days_per_cycle() -> int {
    146097
}

/// The year, month and day the pricing calendar gives a count of days since
/// 1970-01-01: the civil date while it falls before the year 10000; beyond,
/// the year is held at 9999 and the month and day are those of the day at the
/// same place in the 400-year Gregorian cycle.
pub open spec fn unix_day_date(days: int) -> (int, int, int) {
    if days < days_to_10000() {
        let (year, offset) = walk_years(1970, days);
        let (month, day) = walk_months(year, 1, offset);
        (year, month, day + 1)
    } else {
        let (year, offset) = walk_years(9600, (days - days_to_9600()) % days_per_cycle());
        let (month, day) = walk_months(year, 1, offset);
        (9999, month, day + 1)
    }
}

/// The content of one date.
pub struct DateView {
    pub year: u16,
    pub month: u8,
    pub day: u8,
}

/// Calendar date used for effective pricing selection.
#[derive(Debug, Clone, Copy, PartialEq, Eq, PartialOrd, Ord, Structural)]
pub struct PricingDate {
    year: u16,
    month: u8,
    day: u8,
}

impl View for PricingDate {
    type V = DateView;

    closed spec fn view(&self) -> DateView {
        DateView { year: self.year, month: self.month, day: self.day }
    }
}

/// Whether `a` falls strictly before `b`.
pub open spec fn date_before(a: DateView, b: DateView) -> bool {
    a.year < b.year || (a.year == b.year && (a.month < b.month || (a.month == b.month && a.day
        < b.day)))
}

fn year_length_exec(year: u32) -> (length: u32)
    ensures
        length == year_length(year as int),
{
    if year % 400 == 0 || (year % 4 == 0 && year % 100 != 0) {
        366
    } else {
        365
    }
}

fn month_length_exec(year: u32, month: u32) -> (length: u32)
    ensures
        length == month_length(year as int, month as int),
{
    if month == 1 || month == 3 || month == 5 || month == 7 || month == 8 || month == 10 || month
        == 12 {
        31
    } else if month == 4 || month == 6 || month == 9 || month == 11 {
        30
    } else if month == 2 {
        if year % 400 == 0 || (year % 4 == 0 && year % 100 != 0) {
            29
        } else {
            28
        }
    } else {
        0
    }
}

proof fn lemma_walk_years_bounds(year: int, days: int)
    requires
        days >= 0,
    ensures
        walk_years(year, days).0 >= year,
        0 <= walk_years(year, days).1 < year_length(walk_years(year, days).0),
    decreases days,
{
    if days >= year_length(year) {
        lemma_walk_years_bounds(year + 1, days - year_length(year));
    }
}

proof fn lemma_walk_months_bounds(year: int, month: int, days: int)
    requires
        1 <= month <= 12,
        0 <= days,
        days < year_length(year) - days_before_month(year, month),
    ensures
        month <= walk_months(year, month, days).0 <= 12,
        0 <= walk_months(year, month, days).1 < month_length(year, walk_months(year, month, days).0),
    decreases 12 - month,
{
    lemma_december_start(year);
    if month < 12 && days >= month_length(year, month) {
        lemma_walk_months_bounds(year, month + 1, days - month_length(year, month));
    }
}

/// Days in the months of `year` before `month`.
pub open spec fn days_before_month(year: int, month: int) -> int
    decreases month,
{
    if month <= 1 {
        0
    } else {
        days_before_month(year, month - 1) + month_length(year, month - 1)
    }
}

proof fn lemma_december_start(year: int)
    ensures
        year_length(year) - days_before_month(year, 12) == 31,
{
    reveal_with_fuel(days_before_month, 12);
}

/// Days in the years from `from` up to, not including, `to`.
pub open spec fn days_between(from: int, to: int) -> int
    decreases to - from,
{
    if from >= to {
        0
    } else {
        year_length(from) + days_between(from + 1, to)
    }
}

/// Leap years from year 1 through `year`.
pub open spec fn leaps_through(year: int) -> int {
    year / 4 - year / 100 + year / 400
}

#[verifier::spinoff_prover]
proof fn lemma_leap_step(year: int)
    requires
        year >= 1,
    ensures
        leaps_through(year) - leaps_through(year - 1) == if is_leap_year(year) {
            1int
        } else {
            0int
        },
{
}

proof fn lemma_days_between(from: int, to: int)
    requires
        1 <= from <= to,
    ensures
        days_between(from, to) == 365 * (to - from) + leaps_through(to - 1) - leaps_through(from - 1),
    decreases to - from,
{
    if from < to {
        lemma_days_between(from + 1, to);
        lemma_leap_step(from);
    }
}

proof fn lemma_walk_years_below(year: int, days: int, limit: int)
    requires
        0 <= days < days_between(year, limit),
    ensures
        walk_years(year, days).0 < limit,
    decreases days,
{
    if days >= year_length(year) {
        lemma_walk_years_below(year + 1, days - year_length(year), limit);
    }
}

impl PricingDate {
    /// Every date is a valid pricing date.
    #[verifier::type_invariant]
    spec fn valid(self) -> bool {
        valid_date(self.year as int, self.month as int, self.day as int)
    }

    /// Creates a validated Gregorian date for a compiled pricing record.
    pub fn new(year: u16, month: u8, day: u8) -> (date: Self)
        requires
            valid_date(year as int, month as int, day as int),
        ensures
            date@ == (DateView { year, month, day }),
    {
        Self { year, month, day }
    }

    /// UTC date containing this non-negative Unix timestamp.
    pub fn from_unix_seconds(seconds: u64) -> (date: Self)
        requires
            !(seconds / 86400 >= days_to_10000() && unix_day_date((seconds / 86400) as int).1 == 2
                && unix_day_date((seconds / 86400) as int).2 == 29),
        ensures
            date@.year == unix_day_date((seconds / 86400) as int).0,
            date@.month == unix_day_date((seconds / 86400) as int).1,
            date@.day == unix_day_date((seconds / 86400) as int).2,
    {
        let days: u64 = seconds / 86400;
        let clamped: bool = days >= 2932897;
        let (mut year, mut rest): (u32, u64) = if clamped {
            (9600, (days - 2786800) % 146097)
        } else {
            (1970, days)
        };
        let ghost start_year: int = year as int;
        let ghost start_rest: int = rest as int;
        proof {
            lemma_walk_years_bounds(start_year, start_rest);
            lemma_days_between(start_year, 10000);
            lemma_walk_years_below(start_year, start_rest, 10000);
        }
        while rest >= year_length_exec(year) as u64
            invariant
                walk_years(start_year, start_rest) == walk_years(year as int, rest as int),
                start_year <= year,
                year <= walk_years(start_year, start_rest).0,
                walk_years(start_year, start_rest).0 <= 9999,
                rest >= 0,
            decreases rest,
        {
            rest = rest - year_length_exec(year) as u64;
            year = year + 1;
            proof {
                lemma_walk_years_bounds(year as int, rest as int);
            }
        }
        proof {
            lemma_walk_years_bounds(year as int, rest as int);
        }
        assert(walk_years(year as int, rest as int) == (year as int, rest as int));
        let mut month: u32 = 1;
        let ghost offset: int = rest as int;
        proof {
            lemma_walk_months_bounds(year as int, 1, offset);
        }
        while month < 12 && rest >= month_length_exec(year, month) as u64
            invariant
                1 <= month <= 12,
                walk_months(year as int, 1, offset) == walk_months(year as int, month as int, rest as int),
                0 <= rest,
                rest < year_length(year as int) - days_before_month(year as int, month as int),
                1970 <= year <= 9999,
            decreases 12 - month,
        {
            rest = rest - month_length_exec(year, month) as u64;
            month = month + 1;
        }
        proof {
            lemma_walk_months_bounds(year as int, month as int, rest as int);
        }
        let final_year: u16 = if clamped {
            9999
        } else {
            year as u16
        };
        Self::new(final_year, month as u8, (rest + 1) as u8)
    }

    /// Four-digit year.
    pub fn year(self) -> (year: u16)
        ensures
            year == self@.year,
    {
        self.year
    }

    /// One-based month.
    pub fn month(self) -> (month: u8)
        ensures
            month == self@.month,
    {
        self.month
    }

    /// One-based day.
    pub fn day(self) -> (day: u8)
        ensures
            day == self@.day,
    {
        self.day
    }

    fn before(self, other: Self) -> (before: bool)
        ensures
            before == date_before(self@, other@),
    {
        self.year < other.year || (self.year == other.year && (self.month < other.month || (
        self.month == other.month && self.day < other.day)))
    }
}

/// The content of one published rate.
pub struct RateView {
    pub nanocurrency_per_unit: u64,
    pub unit: PricingUnit,
}

/// Exact rate represented as nanocurrency units per published unit.
#[derive(Debug, Clone, Copy, PartialEq, Eq, Structural)]
pub struct PriceRate {
    nanocurrency_per_unit: u64,
    unit: PricingUnit,
}

impl View for PriceRate {
    type V = RateView;

    closed spec fn view(&self) -> RateView {
        RateView { nanocurrency_per_unit: self.nanocurrency_per_unit, unit: self.unit }
    }
}

impl PriceRate {
    /// A token rate whose integer is one billionth of the record currency.
    pub fn per_million(nanocurrency_per_unit: u64) -> (rate: Self)
        ensures
            rate@ == (RateView { nanocurrency_per_unit, unit: PricingUnit::MillionTokens }),
    {
        Self { nanocurrency_per_unit, unit: PricingUnit::MillionTokens }
    }

    /// A storage rate per one million token-hours.
    pub fn per_million_token_hours(nanocurrency_per_unit: u64) -> (rate: Self)
        ensures
            rate@ == (RateView { nanocurrency_per_unit, unit: PricingUnit::MillionTokenHours }),
    {
        Self { nanocurrency_per_unit, unit: PricingUnit::MillionTokenHours }
    }

    /// Published rate in nanocurrency units.
    pub fn nanocurrency_per_unit(self) -> (rate: u64)
        ensures
            rate == self@.nanocurrency_per_unit,
    {
        self.nanocurrency_per_unit
    }

    /// Published quantity unit for this category rate.
    pub fn unit(self) -> (unit: PricingUnit)
        ensures
            unit == self@.unit,
    {
        self.unit
    }
}

/// Whether and how one usage category can be priced.
#[derive(Debug, Clone, Copy, PartialEq, Eq, Structural)]
pub enum UsageRate {
    /// The provider does not charge this category separately.
    NotApplicable,
    /// The category may apply but no reviewed rate is known.
    Unknown,
    /// Both usage and this rate are required for a complete total.
    Priced(PriceRate),
    /// Charge when the provider reports the category; absence is not a gap.
    Optional(PriceRate),
}

impl UsageRate {
    /// A required published rate.
    pub fn priced(rate: PriceRate) -> (rule: Self)
        ensures
            rule == UsageRate::Priced(rate),
    {
        Self::Priced(rate)
    }

    /// A published rate for an optional provider bucket.
    pub fn optional(rate: PriceRate) -> (rule: Self)
        ensures
            rule == UsageRate::Optional(rate),
    {
        Self::Optional(rate)
    }
}

/// Independent rates for one exact provider/model pricing band.
#[derive(Debug, Clone, Copy, PartialEq, Eq, Structural)]
pub struct PromptCacheRates {
    /// Ordinary, non-cached input.
    pub uncached_input: UsageRate,
    /// Provider-reported cache reads.
    pub cache_read: UsageRate,
    /// Provider-reported cache creation/writes.
    pub cache_write_or_creation: UsageRate,
    /// Generated output, including reasoning unless reasoning has its own rate.
    pub output: UsageRate,
    /// Separately billed reasoning output.
    pub reasoning: UsageRate,
    /// Persistent cache storage.
    pub storage: UsageRate,
    /// Other provider-labelled billed usage.
    pub other: UsageRate,
}

impl PromptCacheRates {
    /// No reviewed rates.
    pub fn unknown() -> (rates: Self)
        ensures
            rates == (PromptCacheRates {
                uncached_input: UsageRate::Unknown,
                cache_read: UsageRate::Unknown,
                cache_write_or_creation: UsageRate::Unknown,
                output: UsageRate::Unknown,
                reasoning: UsageRate::Unknown,
                storage: UsageRate::Unknown,
                other: UsageRate::Unknown,
            }),
    {
        Self {
            uncached_input: UsageRate::Unknown,
            cache_read: UsageRate::Unknown,
            cache_write_or_creation: UsageRate::Unknown,
            output: UsageRate::Unknown,
            reasoning: UsageRate::Unknown,
            storage: UsageRate::Unknown,
            other: UsageRate::Unknown,
        }
    }
}

/// The content of one exact amount.
pub struct CostView {
    pub currency: Seq<char>,
    pub unit: PricingUnit,
    pub femtocurrency: u128,
}

/// Exact monetary amount in femtocurrency units (10^-15 currency).
///
/// Published rates are stored in nanocurrency per million tokens. Multiplying
/// that integer by tokens lands exactly in femtocurrency, so no request-size
/// rounding or floating-point drift is introduced.
#[derive(Debug, Clone, Copy, PartialEq, Eq)]
pub struct CostAmount {
    currency: PricingCurrency,
    unit: PricingUnit,
    femtocurrency: u128,
}

impl View for CostAmount {
    type V = CostView;

    closed spec fn view(&self) -> CostView {
        CostView {
            currency: self.currency.code(),
            unit: self.unit,
            femtocurrency: self.femtocurrency,
        }
    }
}

/// Two amounts added: only in one currency, without overflow, and with a
/// mixed unit where the units differ.
pub open spec fn cost_sum(a: CostView, b: CostView) -> Result<CostView, PricingError> {
    if a.currency != b.currency {
        Err(PricingError::CurrencyMismatch)
    } else if a.femtocurrency + b.femtocurrency > u128::MAX {
        Err(PricingError::Overflow)
    } else {
        Ok(
            CostView {
                currency: a.currency,
                unit: if a.unit == b.unit {
                    a.unit
                } else {
                    PricingUnit::Mixed
                },
                femtocurrency: (a.femtocurrency + b.femtocurrency) as u128,
            },
        )
    }
}

impl CostAmount {
    /// Creates an exact amount under one pricing currency/unit provenance.
    pub fn new(currency: PricingCurrency, unit: PricingUnit, femtocurrency: u128) -> (amount: Self)
        ensures
            amount@ == (CostView { currency: currency.code(), unit, femtocurrency }),
    {
        Self { currency, unit, femtocurrency }
    }

    /// Exact amount in 10^-15 currency units.
    pub fn femtocurrency(self) -> (amount: u128)
        ensures
            amount == self@.femtocurrency,
    {
        self.femtocurrency
    }

    /// Currency of the amount.
    pub fn currency(self) -> (currency: PricingCurrency)
        ensures
            currency.code() == self@.currency,
    {
        self.currency
    }

    /// Published unit retained for safe aggregation diagnostics.
    pub fn unit(self) -> (unit: PricingUnit)
        ensures
            unit == self@.unit,
    {
        self.unit
    }

    /// Adds same-currency amounts without wrapping, retaining mixed rate-unit provenance.
    pub fn checked_add(self, other: Self) -> (sum: Result<Self, PricingError>)
        ensures
            match sum {
                Ok(s) => cost_sum(self@, other@) == Ok::<CostView, PricingError>(s@),
                Err(e) => cost_sum(self@, other@) == Err::<CostView, PricingError>(e),
            },
    {
        if !self.currency.same(other.currency) {
            return Err(PricingError::CurrencyMismatch);
        }
        let unit = if self.unit == other.unit {
            self.unit
        } else {
            PricingUnit::Mixed
        };
        match self.femtocurrency.checked_add(other.femtocurrency) {
            Some(total) => Ok(Self::new(self.currency, unit, total)),
            None => Err(PricingError::Overflow),
        }
    }
}

/// Why reviewed pricing could not be selected or calculated safely.
#[derive(Debug, Clone, Copy, PartialEq, Eq, Structural)]
pub enum PricingError {
    /// More than one equally recent exact record matched.
    Ambiguous,
    /// Monetary arithmetic exceeded the retained integer representation.
    Overflow,
    /// Amounts in different currencies were combined.
    CurrencyMismatch,
    /// A usage quantity was paired with a rate published in another unit.
    UnitMismatch,
}

impl PricingError {
    /// The diagnostic sentence.
    pub fn message(&self) -> (text: &'static str)
        ensures
            text@ == match *self {
                PricingError::Ambiguous => "multiple equally effective pricing records matched one provider request"@,
                PricingError::Overflow => "prompt-cache cost arithmetic overflowed"@,
                PricingError::CurrencyMismatch => "prompt-cache costs in different currencies cannot be combined"@,
                PricingError::UnitMismatch => "prompt-cache usage and pricing rate units do not match"@,
            },
    {
        match self {
            Self::Ambiguous => "multiple equally effective pricing records matched one provider request",
            Self::Overflow => "prompt-cache cost arithmetic overflowed",
            Self::CurrencyMismatch => "prompt-cache costs in different currencies cannot be combined",
            Self::UnitMismatch => "prompt-cache usage and pricing rate units do not match",
        }
    }
}

/// The content of one reviewed price record.
pub struct PricingView {
    pub protocol: &'static str,
    pub endpoint: &'static str,
    pub model: &'static str,
    pub revision: Option<&'static str>,
    pub effective_from: PricingDate,
    pub effective_through: Option<PricingDate>,
    pub minimum_input_tokens: u64,
    pub maximum_input_tokens: Option<u64>,
    pub retention: PromptCacheRetentionClass,
    pub version: &'static str,
    pub source_url: &'static str,
    pub currency: PricingCurrency,
    pub unit: PricingUnit,
    pub rates: PromptCacheRates,
}

/// One versioned price record for an exact route/model/input band.
#[derive(Debug, Clone, Copy, PartialEq, Eq)]
pub struct PromptCachePricing {
    protocol: &'static str,
    endpoint: &'static str,
    model: &'static str,
    revision: Option<&'static str>,
    effective_from: PricingDate,
    effective_through: Option<PricingDate>,
    minimum_input_tokens: u64,
    maximum_input_tokens: Option<u64>,
    retention: PromptCacheRetentionClass,
    version: &'static str,
    source_url: &'static str,
    currency: PricingCurrency,
    unit: PricingUnit,
    rates: PromptCacheRates,
}

impl View for PromptCachePricing {
    type V = PricingView;

    closed spec fn view(&self) -> PricingView {
        PricingView {
            protocol: self.protocol,
            endpoint: self.endpoint,
            model: self.model,
            revision: self.revision,
            effective_from: self.effective_from,
            effective_through: self.effective_through,
            minimum_input_tokens: self.minimum_input_tokens,
            maximum_input_tokens: self.maximum_input_tokens,
            retention: self.retention,
            version: self.version,
            source_url: self.source_url,
            currency: self.currency,
            unit: self.unit,
            rates: self.rates,
        }
    }
}

/// Exact lookup keys for a provider pricing record.
#[derive(Debug, Clone, Copy)]
pub struct PricingQuery<'a> {
    /// Provider wire protocol.
    pub protocol: &'a str,
    /// Exact endpoint/deployment authority.
    pub endpoint: &'a str,
    /// Requested model ID.
    pub model: &'a str,
    /// Resolved model revision.
    pub revision: Option<&'a str>,
    /// Date on which the attempt is priced.
    pub at: PricingDate,
    /// Provider-visible input total, when reported.
    pub input_tokens: Option<u64>,
    /// Selected retention class whose write rate may differ.
    pub retention: PromptCacheRetentionClass,
}

impl<'a> PricingQuery<'a> {
    /// A query for `model` at its own revision on the fixture route.
    pub fn fixture(model: &'static str, at: PricingDate, input_tokens: Option<u64>) -> (query:
        PricingQuery<'static>)
        ensures
            query.protocol@ == "fixture-protocol"@,
            query.endpoint@ == "https://provider.invalid/v1"@,
            query.model == model,
            query.revision == Some(model),
            query.at == at,
            query.input_tokens == input_tokens,
            query.retention == PromptCacheRetentionClass::ProviderDefault,
    {
        PricingQuery {
            protocol: "fixture-protocol",
            endpoint: "https://provider.invalid/v1",
            model,
            revision: Some(model),
            at,
            input_tokens,
            retention: PromptCacheRetentionClass::ProviderDefault,
        }
    }
}

/// Whether two optional revisions are both absent or spell the same text.
pub open spec fn same_revision(a: Option<&str>, b: Option<&str>) -> bool {
    match (a, b) {
        (None, None) => true,
        (Some(x), Some(y)) => x@ == y@,
        _ => false,
    }
}

/// Whether a record prices a query: the exact route, model, revision and
/// retention, an effective period holding the query date, and an input band
/// holding the reported input (an unreported input only matches a record
/// that covers every size).
#[verifier::opaque]
pub open spec fn record_matches(record: PricingView, query: PricingQuery) -> bool {
    &&& record.protocol@ == query.protocol@
    &&& record.endpoint@ == query.endpoint@
    &&& record.model@ == query.model@
    &&& same_revision(record.revision, query.revision)
    &&& record.retention == query.retention
    &&& !date_before(query.at@, record.effective_from@)
    &&& !(record.effective_through is Some && date_before(
        record.effective_through->0@,
        query.at@,
    ))
    &&& match query.input_tokens {
        Some(tokens) => tokens >= record.minimum_input_tokens && (record.maximum_input_tokens is None
            || tokens <= record.maximum_input_tokens->0),
        None => record.minimum_input_tokens == 0 && record.maximum_input_tokens is None,
    }
}

/// Whether record `i` matches the query and starts no earlier than any
/// other matching record.
pub open spec fn newest_match(records: Seq<PromptCachePricing>, query: PricingQuery, i: int) -> bool {
    &&& 0 <= i < records.len()
    &&& record_matches(records[i]@, query)
    &&& forall|k: int|
        0 <= k < records.len() && record_matches(#[trigger] records[k]@, query) ==> !date_before(
            records[i]@.effective_from@,
            records[k]@.effective_from@,
        )
}

/// Which record prices the query, by position: none where nothing matches;
/// a refusal where the newest start date is shared by two matching records;
/// otherwise the one matching record that starts last, wherever it stands.
pub open spec fn pricing_selection(records: Seq<PromptCachePricing>, query: PricingQuery) -> Result<
    Option<int>,
    PricingError,
> {
    if !exists|k: int| 0 <= k < records.len() && record_matches(#[trigger] records[k]@, query) {
        Ok(None)
    } else if exists|a: int, b: int|
        a != b && #[trigger] newest_match(records, query, a) && #[trigger] newest_match(records, query, b) {
        Err(PricingError::Ambiguous)
    } else {
        Ok(Some(choose|i: int| newest_match(records, query, i)))
    }
}

fn same_optional_text(a: Option<&str>, b: Option<&str>) -> (same: bool)
    ensures
        same == same_revision(a, b),
{
    match (a, b) {
        (None, None) => true,
        (Some(x), Some(y)) => same_text(x, y),
        _ => false,
    }
}

/// The content of one cost breakdown.
pub struct UsageCostView {
    pub uncached_input: Option<CostView>,
    pub cache_read_input: Option<CostView>,
    pub cache_write_input: Option<CostView>,
    pub output: Option<CostView>,
    pub reasoning: Option<CostView>,
    pub storage: Option<CostView>,
    pub other: Option<CostView>,
    pub total: Option<CostView>,
    pub pricing_version: Option<&'static str>,
    pub effective_from: Option<PricingDate>,
    pub source_url: Option<&'static str>,
    pub currency: Option<Seq<char>>,
    pub unit: Option<PricingUnit>,
}

/// An optional amount taken by its view.
pub open spec fn amount_view(amount: Option<CostAmount>) -> Option<CostView> {
    match amount {
        Some(a) => Some(a@),
        None => None,
    }
}

/// Unknown-preserving monetary breakdown for one provider attempt.
#[derive(Debug, Clone, Copy, PartialEq, Eq)]
pub struct UsageCost {
    /// Ordinary input cost.
    pub uncached_input: Option<CostAmount>,
    /// Cache-read input cost.
    pub cache_read_input: Option<CostAmount>,
    /// Cache creation/write input cost.
    pub cache_write_input: Option<CostAmount>,
    /// Non-reasoning or all generated output cost, per record semantics.
    pub output: Option<CostAmount>,
    /// Separately priced reasoning cost.
    pub reasoning: Option<CostAmount>,
    /// Persistent cache storage cost.
    pub storage: Option<CostAmount>,
    /// Other documented category cost.
    pub other: Option<CostAmount>,
    /// Sum only when every applicable category is known.
    pub total: Option<CostAmount>,
    /// Pricing record version, absent when no exact record matched.
    pub pricing_version: Option<&'static str>,
    /// Effective date of the selected record.
    pub effective_from: Option<PricingDate>,
    /// Official price source.
    pub source_url: Option<&'static str>,
    /// Selected currency.
    pub currency: Option<PricingCurrency>,
    /// Unit provenance of the total, including `Mixed` across token and storage rates.
    pub unit: Option<PricingUnit>,
}

impl View for UsageCost {
    type V = UsageCostView;

    open spec fn view(&self) -> UsageCostView {
        UsageCostView {
            uncached_input: amount_view(self.uncached_input),
            cache_read_input: amount_view(self.cache_read_input),
            cache_write_input: amount_view(self.cache_write_input),
            output: amount_view(self.output),
            reasoning: amount_view(self.reasoning),
            storage: amount_view(self.storage),
            other: amount_view(self.other),
            total: amount_view(self.total),
            pricing_version: self.pricing_version,
            effective_from: self.effective_from,
            source_url: self.source_url,
            currency: match self.currency {
                Some(c) => Some(c.code()),
                None => None,
            },
            unit: self.unit,
        }
    }
}

impl UsageCost {
    /// No exact pricing record was available.
    pub fn unknown() -> (cost: Self)
        ensures
            cost == (UsageCost {
                uncached_input: None,
                cache_read_input: None,
                cache_write_input: None,
                output: None,
                reasoning: None,
                storage: None,
                other: None,
                total: None,
                pricing_version: None,
                effective_from: None,
                source_url: None,
                currency: None,
                unit: None,
            }),
    {
        Self {
            uncached_input: None,
            cache_read_input: None,
            cache_write_input: None,
            output: None,
            reasoning: None,
            storage: None,
            other: None,
            total: None,
            pricing_version: None,
            effective_from: None,
            source_url: None,
            currency: None,
            unit: None,
        }
    }
}

/// One category priced at a published rate: a rate in another unit is
/// refused; absent usage leaves the amount unknown, which completes the total
/// only for an optional rate; reported usage costs quantity times rate.
pub open spec fn rated_charge(
    currency: PricingCurrency,
    rate: PriceRate,
    required: bool,
    quantity: Option<u64>,
    expected: PricingUnit,
) -> Result<(Option<CostView>, bool), PricingError> {
    if rate@.unit != expected {
        Err(PricingError::UnitMismatch)
    } else {
        match quantity {
            None => Ok((None, !required)),
            Some(q) => Ok(
                (
                    Some(
                        CostView {
                            currency: currency.code(),
                            unit: rate@.unit,
                            femtocurrency: (q * rate@.nanocurrency_per_unit) as u128,
                        },
                    ),
                    true,
                ),
            ),
        }
    }
}

/// One category's amount and whether it leaves the total complete.
pub open spec fn charge_of(
    currency: PricingCurrency,
    rule: UsageRate,
    quantity: Option<u64>,
    expected: PricingUnit,
) -> Result<(Option<CostView>, bool), PricingError> {
    match rule {
        UsageRate::NotApplicable => Ok((None, true)),
        UsageRate::Unknown => Ok((None, false)),
        UsageRate::Priced(rate) => rated_charge(currency, rate, true, quantity, expected),
        UsageRate::Optional(rate) => rated_charge(currency, rate, false, quantity, expected),
    }
}

/// The sum of the known amounts, in order.
pub open spec fn summed(amounts: Seq<Option<CostView>>) -> Result<Option<CostView>, PricingError>
    decreases amounts.len(),
{
    if amounts.len() == 0 {
        Ok(None)
    } else {
        match summed(amounts.drop_last()) {
            Err(e) => Err(e),
            Ok(acc) => match amounts.last() {
                None => Ok(acc),
                Some(amount) => match acc {
                    None => Ok(Some(amount)),
                    Some(current) => match cost_sum(current, amount) {
                        Ok(total) => Ok(Some(total)),
                        Err(e) => Err(e),
                    },
                },
            },
        }
    }
}

/// Output tokens to price under a record: all output, or output less
/// reasoning where reasoning has its own rate (unknown unless both are known
/// and reasoning fits within output).
pub open spec fn output_to_price(rates: PromptCacheRates, usage: UsageView) -> Option<u64> {
    if rates.reasoning is Priced || rates.reasoning is Optional {
        if usage.output is Some && usage.reasoning is Some && usage.output->0 >= usage.reasoning->0 {
            Some((usage.output->0 - usage.reasoning->0) as u64)
        } else {
            None
        }
    } else {
        usage.output
    }
}

/// The seven category charges of one usage report under one record, in order.
pub open spec fn category_charges(record: PricingView, usage: UsageView) -> Seq<
    Result<(Option<CostView>, bool), PricingError>,
> {
    let c = record.currency;
    let r = record.rates;
    seq![
        charge_of(c, r.uncached_input, usage.input.uncached, PricingUnit::MillionTokens),
        charge_of(c, r.cache_read, usage.input.cache_read, PricingUnit::MillionTokens),
        charge_of(
            c,
            r.cache_write_or_creation,
            usage.input.cache_write_or_creation,
            PricingUnit::MillionTokens,
        ),
        charge_of(c, r.output, output_to_price(r, usage), PricingUnit::MillionTokens),
        charge_of(c, r.reasoning, usage.reasoning, PricingUnit::MillionTokens),
        charge_of(c, r.storage, usage.storage_token_hours, PricingUnit::MillionTokenHours),
        charge_of(c, r.other, None, PricingUnit::MillionTokens),
    ]
}

/// The first refusal among the charges, if any.
pub open spec fn first_refusal(charges: Seq<Result<(Option<CostView>, bool), PricingError>>) -> Option<
    PricingError,
>
    decreases charges.len(),
{
    if charges.len() == 0 {
        None
    } else {
        match charges[0] {
            Err(e) => Some(e),
            Ok(_) => first_refusal(charges.drop_first()),
        }
    }
}

/// The cost of one usage report under one record: the first refused charge
/// fails it; otherwise each category carries its own amount, and the total is
/// the sum of the known amounts exactly when every category is complete (a
/// zero in the record's unit when nothing was charged).
pub open spec fn priced_cost(record: PricingView, usage: UsageView) -> Result<UsageCostView, PricingError> {
    let charges = category_charges(record, usage);
    match first_refusal(charges) {
        Some(e) => Err(e),
        None => {
            let amounts = charges.map_values(
                |c: Result<(Option<CostView>, bool), PricingError>| c->Ok_0.0,
            );
            let complete = forall|i: int| 0 <= i < 7 ==> (#[trigger] charges[i])->Ok_0.1;
            let total: Result<Option<CostView>, PricingError> = if complete {
                match summed(amounts) {
                    Err(e) => Err(e),
                    Ok(Some(t)) => Ok(Some(t)),
                    Ok(None) => Ok(
                        Some(
                            CostView {
                                currency: record.currency.code(),
                                unit: record.unit,
                                femtocurrency: 0,
                            },
                        ),
                    ),
                }
            } else {
                Ok(None)
            };
            match total {
                Err(e) => Err(e),
                Ok(total) => Ok(
                    UsageCostView {
                        uncached_input: amounts[0],
                        cache_read_input: amounts[1],
                        cache_write_input: amounts[2],
                        output: amounts[3],
                        reasoning: amounts[4],
                        storage: amounts[5],
                        other: amounts[6],
                        total,
                        pricing_version: Some(record.version),
                        effective_from: Some(record.effective_from),
                        source_url: Some(record.source_url),
                        currency: Some(record.currency.code()),
                        unit: match total {
                            Some(t) => Some(t.unit),
                            None => None,
                        },
                    },
                ),
            }
        },
    }
}

fn optional_view(amount: Option<CostAmount>) -> (view: Ghost<Option<CostView>>)
    ensures
        view@ == amount_view(amount),
{
    Ghost(amount_view(amount))
}

impl PromptCachePricing {
    /// Creates one open-ended, all-input-size reviewed record.
    pub fn new(
        protocol: &'static str,
        endpoint: &'static str,
        model: &'static str,
        revision: Option<&'static str>,
        effective_from: PricingDate,
        version: &'static str,
        source_url: &'static str,
        currency: PricingCurrency,
        unit: PricingUnit,
        rates: PromptCacheRates,
    ) -> (record: Self)
        ensures
            record@ == (PricingView {
                protocol,
                endpoint,
                model,
                revision,
                effective_from,
                effective_through: None,
                minimum_input_tokens: 0,
                maximum_input_tokens: None,
                retention: PromptCacheRetentionClass::ProviderDefault,
                version,
                source_url,
                currency,
                unit,
                rates,
            }),
    {
        Self {
            protocol,
            endpoint,
            model,
            revision,
            effective_from,
            effective_through: None,
            minimum_input_tokens: 0,
            maximum_input_tokens: None,
            retention: PromptCacheRetentionClass::ProviderDefault,
            version,
            source_url,
            currency,
            unit,
            rates,
        }
    }

    /// Restricts this record to one inclusive input-token band.
    pub fn with_input_band(self, minimum: u64, maximum: Option<u64>) -> (record: Self)
        requires
            maximum matches Some(m) ==> m >= minimum,
        ensures
            record@ == (PricingView {
                minimum_input_tokens: minimum,
                maximum_input_tokens: maximum,
                ..self@
            }),
    {
        let mut record = self;
        record.minimum_input_tokens = minimum;
        record.maximum_input_tokens = maximum;
        record
    }

    /// Restricts this record to the selected neutral retention class.
    pub fn with_retention(self, retention: PromptCacheRetentionClass) -> (record: Self)
        ensures
            record@ == (PricingView { retention, ..self@ }),
    {
        let mut record = self;
        record.retention = retention;
        record
    }

    /// Makes this record expire after an inclusive date.
    pub fn through(self, date: PricingDate) -> (record: Self)
        requires
            !date_before(date@, self@.effective_from@),
        ensures
            record@ == (PricingView { effective_through: Some(date), ..self@ }),
    {
        let mut record = self;
        record.effective_through = Some(date);
        record
    }

    /// Version of the reviewed pricing record.
    pub fn version(self) -> (version: &'static str)
        ensures
            version == self@.version,
    {
        self.version
    }

    /// Official source URL.
    pub fn source_url(self) -> (url: &'static str)
        ensures
            url == self@.source_url,
    {
        self.source_url
    }

    /// Inclusive effective date.
    pub fn effective_from(self) -> (date: PricingDate)
        ensures
            date == self@.effective_from,
    {
        self.effective_from
    }

    /// Currency of every rate in this record.
    pub fn currency(self) -> (currency: PricingCurrency)
        ensures
            currency == self@.currency,
    {
        self.currency
    }

    /// Published unit of every rate in this record.
    pub fn unit(self) -> (unit: PricingUnit)
        ensures
            unit == self@.unit,
    {
        self.unit
    }

    /// Lower inclusive input bound.
    pub fn minimum_input_tokens(self) -> (tokens: u64)
        ensures
            tokens == self@.minimum_input_tokens,
    {
        self.minimum_input_tokens
    }

    /// Upper inclusive input bound, or no ceiling.
    pub fn maximum_input_tokens(self) -> (tokens: Option<u64>)
        ensures
            tokens == self@.maximum_input_tokens,
    {
        self.maximum_input_tokens
    }

    /// Independent category rates.
    pub fn rates(self) -> (rates: PromptCacheRates)
        ensures
            rates == self@.rates,
    {
        self.rates
    }

    fn charge(self, rule: UsageRate, quantity: Option<u64>, expected_unit: PricingUnit) -> (charged:
        Result<(Option<CostAmount>, bool), PricingError>)
        ensures
            match charged {
                Ok((amount, complete)) => charge_of(self@.currency, rule, quantity, expected_unit)
                    == Ok::<(Option<CostView>, bool), PricingError>(
                    (amount_view(amount), complete),
                ),
                Err(e) => charge_of(self@.currency, rule, quantity, expected_unit) == Err::<
                    (Option<CostView>, bool),
                    PricingError,
                >(e),
            },
    {
        let (rate, required) = match rule {
            UsageRate::NotApplicable => {
                return Ok((None, true));
            },
            UsageRate::Unknown => {
                return Ok((None, false));
            },
            UsageRate::Priced(rate) => (rate, true),
            UsageRate::Optional(rate) => (rate, false),
        };
        if rate.unit() != expected_unit {
            return Err(PricingError::UnitMismatch);
        }
        let quantity = match quantity {
            Some(quantity) => quantity,
            None => {
                return Ok((None, !required));
            },
        };
        let per_unit = rate.nanocurrency_per_unit();
        proof {
            assert(quantity as u128 * per_unit as u128 <= u128::MAX) by (nonlinear_arith)
                requires
                    quantity <= u64::MAX,
                    per_unit <= u64::MAX,
            ;
        }
        match (quantity as u128).checked_mul(per_unit as u128) {
            Some(amount) => Ok((Some(CostAmount::new(self.currency, rate.unit(), amount)), true)),
            None => Err(PricingError::Overflow),
        }
    }

    /// Calculates one attempt without converting absent usage/rates into zero.
    pub fn cost(self, usage: &ProviderUsage) -> (cost: Result<UsageCost, PricingError>)
        ensures
            match cost {
                Ok(c) => priced_cost(self@, usage@) == Ok::<UsageCostView, PricingError>(c@),
                Err(e) => priced_cost(self@, usage@) == Err::<UsageCostView, PricingError>(e),
            },
    {
        let ghost charges = category_charges(self@, usage@);
        proof {
            reveal_with_fuel(first_refusal, 8);
        }
        let input = usage.input_categories();
        let reported_output = usage.output_tokens();
        let reported_reasoning = usage.reasoning_tokens();
        let (uncached_input, uncached_complete) = match self.charge(
            self.rates.uncached_input,
            input.uncached,
            PricingUnit::MillionTokens,
        ) {
            Ok(c) => c,
            Err(e) => {
                return Err(e);
            },
        };
        let (cache_read_input, read_complete) = match self.charge(
            self.rates.cache_read,
            input.cache_read,
            PricingUnit::MillionTokens,
        ) {
            Ok(c) => c,
            Err(e) => {
                return Err(e);
            },
        };
        let (cache_write_input, write_complete) = match self.charge(
            self.rates.cache_write_or_creation,
            input.cache_write_or_creation,
            PricingUnit::MillionTokens,
        ) {
            Ok(c) => c,
            Err(e) => {
                return Err(e);
            },
        };
        let reasoning_separate = match self.rates.reasoning {
            UsageRate::Priced(_) | UsageRate::Optional(_) => true,
            _ => false,
        };
        let output_tokens = if reasoning_separate {
            match (reported_output, reported_reasoning) {
                (Some(output), Some(reasoning)) => output.checked_sub(reasoning),
                _ => None,
            }
        } else {
            reported_output
        };
        let (output, output_complete) = match self.charge(
            self.rates.output,
            output_tokens,
            PricingUnit::MillionTokens,
        ) {
            Ok(c) => c,
            Err(e) => {
                return Err(e);
            },
        };
        let (reasoning, reasoning_complete) = match self.charge(
            self.rates.reasoning,
            reported_reasoning,
            PricingUnit::MillionTokens,
        ) {
            Ok(c) => c,
            Err(e) => {
                return Err(e);
            },
        };
        let (storage, storage_complete) = match self.charge(
            self.rates.storage,
            usage.storage_hours(),
            PricingUnit::MillionTokenHours,
        ) {
            Ok(c) => c,
            Err(e) => {
                return Err(e);
            },
        };
        let (other, other_complete) = match self.charge(
            self.rates.other,
            None,
            PricingUnit::MillionTokens,
        ) {
            Ok(c) => c,
            Err(e) => {
                return Err(e);
            },
        };
        let complete = uncached_complete && read_complete && write_complete && output_complete
            && reasoning_complete && storage_complete && other_complete;
        let amounts = [
            uncached_input,
            cache_read_input,
            cache_write_input,
            output,
            reasoning,
            storage,
            other,
        ];
        let ghost views = amounts@.map_values(|a: Option<CostAmount>| amount_view(a));
        proof {
            reveal_with_fuel(first_refusal, 8);
            assert(charges.map_values(
                |c: Result<(Option<CostView>, bool), PricingError>| c->Ok_0.0,
            ) =~= views);
        }
        let total = if complete {
            let mut total: Option<CostAmount> = None;
            let mut i: usize = 0;
            while i < 7
                invariant
                    0 <= i <= 7,
                    amounts@.len() == 7,
                    views == amounts@.map_values(|a: Option<CostAmount>| amount_view(a)),
                    summed(views.take(i as int)) == Ok::<Option<CostView>, PricingError>(
                        amount_view(total),
                    ),
                    charges == category_charges(self@, usage@),
                    first_refusal(charges) is None,
                    forall|k: int| 0 <= k < 7 ==> (#[trigger] charges[k])->Ok_0.1,
                    charges.map_values(
                        |c: Result<(Option<CostView>, bool), PricingError>| c->Ok_0.0,
                    ) == views,
                decreases 7 - i,
            {
                assert(views.take(i + 1).drop_last() =~= views.take(i as int));
                assert(views.take(i + 1).last() == amount_view(amounts@[i as int]));
                match amounts[i] {
                    Some(amount) => {
                        total = Some(
                            match total {
                                Some(current) => match current.checked_add(amount) {
                                    Ok(sum) => sum,
                                    Err(e) => {
                                        assert(summed(views.take(i + 1)) == Err::<
                                            Option<CostView>,
                                            PricingError,
                                        >(e));
                                        proof {
                                            lemma_summed_keeps_refusal(views, i + 1);
                                        }
                                        assert(views.take(7) =~= views);
                                        return Err(e);
                                    },
                                },
                                None => amount,
                            },
                        );
                    },
                    None => {},
                }
                i = i + 1;
            }
            assert(views.take(7) =~= views);
            Some(
                match total {
                    Some(t) => t,
                    None => CostAmount::new(self.currency, self.unit, 0),
                },
            )
        } else {
            None
        };
        let unit = match total {
            Some(t) => Some(t.unit()),
            None => None,
        };
        let cost = UsageCost {
            uncached_input,
            cache_read_input,
            cache_write_input,
            output,
            reasoning,
            storage,
            other,
            total,
            pricing_version: Some(self.version),
            effective_from: Some(self.effective_from),
            source_url: Some(self.source_url),
            currency: Some(self.currency),
            unit,
        };
        proof {
            reveal_with_fuel(first_refusal, 8);
            assert(charges.map_values(
                |c: Result<(Option<CostView>, bool), PricingError>| c->Ok_0.0,
            ) =~= views);
        }
        Ok(cost)
    }

    fn matches(self, query: PricingQuery) -> (matched: bool)
        ensures
            matched == record_matches(self@, query),
    {
        reveal(record_matches);
        if !same_text(self.protocol, query.protocol) || !same_text(self.endpoint, query.endpoint)
            || !same_text(self.model, query.model) || !same_optional_text(
            self.revision,
            query.revision,
        ) || self.retention != query.retention || query.at.before(self.effective_from) {
            return false;
        }
        if let Some(through) = self.effective_through {
            if through.before(query.at) {
                return false;
            }
        }
        match query.input_tokens {
            Some(tokens) => tokens >= self.minimum_input_tokens && match self.maximum_input_tokens {
                Some(maximum) => tokens <= maximum,
                None => true,
            },
            None => self.minimum_input_tokens == 0 && self.maximum_input_tokens.is_none(),
        }
    }
}

proof fn lemma_summed_keeps_refusal(amounts: Seq<Option<CostView>>, n: int)
    requires
        0 <= n <= amounts.len(),
        summed(amounts.take(n)) is Err,
    ensures
        summed(amounts) == summed(amounts.take(n)),
    decreases amounts.len() - n,
{
    if n < amounts.len() {
        assert(amounts.take(n + 1).drop_last() =~= amounts.take(n));
        lemma_summed_keeps_refusal(amounts, n + 1);
    } else {
        assert(amounts.take(n) =~= amounts);
    }
}

/// The result of a selection, by the position of the chosen record.
pub open spec fn selected_position<'a>(
    records: &'a [PromptCachePricing],
    result: Result<Option<&'a PromptCachePricing>, PricingError>,
    position: Result<Option<int>, PricingError>,
) -> bool {
    match (result, position) {
        (Ok(Some(record)), Ok(Some(i))) => 0 <= i < records@.len() && *record == records@[i],
        (Ok(None), Ok(None)) => true,
        (Err(e), Err(f)) => e == f,
        _ => false,
    }
}

/// Chooses the newest exact effective pricing record; equally recent
/// newest records make the choice ambiguous.
pub fn select_pricing<'a>(records: &'a [PromptCachePricing], query: PricingQuery<'_>) -> (selected:
    Result<Option<&'a PromptCachePricing>, PricingError>)
    ensures
        selected_position(records, selected, pricing_selection(records@, query)),
{
    let ghost rs = records@;
    let mut best: Option<usize> = None;
    let mut tied = false;
    let mut i: usize = 0;
    while i < records.len()
        invariant
            rs == records@,
            0 <= i <= rs.len(),
            best is None ==> forall|k: int| 0 <= k < i ==> !record_matches(#[trigger] rs[k]@, query),
            best matches Some(b) ==> {
                &&& b < i
                &&& record_matches(rs[b as int]@, query)
                &&& forall|k: int|
                    0 <= k < i && record_matches(#[trigger] rs[k]@, query) ==> !date_before(
                        rs[b as int]@.effective_from@,
                        rs[k]@.effective_from@,
                    )
                &&& tied == exists|k: int|
                    0 <= k < i && k != b && record_matches(#[trigger] rs[k]@, query)
                        && rs[k]@.effective_from@ == rs[b as int]@.effective_from@
            },
        decreases rs.len() - i,
    {
        let record = records[i];
        if record.matches(query) {
            match best {
                None => {
                    best = Some(i);
                    tied = false;
                },
                Some(current) => {
                    let current_from = records[current].effective_from;
                    if current_from.before(record.effective_from) {
                        best = Some(i);
                        tied = false;
                        proof {
                            assert forall|k: int|
                                0 <= k < i + 1 && record_matches(#[trigger] rs[k]@, query) implies !date_before(
                                rs[i as int]@.effective_from@,
                                rs[k]@.effective_from@,
                            ) by {
                                if k < i {
                                    assert(!date_before(rs[current as int]@.effective_from@, rs[k]@.effective_from@));
                                }
                            }
                            assert forall|k: int|
                                0 <= k < i + 1 && k != i && record_matches(#[trigger] rs[k]@, query) implies
                                rs[k]@.effective_from@ != rs[i as int]@.effective_from@ by {
                                assert(!date_before(rs[current as int]@.effective_from@, rs[k]@.effective_from@));
                            }
                        }
                    } else if current_from == record.effective_from {
                        tied = true;
                        assert(rs[i as int]@.effective_from@ == rs[current as int]@.effective_from@);
                    }
                },
            }
        }
        i = i + 1;
    }
    match best {
        None => {
            Ok(None)
        },
        Some(b) => {
            assert(newest_match(rs, query, b as int));
            if tied {
                proof {
                    let k = choose|k: int|
                        0 <= k < rs.len() && k != b && record_matches(#[trigger] rs[k]@, query)
                            && rs[k]@.effective_from@ == rs[b as int]@.effective_from@;
                    assert(newest_match(rs, query, k));
                }
                Err(PricingError::Ambiguous)
            } else {
                proof {
                    assert forall|a: int| #[trigger] newest_match(rs, query, a) implies a == b by {
                        assert(!date_before(rs[a]@.effective_from@, rs[b as int]@.effective_from@));
                    }
                }
                Ok(Some(&records[b]))
            }
        },
    }
}

/// Selection picks the newest exact record, wherever it stands: a chosen
/// record matches the query and starts later than every other matching
/// record; none is chosen only where none matches; and a refusal means the
/// latest start date among the matching records is shared by two of them.
pub proof fn lemma_selection_is_newest_exact(records: Seq<PromptCachePricing>, query: PricingQuery)
    ensures
        pricing_selection(records, query) matches Ok(Some(i)) ==> {
            &&& 0 <= i < records.len()
            &&& record_matches(records[i]@, query)
            &&& forall|k: int|
                0 <= k < records.len() && k != i && record_matches(#[trigger] records[k]@, query)
                    ==> date_before(records[k]@.effective_from@, records[i]@.effective_from@)
        },
        pricing_selection(records, query) matches Ok(None) ==> forall|k: int|
            0 <= k < records.len() ==> !record_matches(#[trigger] records[k]@, query),
        pricing_selection(records, query) is Err ==> exists|a: int, b: int|
            0 <= a < b < records.len() && #[trigger] newest_match(records, query, a)
                && #[trigger] newest_match(records, query, b) && records[a]@.effective_from
                == records[b]@.effective_from,
{
    lemma_a_newest_match_exists(records, query);
    lemma_chosen_is_strictly_newest(records, query);
    lemma_refusal_has_a_tied_newest_pair(records, query);
}

proof fn lemma_a_newest_match_exists(records: Seq<PromptCachePricing>, query: PricingQuery)
    ensures
        (exists|k: int| 0 <= k < records.len() && record_matches(#[trigger] records[k]@, query))
            ==> exists|w: int| #[trigger] newest_match(records, query, w),
{
    let chosen = |k: int| record_matches(records[k]@, query);
    let start = |k: int| records[k]@.effective_from@;
    lemma_a_latest_exists(records.len() as int, chosen, start);
    if exists|k: int| 0 <= k < records.len() && record_matches(#[trigger] records[k]@, query) {
        let k0 = choose|k: int| 0 <= k < records.len() && record_matches(#[trigger] records[k]@, query);
        assert(chosen(k0));
        let w = choose|i: int|
            0 <= i < records.len() && #[trigger] chosen(i) && forall|k: int|
                0 <= k < records.len() && #[trigger] chosen(k) ==> !date_before(start(i), start(k));
        assert forall|k: int|
            0 <= k < records.len() && record_matches(#[trigger] records[k]@, query) implies !date_before(
            records[w]@.effective_from@,
            records[k]@.effective_from@,
        ) by {
            assert(chosen(k));
        }
        assert(newest_match(records, query, w));
    }
}

proof fn lemma_chosen_is_strictly_newest(records: Seq<PromptCachePricing>, query: PricingQuery)
    ensures
        pricing_selection(records, query) matches Ok(Some(i)) ==> {
            &&& 0 <= i < records.len()
            &&& record_matches(records[i]@, query)
            &&& forall|k: int|
                0 <= k < records.len() && k != i && record_matches(#[trigger] records[k]@, query)
                    ==> date_before(records[k]@.effective_from@, records[i]@.effective_from@)
        },
{
    lemma_a_newest_match_exists(records, query);
    if let Ok(Some(i)) = pricing_selection(records, query) {
        assert(newest_match(records, query, i));
        assert forall|k: int|
            0 <= k < records.len() && k != i && record_matches(#[trigger] records[k]@, query) implies date_before(
            records[k]@.effective_from@,
            records[i]@.effective_from@,
        ) by {
            if !date_before(records[k]@.effective_from@, records[i]@.effective_from@) {
                assert(newest_match(records, query, k));
            }
        }
    }
}

proof fn lemma_refusal_has_a_tied_newest_pair(records: Seq<PromptCachePricing>, query: PricingQuery)
    ensures
        pricing_selection(records, query) is Err ==> exists|a: int, b: int|
            0 <= a < b < records.len() && #[trigger] newest_match(records, query, a)
                && #[trigger] newest_match(records, query, b) && records[a]@.effective_from
                == records[b]@.effective_from,
{
    if pricing_selection(records, query) is Err {
        let (a, b) = choose|a: int, b: int|
            a != b && #[trigger] newest_match(records, query, a) && #[trigger] newest_match(records, query, b);
        let (lo, hi) = if a < b { (a, b) } else { (b, a) };
        assert(newest_match(records, query, lo) && newest_match(records, query, hi));
        let (x, y) = (records[lo]@.effective_from, records[hi]@.effective_from);
        assert(!date_before(x@, y@) && !date_before(y@, x@));
        assert(x == y);
    }
}

/// Among the first `n` positions, where one is chosen by `chosen`, one of
/// them starts no earlier than any other chosen.
proof fn lemma_a_latest_exists(n: int, chosen: spec_fn(int) -> bool, start: spec_fn(int) -> DateView)
    requires
        0 <= n,
    ensures
        (exists|k: int| 0 <= k < n && #[trigger] chosen(k)) ==> exists|i: int|
            0 <= i < n && #[trigger] chosen(i) && forall|k: int|
                0 <= k < n && #[trigger] chosen(k) ==> !date_before(start(i), start(k)),
    decreases n,
{
    if n > 0 {
        let m = n - 1;
        lemma_a_latest_exists(m, chosen, start);
        if exists|k: int| 0 <= k < m && #[trigger] chosen(k) {
            let i = choose|i: int|
                0 <= i < m && #[trigger] chosen(i) && forall|k: int|
                    0 <= k < m && #[trigger] chosen(k) ==> !date_before(start(i), start(k));
            if chosen(m) && date_before(start(i), start(m)) {
                assert forall|k: int| 0 <= k < n && #[trigger] chosen(k) implies !date_before(
                    start(m),
                    start(k),
                ) by {
                    if k < m {
                        assert(!date_before(start(i), start(k)));
                    }
                }
            } else {
                assert forall|k: int| 0 <= k < n && #[trigger] chosen(k) implies !date_before(
                    start(i),
                    start(k),
                ) by {
                    if k < m {
                        assert(!date_before(start(i), start(k)));
                    }
                }
            }
        } else if chosen(m) {
            assert forall|k: int| 0 <= k < n && #[trigger] chosen(k) implies !date_before(
                start(m),
                start(k),
            ) by {
                if k < m {
                    assert(!chosen(k));
                }
            }
        }
    }
}


/// A record answers a query only for its own route, model and retention and
/// only within its effective dates; with reported input, only inside its input band:
/// at least its minimum and, where it has one, at most its maximum; so two
/// records whose bands do not overlap never both answer one query, and an
/// unreported input is answered only by a record that covers every size.
pub proof fn lemma_a_record_matches_only_inside_its_band(
    record: PricingView,
    other: PricingView,
    query: PricingQuery,
)
    ensures
        record_matches(record, query) && query.input_tokens is Some ==> {
            &&& query.input_tokens->0 >= record.minimum_input_tokens
            &&& record.maximum_input_tokens is Some ==> query.input_tokens->0
                <= record.maximum_input_tokens->0
        },
        record_matches(record, query) && query.input_tokens is None ==> record.minimum_input_tokens
            == 0 && record.maximum_input_tokens is None,
        record.maximum_input_tokens is Some && other.minimum_input_tokens
            > record.maximum_input_tokens->0 ==> !(record_matches(record, query) && record_matches(
            other,
            query,
        )),
        record_matches(record, query) ==> {
            &&& record.model@ == query.model@
            &&& record.protocol@ == query.protocol@
            &&& record.endpoint@ == query.endpoint@
            &&& record.retention == query.retention
            &&& !date_before(query.at@, record.effective_from@)
            &&& record.effective_through is Some ==> !date_before(
                record.effective_through->0@,
                query.at@,
            )
        },
{
    reveal(record_matches);
}

} // verus!
