//! Bounded command allow/deny guardrails, separate from permission approval.
//!
//! A rule matches a command's whole word vector exactly, its leading words,
//! or each word against one anchored glob. A filter admits a command when no
//! deny rule matches and, where it has allow rules, one of them does; a
//! policy is a stack of filters, every one of which must admit.

use vstd::prelude::*;
use vstd::utf8::encode_utf8;
use vstd::std_specs::cmp::PartialEqSpecImpl;
use crate::sandbox::digest::{sha256, sha256_of};
use crate::sandbox::service::{argument_views, SandboxCommand};
use crate::text::{chars_of, same_text};

verus! {

/// Maximum independent parent/descendant filters in one effective policy.
pub const MAX_SANDBOX_GUARDRAIL_LAYERS: usize = 16;

/// Maximum allow/deny rules retained across all guardrail layers.
pub const MAX_SANDBOX_GUARDRAIL_RULES: usize = 128;

/// Maximum words in one exact, prefix, or anchored rule.
pub const MAX_SANDBOX_GUARDRAIL_WORDS: usize = 128;

/// Maximum aggregate encoded bytes in one rule.
pub const MAX_SANDBOX_GUARDRAIL_BYTES: usize = 16384;

/// Whether a matching rule permits or rejects an invocation.
#[derive(Debug, Clone, Copy, PartialEq, Eq, Structural)]
pub enum SandboxGuardrailEffect {
    /// This filter may admit matching commands.
    Allow,
    /// A match refuses the command even if an allow rule also matches.
    Deny,
}

/// Which immutable command image a guardrail is evaluating.
#[derive(Debug, Clone, Copy, PartialEq, Eq, Structural)]
pub enum SandboxCommandStage {
    /// The host-selected invocation before a trusted adapter transformation.
    Requested,
    /// The invocation after every trusted program/argument transformation.
    Effective,
}

/// Redacted outcome retained by audit/events.
#[derive(Debug, Clone, Copy, PartialEq, Eq, Structural)]
pub enum SandboxGuardrailDecision {
    /// Every independent filter admitted the command.
    Allowed,
    /// A deny matched or one filter's allow set did not match.
    Denied,
}

/// Why a command guardrail contract was rejected before use.
#[derive(Debug, Clone, Copy, PartialEq, Eq, Structural)]
pub enum SandboxGuardrailError {
    /// One rule must contain a bounded non-empty word vector.
    InvalidRule,
    /// Anchored patterns must compile without reinterpretation.
    InvalidPattern,
    /// The effective intersection is bounded.
    TooManyRules,
}

impl SandboxGuardrailError {
    /// The diagnostic sentence.
    pub fn message(&self) -> (text: &'static str)
        ensures
            text@ == match *self {
                SandboxGuardrailError::InvalidRule =>
                    "sandbox command guardrail rule is empty or exceeds its bound"@,
                SandboxGuardrailError::InvalidPattern => "sandbox command guardrail pattern is invalid"@,
                SandboxGuardrailError::TooManyRules =>
                    "sandbox command guardrail has too many rules or layers"@,
            },
    {
        match self {
            Self::InvalidRule => "sandbox command guardrail rule is empty or exceeds its bound",
            Self::InvalidPattern => "sandbox command guardrail pattern is invalid",
            Self::TooManyRules => "sandbox command guardrail has too many rules or layers",
        }
    }
}

/// A one-glob set compiled by the `globset` crate.
#[verifier::external_type_specification]
#[verifier::external_body]
pub struct ExGlobSet(globset::GlobSet);

/// Whether `globset` compiles `pattern`, with `*` and `?` free to match `/`,
/// into a one-glob set within its size limits.
pub uninterp spec fn glob_compiles(pattern: Seq<char>) -> bool;

/// Whether the glob compiled from `pattern` matches all of `word`.
pub uninterp spec fn glob_matches(pattern: Seq<char>, word: Seq<char>) -> bool;

/// `GlobBuilder::new(pattern).literal_separator(false).build()`, then a
/// `GlobSetBuilder` holding that one glob and its `build`: a set exactly where
/// the pattern parses and its compiled form stays within globset's size
/// limits, which `build` reports as an error rather than a panic. The bound
/// keeps the literal strategies (whose Aho-Corasick automata `build` unwraps)
/// far below the automaton's state limit.
#[verifier::external_body]
fn compile_glob(pattern: &str) -> (matcher: Option<globset::GlobSet>)
    requires
        encode_utf8(pattern@).len() <= MAX_SANDBOX_GUARDRAIL_BYTES,
    ensures
        matcher is Some <==> glob_compiles(pattern@),
{
    match globset::GlobBuilder::new(pattern).literal_separator(false).build() {
        Ok(glob) => globset::GlobSetBuilder::new().add(glob).build().ok(),
        Err(_) => None,
    }
}

/// `GlobSet::is_match` on a pattern's compiled one-glob set: whether `word`
/// matches the glob the pattern compiled to.
#[verifier::external_body]
fn glob_is_match(pattern: &WordPattern, word: &str) -> (matched: bool)
    ensures
        matched == glob_matches(pattern@, word@),
{
    pattern.matcher.is_match(std::path::Path::new(word))
}

/// `GlobSet::clone`; the copy matches what the original matches.
#[verifier::external_body]
fn clone_matcher(matcher: &globset::GlobSet) -> (copied: globset::GlobSet) {
    matcher.clone()
}

/// One anchored glob, kept with the source it was compiled from.
struct WordPattern {
    source: String,
    matcher: globset::GlobSet,
}

impl View for WordPattern {
    type V = Seq<char>;

    closed spec fn view(&self) -> Seq<char> {
        self.source@
    }
}

impl PartialEq for WordPattern {
    fn eq(&self, other: &Self) -> (same: bool) {
        same_text(self.source.as_str(), other.source.as_str())
    }
}

impl PartialEqSpecImpl for WordPattern {
    open spec fn obeys_eq_spec() -> bool {
        true
    }

    open spec fn eq_spec(&self, other: &Self) -> bool {
        self@ == other@
    }
}

impl Eq for WordPattern {
}

impl Clone for WordPattern {
    fn clone(&self) -> (copied: Self)
        ensures
            copied@ == self@,
    {
        self.copy()
    }
}

impl WordPattern {
    fn new(source: &str) -> (pattern: Option<Self>)
        requires
            encode_utf8(source@).len() <= MAX_SANDBOX_GUARDRAIL_BYTES,
        ensures
            pattern is Some <==> glob_compiles(source@),
            pattern matches Some(p) ==> p@ == source@,
    {
        match compile_glob(source) {
            Some(matcher) => Some(Self { source: source.to_owned(), matcher }),
            None => None,
        }
    }

    fn copy(&self) -> (copied: Self)
        ensures
            copied@ == self@,
    {
        Self { source: self.source.clone(), matcher: clone_matcher(&self.matcher) }
    }
}

/// What a rule compares a command's words with.
#[derive(Clone, PartialEq, Eq)]
enum RuleMatcher {
    Exact(Vec<String>),
    Prefix(Vec<String>),
    Anchored(Vec<WordPattern>),
}

/// The content of a rule's matcher: its words or its patterns.
pub enum MatcherView {
    Exact(Seq<Seq<char>>),
    Prefix(Seq<Seq<char>>),
    Anchored(Seq<Seq<char>>),
}

/// The sources of a sequence of compiled patterns.
spec fn pattern_sources(patterns: Seq<WordPattern>) -> Seq<Seq<char>> {
    Seq::new(patterns.len(), |i: int| patterns[i]@)
}

impl View for RuleMatcher {
    type V = MatcherView;

    closed spec fn view(&self) -> MatcherView {
        match self {
            RuleMatcher::Exact(words) => MatcherView::Exact(argument_views(words@)),
            RuleMatcher::Prefix(words) => MatcherView::Prefix(argument_views(words@)),
            RuleMatcher::Anchored(patterns) => MatcherView::Anchored(pattern_sources(patterns@)),
        }
    }
}

/// Whether a rule's matcher admits a command's whole word vector.
pub open spec fn matcher_matches(matcher: MatcherView, words: Seq<Seq<char>>) -> bool {
    match matcher {
        MatcherView::Exact(expected) => expected.len() == words.len() && words.take(
            expected.len() as int,
        ) == expected,
        MatcherView::Prefix(expected) => expected.len() <= words.len() && words.take(
            expected.len() as int,
        ) == expected,
        MatcherView::Anchored(patterns) => patterns.len() == words.len() && forall_words_match(
            patterns,
            words,
        ),
    }
}

/// Whether each word matches the pattern in its place.
pub open spec fn forall_words_match(patterns: Seq<Seq<char>>, words: Seq<Seq<char>>) -> bool {
    forall|i: int| 0 <= i < patterns.len() ==> glob_matches(#[trigger] patterns[i], words[i])
}

/// Whether a rule's words can be retained: one to
/// [`MAX_SANDBOX_GUARDRAIL_WORDS`] of them, none empty or holding NUL, and
/// at most [`MAX_SANDBOX_GUARDRAIL_BYTES`] bytes together.
pub open spec fn valid_rule_words(words: Seq<Seq<char>>) -> bool {
    &&& 0 < words.len() <= MAX_SANDBOX_GUARDRAIL_WORDS
    &&& forall|i: int| 0 <= i < words.len() ==> (#[trigger] words[i]).len() > 0 && !words[i].contains('\0')
    &&& rule_bytes(words) <= MAX_SANDBOX_GUARDRAIL_BYTES
}

proof fn lemma_word_within_rule(words: Seq<Seq<char>>, i: int)
    requires
        0 <= i < words.len(),
    ensures
        encode_utf8(words[i]).len() <= rule_bytes(words),
    decreases words.len(),
{
    if i < words.len() - 1 {
        lemma_word_within_rule(words.drop_last(), i);
        assert(words.drop_last()[i] == words[i]);
    } else {
        lemma_rule_bytes_nonnegative(words.drop_last());
    }
}

proof fn lemma_rule_bytes_nonnegative(words: Seq<Seq<char>>)
    ensures
        rule_bytes(words) >= 0,
    decreases words.len(),
{
    if words.len() > 0 {
        lemma_rule_bytes_nonnegative(words.drop_last());
    }
}

/// The bytes of a rule's words together.
pub open spec fn rule_bytes(words: Seq<Seq<char>>) -> int
    decreases words.len(),
{
    if words.len() == 0 {
        0
    } else {
        rule_bytes(words.drop_last()) + encode_utf8(words.last()).len()
    }
}

proof fn lemma_rule_bytes_grow(words: Seq<Seq<char>>, n: int)
    requires
        0 <= n <= words.len(),
    ensures
        rule_bytes(words.take(n)) <= rule_bytes(words),
    decreases words.len() - n,
{
    if n < words.len() {
        lemma_rule_bytes_grow(words, n + 1);
        assert(words.take(n + 1).drop_last() =~= words.take(n));
        if n + 1 == words.len() {
            assert(words.take(n + 1) =~= words);
        }
    } else {
        assert(words.take(n) =~= words);
    }
}

fn bounded_words(words: &Vec<String>) -> (valid: bool)
    ensures
        valid == valid_rule_words(argument_views(words@)),
{
    let ghost views = argument_views(words@);
    if words.len() == 0 || words.len() > MAX_SANDBOX_GUARDRAIL_WORDS {
        return false;
    }
    let mut bytes: usize = 0;
    let mut i: usize = 0;
    while i < words.len()
        invariant
            views == argument_views(words@),
            0 < views.len() <= MAX_SANDBOX_GUARDRAIL_WORDS,
            i <= words@.len(),
            forall|j: int| 0 <= j < i ==> (#[trigger] views[j]).len() > 0 && !views[j].contains('\0'),
            bytes == rule_bytes(views.take(i as int)),
            bytes <= MAX_SANDBOX_GUARDRAIL_BYTES,
        decreases words@.len() - i,
    {
        let word = &words[i];
        assert(views[i as int] == word@);
        let chars = chars_of(word.as_str());
        let mut nul = false;
        let mut k: usize = 0;
        while k < chars.len()
            invariant
                k <= chars@.len(),
                nul == exists|m: int| 0 <= m < k && chars@[m] == '\0',
            decreases chars@.len() - k,
        {
            if chars[k] == '\0' {
                nul = true;
            }
            k = k + 1;
        }
        if chars.len() == 0 || nul {
            assert(!valid_rule_words(views)) by {
                if nul {
                    let m = choose|m: int| 0 <= m < k && chars@[m] == '\0';
                    assert(views[i as int].contains('\0'));
                }
            }
            return false;
        }
        let size = word.as_str().as_bytes().len();
        assert(views.take(i as int + 1).drop_last() =~= views.take(i as int));
        if size > MAX_SANDBOX_GUARDRAIL_BYTES - bytes {
            proof {
                lemma_rule_bytes_grow(views, i as int + 1);
            }
            return false;
        }
        bytes = bytes + size;
        assert(!views[i as int].contains('\0')) by {
            if views[i as int].contains('\0') {
                let m = choose|m: int| 0 <= m < views[i as int].len() && views[i as int][m] == '\0';
                assert(chars@[m] == '\0');
            }
        }
        i = i + 1;
    }
    assert(views.take(views.len() as int) =~= views);
    true
}

/// One exact, prefix, or per-word anchored glob rule.
#[derive(Clone, PartialEq, Eq)]
pub struct SandboxCommandRule {
    effect: SandboxGuardrailEffect,
    matcher: RuleMatcher,
}

/// The content of a rule: what it does when it matches, and its matcher.
pub struct RuleView {
    pub effect: SandboxGuardrailEffect,
    pub matcher: MatcherView,
}

impl View for SandboxCommandRule {
    type V = RuleView;

    closed spec fn view(&self) -> RuleView {
        RuleView { effect: self.effect, matcher: self.matcher@ }
    }
}

fn copy_words(words: &Vec<String>) -> (copied: Vec<String>)
    ensures
        argument_views(copied@) == argument_views(words@),
{
    let mut copied: Vec<String> = Vec::new();
    let mut i: usize = 0;
    while i < words.len()
        invariant
            i <= words@.len(),
            argument_views(copied@) == argument_views(words@).take(i as int),
        decreases words@.len() - i,
    {
        let ghost before = argument_views(copied@);
        copied.push(words[i].clone());
        assert(argument_views(copied@) =~= before.push(words@[i as int]@));
        assert(argument_views(words@).take(i as int + 1) =~= argument_views(words@).take(i as int).push(words@[i as int]@));
        i = i + 1;
    }
    assert(argument_views(words@).take(words@.len() as int) =~= argument_views(words@));
    copied
}

impl SandboxCommandRule {
    /// Matches the complete program/argument vector exactly.
    pub fn exact(effect: SandboxGuardrailEffect, words: Vec<String>) -> (rule: Result<Self, SandboxGuardrailError>)
        ensures
            rule is Ok <==> valid_rule_words(argument_views(words@)),
            rule matches Err(e) ==> e == SandboxGuardrailError::InvalidRule,
            rule matches Ok(r) ==> r@ == (RuleView { effect, matcher: MatcherView::Exact(argument_views(words@)) }),
    {
        if !bounded_words(&words) {
            return Err(SandboxGuardrailError::InvalidRule);
        }
        Ok(Self { effect, matcher: RuleMatcher::Exact(words) })
    }

    /// Matches an invocation whose leading words are exactly this sequence.
    pub fn prefix(effect: SandboxGuardrailEffect, words: Vec<String>) -> (rule: Result<Self, SandboxGuardrailError>)
        ensures
            rule is Ok <==> valid_rule_words(argument_views(words@)),
            rule matches Err(e) ==> e == SandboxGuardrailError::InvalidRule,
            rule matches Ok(r) ==> r@ == (RuleView { effect, matcher: MatcherView::Prefix(argument_views(words@)) }),
    {
        if !bounded_words(&words) {
            return Err(SandboxGuardrailError::InvalidRule);
        }
        Ok(Self { effect, matcher: RuleMatcher::Prefix(words) })
    }

    /// Matches the complete vector with one anchored glob per word. Globs
    /// never span argument boundaries, and are compiled here, before a
    /// command can reach a backend.
    pub fn anchored(effect: SandboxGuardrailEffect, patterns: Vec<String>) -> (rule: Result<Self, SandboxGuardrailError>)
        ensures
            !valid_rule_words(argument_views(patterns@)) ==> (rule matches Err(e) && e == SandboxGuardrailError::InvalidRule),
            valid_rule_words(argument_views(patterns@)) && !(forall|i: int| 0 <= i < patterns@.len() ==> glob_compiles(#[trigger] patterns@[i]@))
                ==> (rule matches Err(e) && e == SandboxGuardrailError::InvalidPattern),
            valid_rule_words(argument_views(patterns@)) && (forall|i: int| 0 <= i < patterns@.len() ==> glob_compiles(#[trigger] patterns@[i]@))
                ==> (rule matches Ok(r) && r@ == (RuleView { effect, matcher: MatcherView::Anchored(argument_views(patterns@)) })),
    {
        if !bounded_words(&patterns) {
            return Err(SandboxGuardrailError::InvalidRule);
        }
        let mut compiled: Vec<WordPattern> = Vec::new();
        let mut i: usize = 0;
        while i < patterns.len()
            invariant
                valid_rule_words(argument_views(patterns@)),
                i <= patterns@.len(),
                compiled@.len() == i,
                forall|j: int| 0 <= j < i ==> #[trigger] compiled@[j]@ == patterns@[j]@,
                forall|j: int| 0 <= j < i ==> glob_compiles(#[trigger] patterns@[j]@),
            decreases patterns@.len() - i,
        {
            proof {
                lemma_word_within_rule(argument_views(patterns@), i as int);
            }
            match WordPattern::new(patterns[i].as_str()) {
                Some(pattern) => compiled.push(pattern),
                None => {
                    return Err(SandboxGuardrailError::InvalidPattern);
                },
            }
            i = i + 1;
        }
        let rule = Self { effect, matcher: RuleMatcher::Anchored(compiled) };
        assert(pattern_sources(compiled@) =~= argument_views(patterns@));
        Ok(rule)
    }

    fn matches(&self, command: &SandboxCommand, stage: SandboxCommandStage) -> (matched: bool)
        ensures
            matched == matcher_matches(self@.matcher, command_words(command, stage)),
    {
        let (program, arguments) = command.image(stage);
        let ghost words = seq![program@] + argument_views(arguments@);
        assert(words == command_words(command, stage));
        match &self.matcher {
            RuleMatcher::Exact(expected) => {
                if expected.len() == 0 || expected.len() - 1 != arguments.len() {
                    return false;
                }
                leading_words_equal(expected, program, arguments)
            },
            RuleMatcher::Prefix(expected) => {
                if expected.len() > 0 && expected.len() - 1 > arguments.len() {
                    return false;
                }
                leading_words_equal(expected, program, arguments)
            },
            RuleMatcher::Anchored(patterns) => {
                if patterns.len() == 0 || patterns.len() - 1 != arguments.len() {
                    return false;
                }
                let mut i: usize = 0;
                while i < patterns.len()
                    invariant
                        self@.matcher == MatcherView::Anchored(pattern_sources(patterns@)),
                        words == command_words(command, stage),
                        patterns@.len() == words.len(),
                        words == seq![program@] + argument_views(arguments@),
                        i <= patterns@.len(),
                        forall|j: int| 0 <= j < i ==> glob_matches(#[trigger] patterns@[j]@, words[j]),
                    decreases patterns@.len() - i,
                {
                    let word = if i == 0 { program } else { arguments[i - 1].as_str() };
                    assert(word@ == words[i as int]);
                    if !glob_is_match(&patterns[i], word) {
                        let ghost pv = pattern_sources(patterns@);
                        assert(pv[i as int] == patterns@[i as int]@);
                        assert(!forall_words_match(pv, words));
                        return false;
                    }
                    i = i + 1;
                }
                let ghost pv = pattern_sources(patterns@);
                assert(forall_words_match(pv, words)) by {
                    assert forall|j: int| 0 <= j < pv.len() implies glob_matches(#[trigger] pv[j], words[j]) by {
                        assert(pv[j] == patterns@[j]@);
                    }
                }
                true
            },
        }
    }

    fn copy(&self) -> (copied: Self)
        ensures
            copied@ == self@,
    {
        let matcher = match &self.matcher {
            RuleMatcher::Exact(words) => RuleMatcher::Exact(copy_words(words)),
            RuleMatcher::Prefix(words) => RuleMatcher::Prefix(copy_words(words)),
            RuleMatcher::Anchored(patterns) => {
                let mut copied: Vec<WordPattern> = Vec::new();
                let mut i: usize = 0;
                while i < patterns.len()
                    invariant
                        i <= patterns@.len(),
                        copied@.len() == i,
                        forall|j: int| 0 <= j < i ==> #[trigger] copied@[j]@ == patterns@[j]@,
                    decreases patterns@.len() - i,
                {
                    copied.push(patterns[i].copy());
                    i = i + 1;
                }
                assert(pattern_sources(copied@) =~= pattern_sources(patterns@));
                RuleMatcher::Anchored(copied)
            },
        };
        Self { effect: self.effect, matcher }
    }
}

/// The words a guardrail judges at `stage`: the program, then its arguments.
pub open spec fn command_words(command: &SandboxCommand, stage: SandboxCommandStage) -> Seq<Seq<char>> {
    match stage {
        SandboxCommandStage::Requested => seq![command@.requested_program] + command@.requested_arguments,
        SandboxCommandStage::Effective => seq![command@.program] + command@.arguments,
    }
}

fn leading_words_equal(expected: &Vec<String>, program: &str, arguments: &[String]) -> (equal: bool)
    requires
        expected@.len() <= arguments@.len() + 1,
    ensures
        equal == ((seq![program@] + argument_views(arguments@)).take(expected@.len() as int)
            == argument_views(expected@)),
{
    let ghost words = seq![program@] + argument_views(arguments@);
    let mut i: usize = 0;
    while i < expected.len()
        invariant
            expected@.len() <= words.len(),
            words == seq![program@] + argument_views(arguments@),
            i <= expected@.len(),
            forall|j: int| 0 <= j < i ==> words[j] == #[trigger] argument_views(expected@)[j],
        decreases expected@.len() - i,
    {
        let word = if i == 0 { program } else { arguments[i - 1].as_str() };
        assert(word@ == words[i as int]);
        if !same_text(expected[i].as_str(), word) {
            assert(words.take(expected@.len() as int)[i as int] != argument_views(expected@)[i as int]);
            return false;
        }
        i = i + 1;
    }
    assert(words.take(expected@.len() as int) =~= argument_views(expected@));
    true
}

/// One top-level or descendant command filter.
#[derive(Clone, PartialEq, Eq)]
struct Filter(Vec<SandboxCommandRule>);

/// The contents of a sequence of rules.
pub open spec fn rule_views(rules: Seq<SandboxCommandRule>) -> Seq<RuleView> {
    Seq::new(rules.len(), |i: int| rules[i]@)
}

/// Whether one filter admits `words`: no deny rule matches, and where the
/// filter has allow rules, one of them matches.
pub open spec fn filter_admits(rules: Seq<RuleView>, words: Seq<Seq<char>>) -> bool {
    &&& forall|i: int| 0 <= i < rules.len() && #[trigger] rules[i].effect == SandboxGuardrailEffect::Deny
        ==> !matcher_matches(rules[i].matcher, words)
    &&& (exists|i: int| 0 <= i < rules.len() && #[trigger] rules[i].effect == SandboxGuardrailEffect::Allow)
        ==> exists|i: int| 0 <= i < rules.len() && #[trigger] rules[i].effect == SandboxGuardrailEffect::Allow
        && matcher_matches(rules[i].matcher, words)
}

/// Whether every filter admits `words`.
pub open spec fn filters_admit(filters: Seq<Seq<RuleView>>, words: Seq<Seq<char>>) -> bool {
    forall|i: int| 0 <= i < filters.len() ==> filter_admits(#[trigger] filters[i], words)
}

/// Immutable intersection of independent command filters.
#[derive(Clone, PartialEq, Eq)]
pub struct SandboxCommandPolicy {
    filters: Vec<Filter>,
}

impl View for SandboxCommandPolicy {
    /// Each filter's rules, outermost first.
    type V = Seq<Seq<RuleView>>;

    closed spec fn view(&self) -> Seq<Seq<RuleView>> {
        Seq::new(self.filters@.len(), |i: int| rule_views(self.filters@[i].0@))
    }
}

/// How many rules the filters hold together.
pub open spec fn rule_count(filters: Seq<Seq<RuleView>>) -> int
    decreases filters.len(),
{
    if filters.len() == 0 {
        0
    } else {
        rule_count(filters.drop_last()) + filters.last().len()
    }
}

proof fn lemma_rule_count_concat(a: Seq<Seq<RuleView>>, b: Seq<Seq<RuleView>>)
    ensures
        rule_count(a + b) == rule_count(a) + rule_count(b),
    decreases b.len(),
{
    if b.len() == 0 {
        assert(a + b =~= a);
    } else {
        assert((a + b).drop_last() =~= a + b.drop_last());
        lemma_rule_count_concat(a, b.drop_last());
    }
}

fn copy_filter(filter: &Filter) -> (copied: Filter)
    ensures
        rule_views(copied.0@) == rule_views(filter.0@),
{
    let mut rules: Vec<SandboxCommandRule> = Vec::new();
    let mut i: usize = 0;
    while i < filter.0.len()
        invariant
            i <= filter.0@.len(),
            rules@.len() == i,
            forall|j: int| 0 <= j < i ==> #[trigger] rules@[j]@ == filter.0@[j]@,
        decreases filter.0@.len() - i,
    {
        rules.push(filter.0[i].copy());
        i = i + 1;
    }
    assert(rule_views(rules@) =~= rule_views(filter.0@));
    Filter(rules)
}

impl SandboxCommandPolicy {
    pub(crate) fn copy(&self) -> (copied: Self)
        ensures
            copied@ == self@,
    {
        let mut filters: Vec<Filter> = Vec::new();
        let mut i: usize = 0;
        while i < self.filters.len()
            invariant
                i <= self.filters@.len(),
                filters@.len() == i,
                forall|j: int| 0 <= j < i ==> rule_views(#[trigger] filters@[j].0@) == rule_views(
                    self.filters@[j].0@,
                ),
            decreases self.filters@.len() - i,
        {
            filters.push(copy_filter(&self.filters[i]));
            i = i + 1;
        }
        let copied = Self { filters };
        assert(copied@ =~= self@);
        copied
    }
}

pub(crate) fn frame_u64(out: &mut Vec<u8>, value: u64)
    ensures
        final(out)@ == old(out)@ + be_bytes(value),
{
    out.push((value / 72057594037927936) as u8);
    out.push((value / 281474976710656 % 256) as u8);
    out.push((value / 1099511627776 % 256) as u8);
    out.push((value / 4294967296 % 256) as u8);
    out.push((value / 16777216 % 256) as u8);
    out.push((value / 65536 % 256) as u8);
    out.push((value / 256 % 256) as u8);
    out.push((value % 256) as u8);
    assert(out@ =~= old(out)@ + be_bytes(value));
}

/// The eight big-endian bytes of `value`.
pub open spec fn be_bytes(value: u64) -> Seq<u8> {
    seq![
        (value / 72057594037927936) as u8,
        (value / 281474976710656 % 256) as u8,
        (value / 1099511627776 % 256) as u8,
        (value / 4294967296 % 256) as u8,
        (value / 16777216 % 256) as u8,
        (value / 65536 % 256) as u8,
        (value / 256 % 256) as u8,
        (value % 256) as u8,
    ]
}

/// The number a rule's effect is written as in a digest.
pub open spec fn effect_code(effect: SandboxGuardrailEffect) -> u8 {
    match effect {
        SandboxGuardrailEffect::Allow => 0,
        SandboxGuardrailEffect::Deny => 1,
    }
}

/// Each word or pattern as its length then its bytes.
pub open spec fn words_framing(words: Seq<Seq<char>>) -> Seq<u8>
    decreases words.len(),
{
    if words.len() == 0 {
        Seq::empty()
    } else {
        words_framing(words.drop_last()) + be_bytes(encode_utf8(words.last()).len() as u64) + encode_utf8(words.last())
    }
}

/// The bytes one rule contributes to a command-policy digest.
pub open spec fn rule_framing(rule: RuleView) -> Seq<u8> {
    seq![effect_code(rule.effect)] + match rule.matcher {
        MatcherView::Exact(words) => seq![0u8] + words_framing(words),
        MatcherView::Prefix(words) => seq![1u8] + words_framing(words),
        MatcherView::Anchored(patterns) => seq![2u8] + words_framing(patterns),
    }
}

/// The bytes one filter contributes: its rule count, then each rule.
pub open spec fn filter_framing(rules: Seq<RuleView>) -> Seq<u8> {
    be_bytes(rules.len() as u64) + rules_framing(rules)
}

/// Each rule's framing in order.
pub open spec fn rules_framing(rules: Seq<RuleView>) -> Seq<u8>
    decreases rules.len(),
{
    if rules.len() == 0 {
        Seq::empty()
    } else {
        rules_framing(rules.drop_last()) + rule_framing(rules.last())
    }
}

/// The domain a command-policy digest is separated by:
/// `crucible-sandbox-guardrail-v1` and a NUL.
pub open spec fn guardrail_domain() -> Seq<u8> {
    seq![
        99u8, 114, 117, 99, 105, 98, 108, 101, 45, 115, 97, 110, 100, 98, 111, 120, 45, 103, 117,
        97, 114, 100, 114, 97, 105, 108, 45, 118, 49, 0,
    ]
}

/// The bytes a command-policy digest is taken over.
pub open spec fn command_policy_framing(filters: Seq<Seq<RuleView>>) -> Seq<u8>
    decreases filters.len(),
{
    if filters.len() == 0 {
        guardrail_domain()
    } else {
        command_policy_framing(filters.drop_last()) + filter_framing(filters.last())
    }
}

fn frame_words(out: &mut Vec<u8>, words: &Vec<String>)
    ensures
        final(out)@ == old(out)@ + words_framing(argument_views(words@)),
{
    let ghost start = out@;
    let ghost views = argument_views(words@);
    let mut i: usize = 0;
    while i < words.len()
        invariant
            views == argument_views(words@),
            i <= words@.len(),
            out@ == start + words_framing(views.take(i as int)),
        decreases words@.len() - i,
    {
        let bytes = words[i].as_str().as_bytes();
        frame_u64(out, bytes.len() as u64);
        let mut k: usize = 0;
        let ghost before = out@;
        while k < bytes.len()
            invariant
                k <= bytes@.len(),
                out@ == before + bytes@.take(k as int),
            decreases bytes@.len() - k,
        {
            out.push(bytes[k]);
            assert(bytes@.take(k as int + 1) =~= bytes@.take(k as int).push(bytes@[k as int]));
            k = k + 1;
        }
        assert(bytes@.take(bytes@.len() as int) =~= bytes@);
        assert(views.take(i as int + 1).drop_last() =~= views.take(i as int));
        assert(views[i as int] == words@[i as int]@);
        assert(out@ =~= start + words_framing(views.take(i as int + 1)));
        i = i + 1;
    }
    assert(views.take(views.len() as int) =~= views);
}

fn frame_patterns(out: &mut Vec<u8>, patterns: &Vec<WordPattern>)
    ensures
        final(out)@ == old(out)@ + words_framing(pattern_sources(patterns@)),
{
    let ghost start = out@;
    let ghost views = pattern_sources(patterns@);
    let mut i: usize = 0;
    while i < patterns.len()
        invariant
            views == pattern_sources(patterns@),
            i <= patterns@.len(),
            out@ == start + words_framing(views.take(i as int)),
        decreases patterns@.len() - i,
    {
        let bytes = patterns[i].source.as_str().as_bytes();
        frame_u64(out, bytes.len() as u64);
        let mut k: usize = 0;
        let ghost before = out@;
        while k < bytes.len()
            invariant
                k <= bytes@.len(),
                out@ == before + bytes@.take(k as int),
            decreases bytes@.len() - k,
        {
            out.push(bytes[k]);
            assert(bytes@.take(k as int + 1) =~= bytes@.take(k as int).push(bytes@[k as int]));
            k = k + 1;
        }
        assert(bytes@.take(bytes@.len() as int) =~= bytes@);
        assert(views.take(i as int + 1).drop_last() =~= views.take(i as int));
        assert(views[i as int] == patterns@[i as int]@);
        assert(out@ =~= start + words_framing(views.take(i as int + 1)));
        i = i + 1;
    }
    assert(views.take(views.len() as int) =~= views);
}

fn frame_rule(out: &mut Vec<u8>, rule: &SandboxCommandRule)
    ensures
        final(out)@ == old(out)@ + rule_framing(rule@),
{
    let ghost start = out@;
    out.push(match rule.effect {
        SandboxGuardrailEffect::Allow => 0u8,
        SandboxGuardrailEffect::Deny => 1u8,
    });
    match &rule.matcher {
        RuleMatcher::Exact(words) => {
            out.push(0u8);
            frame_words(out, words);
        },
        RuleMatcher::Prefix(words) => {
            out.push(1u8);
            frame_words(out, words);
        },
        RuleMatcher::Anchored(patterns) => {
            out.push(2u8);
            frame_patterns(out, patterns);
        },
    }
    assert(out@ =~= start + rule_framing(rule@));
}

impl SandboxCommandPolicy {
    /// No command-specific restriction. Permission and kernel confinement
    /// still apply independently.
    pub fn allow_all() -> (policy: Self)
        ensures
            policy@.len() == 0,
    {
        let policy = Self { filters: Vec::new() };
        assert(policy@ =~= Seq::<Seq<RuleView>>::empty());
        policy
    }

    /// Builds one allow/deny filter: deny matches always win, and where the
    /// filter has allow rules, one must match. No rules is no restriction.
    pub fn new(rules: Vec<SandboxCommandRule>) -> (policy: Result<Self, SandboxGuardrailError>)
        ensures
            rules@.len() > MAX_SANDBOX_GUARDRAIL_RULES ==> (policy matches Err(e) && e == SandboxGuardrailError::TooManyRules),
            rules@.len() == 0 ==> (policy matches Ok(p) && p@.len() == 0),
            0 < rules@.len() <= MAX_SANDBOX_GUARDRAIL_RULES ==> (policy matches Ok(p) && p@ == seq![rule_views(rules@)]),
    {
        if rules.len() > MAX_SANDBOX_GUARDRAIL_RULES {
            return Err(SandboxGuardrailError::TooManyRules);
        }
        if rules.len() == 0 {
            return Ok(Self::allow_all());
        }
        let policy = Self { filters: vec![Filter(rules)] };
        assert(policy@ =~= seq![rule_views(rules@)]);
        Ok(policy)
    }

    /// Intersects a descendant filter with every parent filter: a command is
    /// admitted only where both stacks admit it.
    pub fn intersect(parent: &Self, descendant: &Self) -> (policy: Result<Self, SandboxGuardrailError>)
        ensures
            (parent@.len() + descendant@.len() > MAX_SANDBOX_GUARDRAIL_LAYERS || rule_count(parent@)
                + rule_count(descendant@) > MAX_SANDBOX_GUARDRAIL_RULES) ==> (policy matches Err(e) && e
                == SandboxGuardrailError::TooManyRules),
            !(parent@.len() + descendant@.len() > MAX_SANDBOX_GUARDRAIL_LAYERS || rule_count(parent@)
                + rule_count(descendant@) > MAX_SANDBOX_GUARDRAIL_RULES) ==> (policy matches Ok(p) && p@
                == parent@ + descendant@),
    {
        let layers = parent.filters.len().saturating_add(descendant.filters.len());
        let ghost both = parent@ + descendant@;
        if layers > MAX_SANDBOX_GUARDRAIL_LAYERS {
            return Err(SandboxGuardrailError::TooManyRules);
        }
        let mut filters: Vec<Filter> = Vec::new();
        let mut rules: usize = 0;
        let mut i: usize = 0;
        while i < layers
            invariant
                layers == parent@.len() + descendant@.len(),
                layers <= MAX_SANDBOX_GUARDRAIL_LAYERS,
                both == parent@ + descendant@,
                i <= layers,
                filters@.len() == i,
                forall|j: int| 0 <= j < i ==> rule_views(#[trigger] filters@[j].0@) == both[j],
                rules == rule_count(both.take(i as int)),
                rules <= MAX_SANDBOX_GUARDRAIL_RULES,
            decreases layers - i,
        {
            let filter = if i < parent.filters.len() {
                &parent.filters[i]
            } else {
                &descendant.filters[i - parent.filters.len()]
            };
            assert(rule_views(filter.0@) == both[i as int]);
            assert(both.take(i as int + 1).drop_last() =~= both.take(i as int));
            if filter.0.len() > MAX_SANDBOX_GUARDRAIL_RULES - rules {
                proof {
                    lemma_rule_count_concat(parent@, descendant@);
                    lemma_rule_count_grows(both, i as int + 1);
                }
                return Err(SandboxGuardrailError::TooManyRules);
            }
            rules = rules + filter.0.len();
            filters.push(copy_filter(filter));
            i = i + 1;
        }
        proof {
            assert(both.take(layers as int) =~= both);
            lemma_rule_count_concat(parent@, descendant@);
        }
        let policy = Self { filters };
        assert(policy@ =~= both);
        Ok(policy)
    }

    /// Evaluates one immutable command image without logging its arguments.
    pub fn evaluate(&self, command: &SandboxCommand, stage: SandboxCommandStage) -> (decision: SandboxGuardrailDecision)
        ensures
            decision == (if filters_admit(self@, command_words(command, stage)) {
                SandboxGuardrailDecision::Allowed
            } else {
                SandboxGuardrailDecision::Denied
            }),
    {
        let ghost words = command_words(command, stage);
        let mut f: usize = 0;
        while f < self.filters.len()
            invariant
                words == command_words(command, stage),
                f <= self.filters@.len(),
                forall|j: int| 0 <= j < f ==> filter_admits(#[trigger] self@[j], words),
            decreases self.filters@.len() - f,
        {
            let rules = &self.filters[f].0;
            let ghost views = rule_views(rules@);
            assert(self@[f as int] == views);
            let mut denied = false;
            let mut has_allow = false;
            let mut allowed = false;
            let mut r: usize = 0;
            while r < rules.len()
                invariant
                    views == rule_views(rules@),
                    words == command_words(command, stage),
                    r <= rules@.len(),
                    denied == exists|k: int| 0 <= k < r && #[trigger] views[k].effect == SandboxGuardrailEffect::Deny && matcher_matches(views[k].matcher, words),
                    has_allow == exists|k: int| 0 <= k < r && #[trigger] views[k].effect == SandboxGuardrailEffect::Allow,
                    allowed == exists|k: int| 0 <= k < r && #[trigger] views[k].effect == SandboxGuardrailEffect::Allow && matcher_matches(views[k].matcher, words),
                decreases rules@.len() - r,
            {
                let rule = &rules[r];
                assert(views[r as int] == rule@);
                let matched = rule.matches(command, stage);
                assert(views[r as int].effect == rule.effect);
                assert(matched == matcher_matches(views[r as int].matcher, words));
                match rule.effect {
                    SandboxGuardrailEffect::Deny => {
                        if matched {
                            denied = true;
                        }
                    },
                    SandboxGuardrailEffect::Allow => {
                        has_allow = true;
                        if matched {
                            allowed = true;
                        }
                    },
                }
                r = r + 1;
            }
            if denied || (has_allow && !allowed) {
                assert(!filter_admits(views, words));
                assert(!filters_admit(self@, words));
                return SandboxGuardrailDecision::Denied;
            }
            f = f + 1;
        }
        SandboxGuardrailDecision::Allowed
    }

    /// The domain-separated digest of the filters and their rules.
    pub fn digest(&self) -> (digest: [u8; 32])
        ensures
            digest@ == sha256_of(command_policy_framing(self@)),
    {
        let mut bytes: Vec<u8> = vec![
            99u8, 114, 117, 99, 105, 98, 108, 101, 45, 115, 97, 110, 100, 98, 111, 120, 45, 103, 117,
            97, 114, 100, 114, 97, 105, 108, 45, 118, 49, 0,
        ];
        assert(bytes@ =~= guardrail_domain());
        let mut f: usize = 0;
        while f < self.filters.len()
            invariant
                f <= self.filters@.len(),
                bytes@ == command_policy_framing(self@.take(f as int)),
            decreases self.filters@.len() - f,
        {
            let rules = &self.filters[f].0;
            let ghost views = rule_views(rules@);
            let ghost start = bytes@;
            frame_u64(&mut bytes, rules.len() as u64);
            let mut r: usize = 0;
            while r < rules.len()
                invariant
                    views == rule_views(rules@),
                    r <= rules@.len(),
                    bytes@ == start + be_bytes(rules@.len() as u64) + rules_framing(views.take(r as int)),
                decreases rules@.len() - r,
            {
                frame_rule(&mut bytes, &rules[r]);
                assert(views.take(r as int + 1).drop_last() =~= views.take(r as int));
                assert(views[r as int] == rules@[r as int]@);
                r = r + 1;
            }
            assert(views.take(views.len() as int) =~= views);
            assert(self@[f as int] == views);
            assert(self@.take(f as int + 1).drop_last() =~= self@.take(f as int));
            assert(bytes@ =~= command_policy_framing(self@.take(f as int + 1)));
            f = f + 1;
        }
        assert(self@.take(self@.len() as int) =~= self@);
        sha256(bytes.as_slice())
    }
}

impl Default for SandboxCommandPolicy {
    fn default() -> (policy: Self)
        ensures
            policy@.len() == 0,
    {
        Self::allow_all()
    }
}

proof fn lemma_rule_count_grows(filters: Seq<Seq<RuleView>>, n: int)
    requires
        0 <= n <= filters.len(),
    ensures
        rule_count(filters.take(n)) <= rule_count(filters),
    decreases filters.len() - n,
{
    if n < filters.len() {
        lemma_rule_count_grows(filters, n + 1);
        assert(filters.take(n + 1).drop_last() =~= filters.take(n));
        if n + 1 == filters.len() {
            assert(filters.take(n + 1) =~= filters);
        }
    } else {
        assert(filters.take(n) =~= filters);
    }
}

/// Intersecting command policies only ever narrows: what the intersection
/// admits, both the parent and the descendant admit.
pub proof fn lemma_intersection_admits_only_what_both_admit(
    parent: Seq<Seq<RuleView>>,
    descendant: Seq<Seq<RuleView>>,
    words: Seq<Seq<char>>,
)
    ensures
        filters_admit(parent + descendant, words) <==> (filters_admit(parent, words)
            && filters_admit(descendant, words)),
{
    let both = parent + descendant;
    if filters_admit(both, words) {
        assert forall|i: int| 0 <= i < parent.len() implies filter_admits(#[trigger] parent[i], words) by {
            assert(both[i] == parent[i]);
        }
        assert forall|i: int| 0 <= i < descendant.len() implies filter_admits(#[trigger] descendant[i], words) by {
            assert(both[parent.len() + i] == descendant[i]);
        }
    }
    if filters_admit(parent, words) && filters_admit(descendant, words) {
        assert forall|i: int| 0 <= i < both.len() implies filter_admits(#[trigger] both[i], words) by {
            if i < parent.len() {
                assert(both[i] == parent[i]);
            } else {
                assert(both[i] == descendant[i - parent.len()]);
            }
        }
    }
}


/// A prefix rule matches every command whose leading words are its words,
/// the command made of exactly those words included; so a deny prefix rule in
/// any filter refuses every such command, whatever the other filters say.
pub proof fn lemma_prefix_rule_covers_its_words(
    expected: Seq<Seq<char>>,
    rest: Seq<Seq<char>>,
    filters: Seq<Seq<RuleView>>,
    f: int,
    r: int,
)
    ensures
        matcher_matches(MatcherView::Prefix(expected), expected),
        matcher_matches(MatcherView::Prefix(expected), expected + rest),
        0 <= f < filters.len() && 0 <= r < filters[f].len() && filters[f][r] == (RuleView {
            effect: SandboxGuardrailEffect::Deny,
            matcher: MatcherView::Prefix(expected),
        }) ==> !filters_admit(filters, expected + rest),
        0 <= f < filters.len() && 0 <= r < filters[f].len() && filters[f][r] == (RuleView {
            effect: SandboxGuardrailEffect::Deny,
            matcher: MatcherView::Prefix(expected),
        }) ==> !filters_admit(filters, expected),
{
    assert(expected.take(expected.len() as int) =~= expected);
    assert((expected + rest).take(expected.len() as int) =~= expected);
    if 0 <= f < filters.len() && 0 <= r < filters[f].len() && filters[f][r] == (RuleView {
        effect: SandboxGuardrailEffect::Deny,
        matcher: MatcherView::Prefix(expected),
    }) {
        let rules = filters[f];
        assert(rules[r].effect == SandboxGuardrailEffect::Deny);
        assert(matcher_matches(rules[r].matcher, expected + rest));
        assert(matcher_matches(rules[r].matcher, expected));
        assert(!filter_admits(rules, expected + rest));
        assert(!filter_admits(rules, expected));
    }
}

} // verus!
