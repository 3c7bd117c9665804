//! What a tool is, from the runner's side.
//!
//! Arguments arrive from the model as JSON text and stay text until the tool
//! that owns them parses them. A result goes back to the model as a JSON
//! string, and what bounds it is the size of that encoding: quotes and
//! escapes included.

use vstd::prelude::*;
use vstd::string::StrSliceExecFns;
use vstd::utf8::encode_utf8;
use crate::text::{chars_of, decimal, decimal_text, joined};

verus! {

/// The most encoded bytes one retained tool result may occupy.
pub const TOOL_RESULT_BYTES: usize = 30000;

/// The smallest descriptor-local result limit that can always state elision.
pub const TOOL_RESULT_MIN_BYTES: usize = 160;

/// `n`, or `usize::MAX` where `n` is larger: what a chain of saturating
/// additions of non-negative numbers comes to.
pub open spec fn capped(n: int) -> int {
    if n > usize::MAX {
        usize::MAX as int
    } else {
        n
    }
}

/// `a - b`, or zero where `b` is larger.
pub open spec fn floored_sub(a: int, b: int) -> int {
    if a >= b {
        a - b
    } else {
        0
    }
}

/// How many bytes one character takes inside a JSON string: two for the
/// characters with a short escape, six for the other control characters,
/// and its UTF-8 width otherwise.
pub open spec fn json_char_bytes(c: char) -> nat {
    if c == '"' || c == '\\' || c == '\u{08}' || c == '\u{0c}' || c == '\n' || c == '\r' || c
        == '\t' {
        2
    } else if (c as u32) < 0x20 {
        6
    } else if (c as u32) < 0x80 {
        1
    } else if (c as u32) < 0x800 {
        2
    } else if (c as u32) < 0x10000 {
        3
    } else {
        4
    }
}

/// How many bytes `s` takes inside a JSON string, quotes not counted.
pub open spec fn json_text_bytes(s: Seq<char>) -> nat
    decreases s.len(),
{
    if s.len() == 0 {
        0
    } else {
        json_text_bytes(s.drop_last()) + json_char_bytes(s.last())
    }
}

/// How many bytes `s` takes as a JSON string, quotes counted, saturating.
pub open spec fn json_string_bytes(s: Seq<char>) -> int {
    capped(2 + json_text_bytes(s) as int)
}

/// The encoded size of two pieces is the sum of theirs.
pub proof fn lemma_json_bytes_concat(a: Seq<char>, b: Seq<char>)
    ensures
        json_text_bytes(a + b) == json_text_bytes(a) + json_text_bytes(b),
    decreases b.len(),
{
    if b.len() == 0 {
        assert(a + b =~= a);
    } else {
        assert((a + b).drop_last() =~= a + b.drop_last());
        assert((a + b).last() == b.last());
        lemma_json_bytes_concat(a, b.drop_last());
    }
}

/// One character costs what it costs alone.
pub proof fn lemma_json_bytes_single(c: char)
    ensures
        json_text_bytes(seq![c]) == json_char_bytes(c),
{
    reveal_with_fuel(json_text_bytes, 2);
    assert(seq![c].drop_last() =~= Seq::<char>::empty());
    assert(seq![c].last() == c);
}

/// A longer prefix never costs less.
pub proof fn lemma_json_bytes_prefix_grows(s: Seq<char>, i: int, j: int)
    requires
        0 <= i <= j <= s.len(),
    ensures
        json_text_bytes(s.take(i)) <= json_text_bytes(s.take(j)),
{
    assert(s.take(j) =~= s.take(i) + s.subrange(i, j));
    lemma_json_bytes_concat(s.take(i), s.subrange(i, j));
}

/// A longer suffix never costs less.
pub proof fn lemma_json_bytes_suffix_grows(s: Seq<char>, i: int, j: int)
    requires
        0 <= i <= j <= s.len(),
    ensures
        json_text_bytes(s.skip(j)) <= json_text_bytes(s.skip(i)),
{
    assert(s.skip(i) =~= s.subrange(i, j) + s.skip(j));
    lemma_json_bytes_concat(s.subrange(i, j), s.skip(j));
}

/// Decimal digits cost one byte each.
pub proof fn lemma_json_bytes_decimal(n: nat)
    ensures
        json_text_bytes(decimal(n)) == decimal(n).len(),
    decreases n,
{
    if n < 10 {
        lemma_json_bytes_single(crate::text::digit_char(n as int));
    } else {
        lemma_json_bytes_decimal(n / 10);
        lemma_json_bytes_concat(decimal(n / 10), seq![crate::text::digit_char((n % 10) as int)]);
        lemma_json_bytes_single(crate::text::digit_char((n % 10) as int));
    }
}

/// A smaller number has no more digits.
pub proof fn lemma_decimal_len_grows(m: nat, n: nat)
    requires
        m <= n,
    ensures
        decimal(m).len() <= decimal(n).len(),
    decreases n,
{
    if m >= 10 {
        lemma_decimal_len_grows(m / 10, n / 10);
    }
}

/// `s.take(k)` is the longest prefix of `s` whose encoded size stays within
/// `budget`.
pub open spec fn longest_prefix_within(s: Seq<char>, k: int, budget: int) -> bool {
    &&& 0 <= k <= s.len()
    &&& json_text_bytes(s.take(k)) <= budget
    &&& k < s.len() ==> json_text_bytes(s.take(k + 1)) > budget
}

/// `s.skip(j)` is the longest suffix of `s` whose encoded size stays within
/// `budget`.
pub open spec fn longest_suffix_within(s: Seq<char>, j: int, budget: int) -> bool {
    &&& 0 <= j <= s.len()
    &&& json_text_bytes(s.skip(j)) <= budget
    &&& j > 0 ==> json_text_bytes(s.skip(j - 1)) > budget
}

/// There is only one longest prefix within a budget.
pub proof fn lemma_longest_prefix_unique(s: Seq<char>, k1: int, k2: int, budget: int)
    requires
        longest_prefix_within(s, k1, budget),
        longest_prefix_within(s, k2, budget),
    ensures
        k1 == k2,
{
    if k1 < k2 {
        lemma_json_bytes_prefix_grows(s, k1 + 1, k2);
    } else if k2 < k1 {
        lemma_json_bytes_prefix_grows(s, k2 + 1, k1);
    }
}

/// There is only one longest suffix within a budget.
pub proof fn lemma_longest_suffix_unique(s: Seq<char>, j1: int, j2: int, budget: int)
    requires
        longest_suffix_within(s, j1, budget),
        longest_suffix_within(s, j2, budget),
    ensures
        j1 == j2,
{
    if j1 < j2 {
        lemma_json_bytes_suffix_grows(s, j1, j2 - 1);
    } else if j2 < j1 {
        lemma_json_bytes_suffix_grows(s, j2, j1 - 1);
    }
}

/// How many leading characters of `s` fit in `budget` encoded bytes.
pub open spec fn head_kept(s: Seq<char>, budget: int) -> int {
    choose|k: int| longest_prefix_within(s, k, budget)
}

/// Where the trailing characters of `s` that fit in `budget` begin.
pub open spec fn tail_start(s: Seq<char>, budget: int) -> int {
    choose|j: int| longest_suffix_within(s, j, budget)
}

/// The two ends of `s` that an elision to `budget` source bytes keeps: the
/// longest head within half of it, then the longest tail of what is left
/// within the rest.
pub open spec fn kept_ends(s: Seq<char>, budget: int) -> (Seq<char>, Seq<char>) {
    let k = head_kept(s, budget / 2);
    let rest = s.skip(k);
    (s.take(k), rest.skip(tail_start(rest, budget - budget / 2)))
}

fn encoded_character_bytes(c: char) -> (bytes: usize)
    ensures
        bytes == json_char_bytes(c),
{
    let code = c as u32;
    if c == '"' || c == '\\' || code == 0x08 || code == 0x0c || c == '\n' || c == '\r' || c
        == '\t' {
        2
    } else if code < 0x20 {
        6
    } else if code < 0x80 {
        1
    } else if code < 0x800 {
        2
    } else if code < 0x10000 {
        3
    } else {
        4
    }
}

fn encoded_content_bytes(text: &str) -> (bytes: usize)
    ensures
        bytes == capped(json_text_bytes(text@) as int),
{
    let mut bytes: usize = 0;
    for c in it: text.chars()
        invariant
            it.seq() == text@,
            bytes == capped(json_text_bytes(text@.take(it.index() as int)) as int),
    {
        proof {
            let i = it.index() as int;
            assert(text@.take(i + 1).drop_last() =~= text@.take(i));
            assert(text@.take(i + 1).last() == c);
        }
        bytes = bytes.saturating_add(encoded_character_bytes(c));
    }
    assert(text@.take(text@.len() as int) =~= text@);
    bytes
}

/// The size `text` takes as a JSON string, quotes and escapes included;
/// `usize::MAX` where it is larger.
pub fn encoded_string_bytes(text: &str) -> (bytes: usize)
    ensures
        bytes == json_string_bytes(text@),
{
    2usize.saturating_add(encoded_content_bytes(text))
}

fn encoded_ends<'a>(text: &'a str, budget: usize) -> (ends: (&'a str, &'a str, usize))
    ensures
        ends.0@ == kept_ends(text@, budget as int).0,
        ends.1@ == kept_ends(text@, budget as int).1,
        ends.2 == json_text_bytes(ends.0@) + json_text_bytes(ends.1@),
        ends.2 <= budget,
{
    let chars = chars_of(text);
    let head_budget = budget / 2;
    let tail_budget = budget - head_budget;
    let ghost s = text@;

    let mut head_end: usize = 0;
    let mut head_cost: usize = 0;
    while head_end < chars.len() && encoded_character_bytes(chars[head_end]) <= head_budget
        - head_cost
        invariant
            chars@ == s,
            s == text@,
            head_end <= chars@.len(),
            head_cost == json_text_bytes(s.take(head_end as int)),
            head_cost <= head_budget,
        decreases chars@.len() - head_end,
    {
        proof {
            let i = head_end as int;
            assert(s.take(i + 1).drop_last() =~= s.take(i));
        }
        head_cost = head_cost + encoded_character_bytes(chars[head_end]);
        head_end = head_end + 1;
    }
    proof {
        let i = head_end as int;
        if i < s.len() {
            assert(s.take(i + 1).drop_last() =~= s.take(i));
        }
        assert(longest_prefix_within(s, i, head_budget as int));
        lemma_longest_prefix_unique(s, i, head_kept(s, head_budget as int), head_budget as int);
    }

    let ghost rest = s.skip(head_end as int);
    let mut start: usize = chars.len();
    let mut tail_cost: usize = 0;
    while start > head_end && encoded_character_bytes(chars[start - 1]) <= tail_budget
        - tail_cost
        invariant
            chars@ == s,
            rest == s.skip(head_end as int),
            head_end <= start <= chars@.len(),
            tail_cost == json_text_bytes(s.skip(start as int)),
            tail_cost <= tail_budget,
        decreases start,
    {
        proof {
            let i = start as int;
            assert(s.skip(i - 1) =~= seq![s[i - 1]] + s.skip(i));
            lemma_json_bytes_concat(seq![s[i - 1]], s.skip(i));
            lemma_json_bytes_single(s[i - 1]);
        }
        tail_cost = tail_cost + encoded_character_bytes(chars[start - 1]);
        start = start - 1;
    }
    proof {
        let j = start - head_end;
        assert(rest.skip(j) =~= s.skip(start as int));
        if j > 0 {
            let i = start as int;
            assert(rest.skip(j - 1) =~= s.skip(i - 1));
            assert(s.skip(i - 1) =~= seq![s[i - 1]] + s.skip(i));
            lemma_json_bytes_concat(seq![s[i - 1]], s.skip(i));
            lemma_json_bytes_single(s[i - 1]);
        }
        assert(longest_suffix_within(rest, j, tail_budget as int));
        lemma_longest_suffix_unique(rest, j, tail_start(rest, tail_budget as int), tail_budget as int);
        assert(s.skip(start as int) =~= s.subrange(start as int, s.len() as int));
        assert(s.take(head_end as int) =~= s.subrange(0, head_end as int));
    }
    let head = text.substring_char(0, head_end);
    let tail = text.substring_char(start, chars.len());
    (head, tail, head_cost + tail_cost)
}


/// The sentence put where the middle of a result was cut out: the encoded
/// size the result had and how much of it was omitted, after what capture
/// had already left out where it left anything.
pub open spec fn elision_note(original: int, omitted: int, capture: Option<(usize, usize)>) -> Seq<
    char,
> {
    let captured = match capture {
        Some(counts) => "process output was "@ + decimal(counts.0 as nat) + " bytes; "@ + decimal(
            counts.1 as nat,
        ) + " bytes omitted during capture; "@,
        None => Seq::<char>::empty(),
    };
    "\n\n["@ + captured + "tool result was "@ + decimal(original as nat) + " encoded bytes; "@
        + decimal(omitted as nat) + " encoded bytes omitted from the middle]\n\n"@
}

/// A power of ten.
pub open spec fn ten_to(k: nat) -> nat
    decreases k,
{
    if k == 0 { 1 } else { 10 * ten_to((k - 1) as nat) }
}

proof fn lemma_decimal_len_below(n: nat, k: nat)
    requires
        k >= 1,
        n < ten_to(k),
    ensures
        decimal(n).len() <= k,
    decreases k,
{
    if n >= 10 {
        assert(k >= 2) by {
            if k == 1 {
                assert(ten_to(1) == 10 * ten_to(0));
            }
        }
        let b = ten_to((k - 1) as nat);
        assert(n / 10 < b) by (nonlinear_arith)
            requires
                n < 10 * b,
        ;
        lemma_decimal_len_below(n / 10, (k - 1) as nat);
    }
}

/// A `u64` is spelled in at most twenty digits, each one byte in JSON.
proof fn lemma_u64_decimal_json(n: nat)
    requires
        n <= u64::MAX,
    ensures
        json_text_bytes(decimal(n)) <= 20,
{
    assert(ten_to(20) == 100000000000000000000) by {
        reveal_with_fuel(ten_to, 21);
    }
    lemma_decimal_len_below(n, 20);
    lemma_json_bytes_decimal(n);
}

/// Whether every character of `s` is one JSON byte: printable ASCII other
/// than a quote or a backslash.
spec fn plain_ascii(s: Seq<char>) -> bool {
    forall|i: int| 0 <= i < s.len() ==> 0x20 <= (#[trigger] s[i] as u32) < 0x80 && s[i] != '"'
        && s[i] != '\\'
}

proof fn lemma_plain_json_bytes(s: Seq<char>)
    requires
        plain_ascii(s),
    ensures
        json_text_bytes(s) == s.len(),
    decreases s.len(),
{
    if s.len() > 0 {
        assert(plain_ascii(s.drop_last())) by {
            assert forall|i: int| 0 <= i < s.drop_last().len() implies 0x20 <= (
            #[trigger] s.drop_last()[i] as u32) < 0x80 && s.drop_last()[i] != '"'
                && s.drop_last()[i] != '\\' by {
                assert(s.drop_last()[i] == s[i]);
            }
        }
        lemma_plain_json_bytes(s.drop_last());
        assert(s.last() == s[s.len() - 1]);
    }
}

/// Without a capture note, the elision note of any `usize` counts fits the
/// smallest local result limit, quotes included.
pub proof fn lemma_plain_note_fits_the_floor(original: usize, omitted: usize)
    ensures
        2 + json_text_bytes(elision_note(original as int, omitted as int, None)) <= TOOL_RESULT_MIN_BYTES,
{
    reveal_strlit("\n\n[");
    reveal_strlit("tool result was ");
    reveal_strlit(" encoded bytes; ");
    reveal_strlit(" encoded bytes omitted from the middle]");
    reveal_strlit(" encoded bytes omitted from the middle]\n\n");
    let open = "\n\n["@;
    let lead = "tool result was "@;
    let mid = " encoded bytes; "@;
    let tail = " encoded bytes omitted from the middle]"@;
    let close = " encoded bytes omitted from the middle]\n\n"@;
    assert(close =~= tail + seq!['\n', '\n']);
    assert(json_text_bytes(open) == 5) by {
        reveal_with_fuel(json_text_bytes, 4);
        assert(open.drop_last() =~= seq!['\n', '\n']);
        assert(open.drop_last().drop_last() =~= seq!['\n']);
        assert(open.drop_last().drop_last().drop_last() =~= Seq::<char>::empty());
    }
    lemma_plain_json_bytes(lead);
    lemma_plain_json_bytes(mid);
    lemma_plain_json_bytes(tail);
    assert(json_text_bytes(seq!['\n', '\n']) == 4) by {
        reveal_with_fuel(json_text_bytes, 3);
        assert(seq!['\n', '\n'].drop_last() =~= seq!['\n']);
        assert(seq!['\n'].drop_last() =~= Seq::<char>::empty());
    }
    lemma_json_bytes_concat(tail, seq!['\n', '\n']);
    lemma_u64_decimal_json(original as nat);
    lemma_u64_decimal_json(omitted as nat);
    let a = decimal(original as nat);
    let b = decimal(omitted as nat);
    assert(elision_note(original as int, omitted as int, None) =~= open + lead + a + mid + b + close);
    lemma_json_bytes_concat(open, lead);
    lemma_json_bytes_concat(open + lead, a);
    lemma_json_bytes_concat(open + lead + a, mid);
    lemma_json_bytes_concat(open + lead + a + mid, b);
    lemma_json_bytes_concat(open + lead + a + mid + b, close);
}

/// A note naming fewer omitted bytes is never longer.
pub proof fn lemma_elision_note_shrinks(
    original: nat,
    fewer: nat,
    more: nat,
    capture: Option<(usize, usize)>,
)
    requires
        fewer <= more,
    ensures
        json_text_bytes(elision_note(original as int, fewer as int, capture)) <= json_text_bytes(
            elision_note(original as int, more as int, capture),
        ),
{
    let captured = match capture {
        Some(counts) => "process output was "@ + decimal(counts.0 as nat) + " bytes; "@ + decimal(
            counts.1 as nat,
        ) + " bytes omitted during capture; "@,
        None => Seq::<char>::empty(),
    };
    let lead = "\n\n["@ + captured + "tool result was "@ + decimal(original) + " encoded bytes; "@;
    let close = " encoded bytes omitted from the middle]\n\n"@;
    assert(elision_note(original as int, fewer as int, capture) == lead + decimal(fewer) + close);
    assert(elision_note(original as int, more as int, capture) == lead + decimal(more) + close);
    lemma_json_bytes_concat(lead + decimal(fewer), close);
    lemma_json_bytes_concat(lead, decimal(fewer));
    lemma_json_bytes_concat(lead + decimal(more), close);
    lemma_json_bytes_concat(lead, decimal(more));
    lemma_json_bytes_decimal(fewer);
    lemma_json_bytes_decimal(more);
    lemma_decimal_len_grows(fewer, more);
}

fn elision(original: usize, omitted: usize, capture: Option<(usize, usize)>) -> (note: String)
    ensures
        note@ == elision_note(original as int, omitted as int, capture),
{
    let captured = match capture {
        Some(counts) => {
            let said = joined("process output was ".to_owned(), decimal_text(counts.0 as u64).as_str());
            let said = joined(joined(said, " bytes; "), decimal_text(counts.1 as u64).as_str());
            joined(said, " bytes omitted during capture; ")
        },
        None => String::new(),
    };
    let note = joined(joined("\n\n[".to_owned(), captured.as_str()), "tool result was ");
    let note = joined(joined(note, decimal_text(original as u64).as_str()), " encoded bytes; ");
    let note = joined(note, decimal_text(omitted as u64).as_str());
    joined(note, " encoded bytes omitted from the middle]\n\n")
}

/// How much of the encoded allowance is left for the result's own ends once
/// the quotes and the longest note it could need are set aside.
pub open spec fn elision_budget(original: int, maximum: int, capture: Option<(usize, usize)>) -> int {
    floored_sub(
        floored_sub(maximum, 2),
        capped(json_text_bytes(elision_note(original, original, capture)) as int),
    )
}

/// How many encoded bytes of `s` an elision to `maximum` leaves out.
pub open spec fn elided_count(s: Seq<char>, maximum: int, capture: Option<(usize, usize)>) -> int {
    let original = json_string_bytes(s);
    let ends = kept_ends(s, elision_budget(original, maximum, capture));
    floored_sub(floored_sub(original, 2), (json_text_bytes(ends.0) + json_text_bytes(ends.1)) as int)
}

/// `s` with its middle replaced by the note saying what was left out.
pub open spec fn elided_text(s: Seq<char>, maximum: int, capture: Option<(usize, usize)>) -> Seq<
    char,
> {
    let original = json_string_bytes(s);
    let ends = kept_ends(s, elision_budget(original, maximum, capture));
    ends.0 + elision_note(original, elided_count(s, maximum, capture), capture) + ends.1
}

/// Why a tool call did not produce a result.
///
/// A tool that ran and decided the answer is "no such file" returns a failed
/// [`ToolOutput`] instead: that is a result the model should see and act on.
#[derive(Debug)]
pub enum ToolError {
    /// The model asked for a tool that is not registered.
    Unknown(String),
    /// The arguments were not the shape this tool takes.
    Arguments {
        /// Which tool rejected them.
        tool: String,
        /// What was wrong, in words the model can act on.
        problem: String,
    },
    /// The operating system refused.
    Io {
        /// Which tool was running.
        tool: String,
        /// What failed, without the underlying path if it is sensitive.
        problem: String,
        /// What the operating system reported.
        source: std::io::Error,
    },
    /// The user cancelled while the tool was running.
    Cancelled(String),
    /// The provider returned a call whose retained identity or arguments were
    /// unusable at invocation admission.
    InvalidCall {
        /// Which call field crossed its boundary.
        field: &'static str,
        /// The retained boundary.
        maximum: usize,
        /// What the call supplied.
        actual: usize,
    },
    /// An admission from one immutable generation was presented to another.
    StaleGeneration {
        /// The provider-visible name, without either generation identity.
        tool: String,
    },
}

/// The sentence a [`ToolError`] reads as.
pub open spec fn tool_error_text(error: ToolError) -> Seq<char> {
    match error {
        ToolError::Unknown(tool) => "no tool named "@ + tool@,
        ToolError::Arguments { tool, problem } => tool@ + ": "@ + problem@,
        ToolError::Io { tool, problem, .. } => tool@ + ": "@ + problem@,
        ToolError::Cancelled(tool) => tool@ + " cancelled"@,
        ToolError::InvalidCall { field, maximum, actual } => "invalid tool call "@ + field@ + ": "@
            + decimal(actual as nat) + " bytes; the maximum is "@ + decimal(maximum as nat),
        ToolError::StaleGeneration { tool } => "tool "@ + tool@
            + " is not reachable in the admitted generation"@,
    }
}

impl ToolError {
    /// The sentence this error reads as.
    pub fn message(&self) -> (text: String)
        ensures
            text@ == tool_error_text(*self),
    {
        match self {
            Self::Unknown(tool) => joined("no tool named ".to_owned(), tool.as_str()),
            Self::Arguments { tool, problem } => joined(joined(tool.clone(), ": "), problem.as_str()),
            Self::Io { tool, problem, .. } => joined(joined(tool.clone(), ": "), problem.as_str()),
            Self::Cancelled(tool) => joined(tool.clone(), " cancelled"),
            Self::InvalidCall { field, maximum, actual } => {
                let said = joined(joined("invalid tool call ".to_owned(), field), ": ");
                let said = joined(said, decimal_text(*actual as u64).as_str());
                let said = joined(said, " bytes; the maximum is ");
                joined(said, decimal_text(*maximum as u64).as_str())
            },
            Self::StaleGeneration { tool } => {
                let said = joined("tool ".to_owned(), tool.as_str());
                joined(said, " is not reachable in the admitted generation")
            },
        }
    }
}

/// Tool arguments as JSON text.
///
/// Deliberately not a parsed value: argument validation and interpretation
/// belong to the tool whose schema describes them.
#[derive(Clone, PartialEq, Eq)]
pub struct ToolArgs(String);

impl View for ToolArgs {
    type V = Seq<char>;

    closed spec fn view(&self) -> Seq<char> {
        self.0@
    }
}

impl ToolArgs {
    /// Takes the argument text a provider streamed.
    pub fn new(json: &str) -> (args: Self)
        ensures
            args@ == json@,
    {
        Self(json.to_owned())
    }

    /// The JSON text, for the owning tool to parse.
    pub fn as_str(&self) -> (json: &str)
        ensures
            json@ == self@,
    {
        self.0.as_str()
    }
}

/// What a call is about, in the words the transcript shows beside the tool's
/// name.
#[derive(Clone, PartialEq, Eq)]
pub struct Summary(String);

impl View for Summary {
    type V = Seq<char>;

    closed spec fn view(&self) -> Seq<char> {
        self.0@
    }
}

impl Summary {
    /// Takes the words a tool worked out from its own arguments.
    pub fn new(said: &str) -> (summary: Self)
        ensures
            summary@ == said@,
    {
        Self(said.to_owned())
    }

    /// The words, for whatever is drawing the row.
    pub fn as_str(&self) -> (said: &str)
        ensures
            said@ == self@,
    {
        self.0.as_str()
    }

    /// Whether the call said nothing that could be summarised.
    pub fn is_empty(&self) -> (empty: bool)
        ensures
            empty == (self@.len() == 0),
    {
        self.0.as_str().is_empty()
    }
}

/// What a call that only looked around was looking at.
#[derive(Debug, Clone, Copy, PartialEq, Eq, Hash, Structural)]
pub enum Looking {
    /// A search for a pattern through the workspace's text.
    Pattern,
    /// A file read.
    File,
    /// A walk over what a directory holds.
    Directory,
    /// A command run that only reported what it found.
    Command,
}

/// A file a call touched, volunteered for a compaction to remember.
#[derive(Clone, PartialEq, Eq)]
pub struct Remembered {
    path: String,
    modified: bool,
}

impl View for Remembered {
    type V = (Seq<char>, bool);

    closed spec fn view(&self) -> (Seq<char>, bool) {
        (self.path@, self.modified)
    }
}

impl Remembered {
    /// A file the call read.
    pub fn read(path: &str) -> (remembered: Self)
        ensures
            remembered@ == (path@, false),
    {
        Self { path: path.to_owned(), modified: false }
    }

    /// A file the call changed.
    pub fn modified(path: &str) -> (remembered: Self)
        ensures
            remembered@ == (path@, true),
    {
        Self { path: path.to_owned(), modified: true }
    }

    /// The path, as the call spelled it.
    pub fn path(&self) -> (path: &str)
        ensures
            path@ == self@.0,
    {
        self.path.as_str()
    }

    /// Whether the call changed the file rather than only read it.
    pub fn is_modified(&self) -> (modified: bool)
        ensures
            modified == self@.1,
    {
        self.modified
    }
}

/// What the model said a call is for: one line, and the paragraphs behind it.
#[derive(Clone, PartialEq, Eq)]
pub struct Account {
    description: String,
    explanation: Vec<String>,
}

/// The content of an [`Account`].
pub struct AccountView {
    pub description: Seq<char>,
    pub explanation: Seq<Seq<char>>,
}

impl View for Account {
    type V = AccountView;

    closed spec fn view(&self) -> AccountView {
        AccountView {
            description: self.description@,
            explanation: Seq::new(self.explanation@.len(), |i: int| self.explanation@[i]@),
        }
    }
}

impl Account {
    /// Takes the one line a call gave about itself.
    pub fn new(description: &str) -> (account: Self)
        ensures
            account@.description == description@,
            account@.explanation.len() == 0,
    {
        Self { description: description.to_owned(), explanation: Vec::new() }
    }

    /// Takes the line and the paragraphs behind it, in the order written.
    pub fn explained(description: &str, explanation: &[&str]) -> (account: Self)
        ensures
            account@.description == description@,
            account@.explanation.len() == explanation@.len(),
            forall|i: int|
                0 <= i < explanation@.len() ==> #[trigger] account@.explanation[i]
                    == explanation@[i]@,
    {
        let mut paragraphs: Vec<String> = Vec::new();
        let mut i: usize = 0;
        while i < explanation.len()
            invariant
                i <= explanation@.len(),
                paragraphs@.len() == i,
                forall|j: int| 0 <= j < i ==> #[trigger] paragraphs@[j]@ == explanation@[j]@,
            decreases explanation@.len() - i,
        {
            paragraphs.push(explanation[i].to_owned());
            i = i + 1;
        }
        Self { description: description.to_owned(), explanation: paragraphs }
    }

    /// A call that said nothing about itself.
    pub fn none() -> (account: Self)
        ensures
            account@.description.len() == 0,
            account@.explanation.len() == 0,
    {
        Self { description: String::new(), explanation: Vec::new() }
    }

    /// The line, for whatever is drawing the question.
    pub fn description(&self) -> (line: &str)
        ensures
            line@ == self@.description,
    {
        self.description.as_str()
    }

    /// The paragraphs, in the order they were written.
    pub fn explanation(&self) -> (paragraphs: Vec<&str>)
        ensures
            paragraphs@.len() == self@.explanation.len(),
            forall|i: int|
                0 <= i < paragraphs@.len() ==> #[trigger] paragraphs@[i]@ == self@.explanation[i],
    {
        let mut paragraphs: Vec<&str> = Vec::new();
        let mut i: usize = 0;
        while i < self.explanation.len()
            invariant
                i <= self.explanation@.len(),
                paragraphs@.len() == i,
                forall|j: int|
                    0 <= j < i ==> #[trigger] paragraphs@[j]@ == self.explanation@[j]@,
            decreases self.explanation@.len() - i,
        {
            paragraphs.push(self.explanation[i].as_str());
            i = i + 1;
        }
        paragraphs
    }
}

/// One piece of what a running tool has printed.
#[derive(Clone, PartialEq, Eq)]
pub struct Wrote(String);

impl View for Wrote {
    type V = Seq<char>;

    closed spec fn view(&self) -> Seq<char> {
        self.0@
    }
}

impl Wrote {
    /// Takes what a tool has produced since it last said anything.
    pub fn new(text: &str) -> (wrote: Self)
        ensures
            wrote@ == text@,
    {
        Self(text.to_owned())
    }

    /// The text, for whatever is drawing it.
    pub fn as_str(&self) -> (text: &str)
        ensures
            text@ == self@,
    {
        self.0.as_str()
    }
}

/// Where a tool reports what it has printed, while it is still running.
pub trait Watch {
    /// Reports what has been produced since the last time this was called.
    fn wrote(&self, text: Wrote);
}

/// Nobody is reading: what a caller with nothing to draw hands a tool.
#[derive(Debug, Clone, Copy)]
pub struct Unwatched;

impl Watch for Unwatched {
    fn wrote(&self, text: Wrote) {
    }
}

/// How many lines a call changed, once the lines themselves are gone.
#[derive(Debug, Clone, Copy, PartialEq, Eq, Structural)]
pub struct Changed {
    added: usize,
    removed: usize,
}

impl View for Changed {
    type V = (usize, usize);

    closed spec fn view(&self) -> (usize, usize) {
        (self.added, self.removed)
    }
}

impl Changed {
    /// The counts a call ended with.
    pub fn new(added: usize, removed: usize) -> (changed: Self)
        ensures
            changed@ == (added, removed),
    {
        Self { added, removed }
    }

    /// How many lines the change put in.
    pub fn added(&self) -> (added: usize)
        ensures
            added == self@.0,
    {
        self.added
    }

    /// How many it took out.
    pub fn removed(&self) -> (removed: usize)
        ensures
            removed == self@.1,
    {
        self.removed
    }

    /// Whether the call left the file exactly as it was.
    pub fn is_empty(&self) -> (empty: bool)
        ensures
            empty == (self@.0 == 0 && self@.1 == 0),
    {
        self.added == 0 && self.removed == 0
    }
}

#[derive(Clone, Copy, PartialEq, Eq, Structural)]
struct CaptureElision {
    original: usize,
    omitted: usize,
}

/// What one encoded-result bound retained and omitted.
#[derive(Debug, Clone, Copy, PartialEq, Eq, Structural)]
pub struct ToolOutputRetention {
    original: usize,
    retained: usize,
    omitted: usize,
}

impl View for ToolOutputRetention {
    /// The original size, the retained size and the omitted source bytes.
    type V = (usize, usize, usize);

    closed spec fn view(&self) -> (usize, usize, usize) {
        (self.original, self.retained, self.omitted)
    }
}

impl ToolOutputRetention {
    /// The original JSON-string size, including quotes and escapes.
    pub fn original(self) -> (original: usize)
        ensures
            original == self@.0,
    {
        self.original
    }

    /// The final JSON-string size retained for the model.
    pub fn retained(self) -> (retained: usize)
        ensures
            retained == self@.1,
    {
        self.retained
    }

    /// Encoded source bytes removed from the middle.
    pub fn omitted(self) -> (omitted: usize)
        ensures
            omitted == self@.2,
    {
        self.omitted
    }
}

/// What a tool produced, on its way back to the model.
#[derive(Clone, PartialEq, Eq)]
pub struct ToolOutput {
    text: String,
    failed: bool,
    capture: Option<CaptureElision>,
    changed: Option<Changed>,
}

/// The content of a [`ToolOutput`]: its text, whether it failed, what
/// capture already left out (the original and omitted process bytes), and
/// the counts of the change it reported.
pub struct ToolOutputView {
    pub text: Seq<char>,
    pub failed: bool,
    pub capture: Option<(usize, usize)>,
    pub changed: Option<(usize, usize)>,
}

impl View for ToolOutput {
    type V = ToolOutputView;

    closed spec fn view(&self) -> ToolOutputView {
        ToolOutputView {
            text: self.text@,
            failed: self.failed,
            capture: match self.capture {
                Some(c) => Some((c.original, c.omitted)),
                None => None,
            },
            changed: match self.changed {
                Some(c) => Some(c@),
                None => None,
            },
        }
    }
}

/// The number of bytes `s` takes in UTF-8.
pub open spec fn utf8_bytes(s: Seq<char>) -> int {
    encode_utf8(s).len() as usize as int
}

/// The placeholder a cleared result reads as.
pub open spec fn cleared_note(freed: int) -> Seq<char> {
    "[cleared to make room \u{2014} "@ + decimal(freed as nat) + " bytes]"@
}

impl ToolOutput {
    /// The smallest result worth clearing, in bytes.
    pub const MIN_PRUNE_BYTES: usize = 64;

    /// A successful result.
    pub fn ok(text: &str) -> (output: Self)
        ensures
            output@ == (ToolOutputView { text: text@, failed: false, capture: None, changed: None }),
    {
        Self { text: text.to_owned(), failed: false, capture: None, changed: None }
    }

    /// A result the model should treat as a failure it can react to.
    pub fn failed(text: &str) -> (output: Self)
        ensures
            output@ == (ToolOutputView { text: text@, failed: true, capture: None, changed: None }),
    {
        Self { text: text.to_owned(), failed: true, capture: None, changed: None }
    }

    /// The same result, with the header a reader was shown and no lines under
    /// it.
    pub fn counting(self, changed: Changed) -> (output: Self)
        ensures
            output@ == (ToolOutputView { changed: Some(changed@), ..self@ }),
    {
        let mut output = self;
        output.changed = Some(changed);
        output
    }

    /// The same result, saying again what it said before something replaced
    /// its text. Only the text changes.
    pub fn saying(self, text: &str) -> (output: Self)
        ensures
            output@ == (ToolOutputView { text: text@, ..self@ }),
    {
        let mut output = self;
        output.text = text.to_owned();
        output
    }

    /// The text the model sees.
    pub fn text(&self) -> (text: &str)
        ensures
            text@ == self@.text,
    {
        self.text.as_str()
    }

    /// The same text, out of the result and into whatever asked for it.
    pub fn into_text(self) -> (text: String)
        ensures
            text@ == self@.text,
    {
        self.text
    }

    /// Whether the provider should mark this result as an error.
    pub fn is_failed(&self) -> (failed: bool)
        ensures
            failed == self@.failed,
    {
        self.failed
    }

    /// Records what capture already left out, where it left anything out.
    pub fn with_capture_elision(self, original: usize, omitted: usize) -> (output: Self)
        ensures
            output@ == (ToolOutputView {
                capture: if omitted > 0 {
                    Some((original, omitted))
                } else {
                    None
                },
                ..self@
            }),
    {
        let mut output = self;
        output.capture = if omitted > 0 {
            Some(CaptureElision { original, omitted })
        } else {
            None
        };
        output
    }

    fn capture_counts(&self) -> (counts: Option<(usize, usize)>)
        ensures
            counts == self@.capture,
    {
        match self.capture {
            Some(c) => Some((c.original, c.omitted)),
            None => None,
        }
    }

    /// Elides the middle until the JSON-encoded text fits `maximum`.
    ///
    /// Both ends survive, and the note put between them states the original
    /// encoded size and the encoded bytes omitted. Where `maximum` leaves room
    /// for the longest note this result could need, the retained size never
    /// exceeds it; without a capture note, [`TOOL_RESULT_MIN_BYTES`] always
    /// leaves that room.
    pub fn limit_encoded(&mut self, maximum: usize) -> (retention: ToolOutputRetention)
        ensures
            ({
                let s = old(self)@.text;
                let original = json_string_bytes(s);
                let capture = old(self)@.capture;
                &&& retention@.0 == original
                &&& original <= maximum ==> final(self)@ == old(self)@ && retention@.1 == original
                    && retention@.2 == 0
                &&& original > maximum ==> final(self)@ == (ToolOutputView {
                    text: elided_text(s, maximum as int, capture),
                    ..old(self)@
                }) && retention@.1 == json_string_bytes(final(self)@.text) && retention@.2
                    == elided_count(s, maximum as int, capture)
                &&& maximum >= 2 + json_text_bytes(elision_note(original, original, capture))
                    ==> retention@.1 <= maximum
                &&& capture is None && maximum >= TOOL_RESULT_MIN_BYTES ==> retention@.1 <= maximum
            }),
    {
        let original = encoded_string_bytes(self.text.as_str());
        proof {
            lemma_plain_note_fits_the_floor(original, original);
        }
        if original <= maximum {
            return ToolOutputRetention { original, retained: original, omitted: 0 };
        }
        let ghost s = self@.text;
        let capture = self.capture_counts();
        let reserved = elision(original, original, capture);
        let source = maximum.saturating_sub(2).saturating_sub(encoded_content_bytes(reserved.as_str()));
        let ends = encoded_ends(self.text.as_str(), source);
        let kept = ends.2;
        let omitted = original.saturating_sub(2).saturating_sub(kept);
        let marker = elision(original, omitted, capture);
        let text = joined(joined(ends.0.to_owned(), marker.as_str()), ends.1);
        let ghost head = ends.0@;
        let ghost tail = ends.1@;
        self.text = text;
        let retained = encoded_string_bytes(self.text.as_str());
        proof {
            let reserved_bytes = json_text_bytes(reserved@);
            lemma_json_bytes_concat(head + marker@, tail);
            lemma_json_bytes_concat(head, marker@);
            lemma_elision_note_shrinks(original as nat, omitted as nat, original as nat, capture);
            if maximum >= 2 + reserved_bytes {
                assert(json_text_bytes(marker@) <= reserved_bytes);
                assert(retained <= 2 + kept + json_text_bytes(marker@));
            }
        }
        ToolOutputRetention { original, retained, omitted }
    }

    /// Replaces the text with a placeholder saying it was cleared, and says how
    /// much that freed. A result under [`ToolOutput::MIN_PRUNE_BYTES`] is left
    /// alone and frees nothing.
    pub fn prune(&mut self) -> (freed: usize)
        ensures
            ({
                let bytes = utf8_bytes(old(self)@.text);
                &&& bytes < Self::MIN_PRUNE_BYTES ==> freed == 0 && final(self)@ == old(self)@
                &&& bytes >= Self::MIN_PRUNE_BYTES ==> freed == bytes && final(self)@ == (
                ToolOutputView { text: cleared_note(bytes), capture: None, ..old(self)@ })
            }),
    {
        let freed = self.text.as_str().len();
        if freed < Self::MIN_PRUNE_BYTES {
            return 0;
        }
        let said = joined("[cleared to make room \u{2014} ".to_owned(), decimal_text(freed as u64).as_str());
        self.text = joined(said, " bytes]");
        self.capture = None;
        freed
    }

    /// How much it changed, where the lines are no longer here to be counted.
    pub fn changed(&self) -> (changed: Option<Changed>)
        ensures
            changed matches Some(c) ==> self@.changed == Some(c@),
            changed is None ==> self@.changed is None,
    {
        self.changed
    }
}

} // verus!
