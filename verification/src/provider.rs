//! What a provider is, from the runner's side: its failures, the effort
//! ladder, and what a response reports it spent and carried.

use vstd::prelude::*;

use crate::text::{
    ascii_lowercase, decimal, decimal_text, folds_to, joined, trim_text, trimmed,
};

verus! {

/// Why a credential could not be applied.
#[derive(Debug, Clone, PartialEq, Eq)]
pub enum CredentialError {
    /// The named environment variable holds no value.
    NotInEnvironment(String),
    /// A stored credential could not be renewed, for the reason given.
    NotRenewed(String),
}

/// The sentence a credential failure reads as.
pub open spec fn credential_text(error: CredentialError) -> Seq<char> {
    match error {
        CredentialError::NotInEnvironment(variable) => variable@ + " is not set"@,
        CredentialError::NotRenewed(problem) => problem@,
    }
}

impl CredentialError {
    /// The diagnostic sentence.
    pub fn message(&self) -> (text: String)
        ensures
            text@ == credential_text(*self),
    {
        match self {
            Self::NotInEnvironment(variable) => joined(variable.clone(), " is not set"),
            Self::NotRenewed(problem) => problem.clone(),
        }
    }
}

/// Which bounded part of one provider response grew too far.
#[derive(Debug, Clone, Copy, PartialEq, Eq, Structural)]
pub enum ProviderLimit {
    /// Visible answer text, in bytes.
    Text,
    /// Tool argument text across the response, in bytes.
    ToolArguments,
    /// One provider-assigned tool call identifier, in bytes.
    ToolCallId,
    /// One provider-supplied tool name, in bytes.
    ToolCallName,
    /// Tool call identifiers and names across the response, in bytes.
    ToolCallMetadata,
    /// Tool calls across the response.
    ToolCalls,
    /// Tool calls across one turn.
    TurnToolCalls,
    /// Provider-controlled bytes retained across one turn.
    TurnResponseBytes,
    /// Provider responses across one turn.
    ProviderResponses,
}

/// What a limit is called in a sentence.
pub open spec fn limit_text(limit: ProviderLimit) -> Seq<char> {
    match limit {
        ProviderLimit::Text => "response text"@,
        ProviderLimit::ToolArguments => "tool arguments"@,
        ProviderLimit::ToolCallId => "tool call identifier"@,
        ProviderLimit::ToolCallName => "tool call name"@,
        ProviderLimit::ToolCallMetadata => "tool call metadata"@,
        ProviderLimit::ToolCalls => "tool calls"@,
        ProviderLimit::TurnToolCalls => "tool calls across the turn"@,
        ProviderLimit::TurnResponseBytes => "response bytes across the turn"@,
        ProviderLimit::ProviderResponses => "provider responses across the turn"@,
    }
}

impl ProviderLimit {
    /// What the limit is called in a sentence.
    pub fn as_str(self) -> (text: &'static str)
        ensures
            text@ == limit_text(self),
    {
        match self {
            Self::Text => "response text",
            Self::ToolArguments => "tool arguments",
            Self::ToolCallId => "tool call identifier",
            Self::ToolCallName => "tool call name",
            Self::ToolCallMetadata => "tool call metadata",
            Self::ToolCalls => "tool calls",
            Self::TurnToolCalls => "tool calls across the turn",
            Self::TurnResponseBytes => "response bytes across the turn",
            Self::ProviderResponses => "provider responses across the turn",
        }
    }
}

/// Why a provider could not produce a response.
#[derive(Debug, Clone, PartialEq, Eq)]
pub enum ProviderError {
    /// A provider response exceeded a retained-resource bound.
    Limit {
        /// Which provider produced the unbounded response.
        provider: &'static str,
        /// What grew too far.
        limit: ProviderLimit,
        /// The enforced maximum.
        maximum: usize,
    },
    /// The request never reached the provider, or the connection broke.
    Transport {
        /// Which provider.
        provider: &'static str,
        /// What went wrong at the transport level.
        problem: String,
    },
    /// The provider answered with a status the request cannot recover from.
    Refused {
        /// Which provider.
        provider: &'static str,
        /// The HTTP status.
        status: u16,
        /// The provider's message.
        message: String,
    },
    /// The provider accepted the request and then reported a failure inside the
    /// response it was already streaming.
    Upstream {
        /// Which provider.
        provider: &'static str,
        /// What the provider called the failure.
        kind: String,
        /// The provider's message.
        message: String,
    },
    /// The response did not match the shape this provider expects.
    Protocol {
        /// Which provider.
        provider: &'static str,
        /// What did not fit.
        problem: String,
    },
    /// Authentication could not be applied.
    Credential {
        /// Which provider.
        provider: &'static str,
        /// The underlying failure.
        source: CredentialError,
    },
    /// The provider refused the request because it did not fit the window.
    WindowExceeded {
        /// Which provider refused it.
        provider: &'static str,
    },
    /// The user cancelled mid-stream.
    Cancelled(&'static str),
    /// There is nothing set up to send the turn to.
    Unconfigured(String),
}

/// Whether asking again could get a different answer: a broken transport or
/// a failure reported inside a response is about the moment, and so is a
/// refusal with status 408, 429 or any 5xx; every other failure is about the
/// request.
pub open spec fn is_transient(error: ProviderError) -> bool {
    match error {
        ProviderError::Transport { .. } | ProviderError::Upstream { .. } => true,
        ProviderError::Refused { status, .. } => status == 408 || status == 429 || (500 <= status
            <= 599),
        _ => false,
    }
}

/// The sentence a provider failure reads as.
pub open spec fn provider_error_text(error: ProviderError) -> Seq<char> {
    match error {
        ProviderError::Limit { provider, limit, maximum } => provider@ + ": "@ + limit_text(limit)
            + " exceeded its limit of "@ + decimal(maximum as nat),
        ProviderError::Transport { provider, problem } => provider@ + ": "@ + problem@,
        ProviderError::Refused { provider, status, message } => provider@ + ": HTTP "@ + decimal(
            status as nat,
        ) + ": "@ + message@,
        ProviderError::Upstream { provider, kind, message } => provider@ + ": "@ + kind@ + ": "@
            + message@,
        ProviderError::Protocol { provider, problem } => provider@ + ": unexpected response: "@
            + problem@,
        ProviderError::Credential { provider, source } => provider@ + ": "@ + credential_text(
            source,
        ),
        ProviderError::WindowExceeded { provider } => provider@
            + ": the request did not fit the model's window"@,
        ProviderError::Cancelled(provider) => provider@ + ": cancelled"@,
        ProviderError::Unconfigured(problem) => problem@,
    }
}

impl ProviderError {
    /// Whether asking again could reasonably get a different answer.
    ///
    /// The difference is whether the failure is about *this* request or about
    /// the moment it was made.
    pub fn transient(&self) -> (transient: bool)
        ensures
            transient == is_transient(*self),
    {
        match self {
            Self::Transport { .. } | Self::Upstream { .. } => true,
            Self::Refused { status, .. } => *status == 408 || *status == 429 || (500 <= *status
                && *status <= 599),
            Self::WindowExceeded { .. }
            | Self::Limit { .. }
            | Self::Protocol { .. }
            | Self::Credential { .. }
            | Self::Cancelled(_)
            | Self::Unconfigured(_) => false,
        }
    }

    /// The diagnostic sentence.
    pub fn message(&self) -> (text: String)
        ensures
            text@ == provider_error_text(*self),
    {
        match self {
            Self::Limit { provider, limit, maximum } => {
                let head = joined(joined((*provider).to_owned(), ": "), limit.as_str());
                let head = joined(head, " exceeded its limit of ");
                joined(head, decimal_text(*maximum as u64).as_str())
            },
            Self::Transport { provider, problem } => joined(
                joined((*provider).to_owned(), ": "),
                problem.as_str(),
            ),
            Self::Refused { provider, status, message } => {
                let head = joined((*provider).to_owned(), ": HTTP ");
                let head = joined(head, decimal_text(*status as u64).as_str());
                joined(joined(head, ": "), message.as_str())
            },
            Self::Upstream { provider, kind, message } => {
                let head = joined(joined((*provider).to_owned(), ": "), kind.as_str());
                joined(joined(head, ": "), message.as_str())
            },
            Self::Protocol { provider, problem } => joined(
                joined((*provider).to_owned(), ": unexpected response: "),
                problem.as_str(),
            ),
            Self::Credential { provider, source } => joined(
                joined((*provider).to_owned(), ": "),
                source.message().as_str(),
            ),
            Self::WindowExceeded { provider } => joined(
                (*provider).to_owned(),
                ": the request did not fit the model's window",
            ),
            Self::Cancelled(provider) => joined((*provider).to_owned(), ": cancelled"),
            Self::Unconfigured(problem) => problem.clone(),
        }
    }
}

/// What an attachment put in front of the model this time.
#[derive(Clone, Copy)]
pub enum Content<'a> {
    /// The file, read for this request and dropped when it returns.
    Bytes(&'a [u8]),
    /// A line naming the file, standing where its bytes would have gone.
    Instead(&'a str),
}

/// How hard a model is asked to think before it answers.
#[derive(Debug, Clone, Copy, PartialEq, Eq, PartialOrd, Ord, Structural)]
pub enum Effort {
    /// The fewest tokens: short, scoped work where speed is the point.
    Low,
    /// Some of the thinking, for a saving on all of it.
    Medium,
    /// The rung a session opens on, and what most vendors default to unasked.
    High,
    /// More than high, for work that runs long enough to be worth it.
    Xhigh,
    /// Everything the model has, with no ceiling on what it spends getting it.
    Max,
}

/// The word a rung is written as.
pub open spec fn effort_word(effort: Effort) -> Seq<char> {
    match effort {
        Effort::Low => "low"@,
        Effort::Medium => "medium"@,
        Effort::High => "high"@,
        Effort::Xhigh => "xhigh"@,
        Effort::Max => "max"@,
    }
}

/// Every rung, weakest first.
pub open spec fn effort_ladder() -> Seq<Effort> {
    seq![Effort::Low, Effort::Medium, Effort::High, Effort::Xhigh, Effort::Max]
}

impl Effort {
    /// Every rung, weakest first — what a picker walks and what a refusal lists.
    pub fn ladder() -> (ladder: [Self; 5])
        ensures
            ladder@ == effort_ladder(),
    {
        [Self::Low, Self::Medium, Self::High, Self::Xhigh, Self::Max]
    }

    /// The rung as all three vendors spell it, which is the same word.
    pub fn as_str(self) -> (word: &'static str)
        ensures
            word@ == effort_word(self),
    {
        match self {
            Self::Low => "low",
            Self::Medium => "medium",
            Self::High => "high",
            Self::Xhigh => "xhigh",
            Self::Max => "max",
        }
    }

    /// Reads a rung from its word, trimmed and with ASCII letters lowered
    /// first; any other word is refused, naming what was asked for.
    pub fn from_word(text: &str) -> (parsed: Result<Self, EffortError>)
        ensures
            parsed matches Ok(rung) ==> effort_word(rung) == ascii_lowercase(trimmed(text@)),
            parsed is Err <==> forall|rung: Effort| effort_word(rung) != ascii_lowercase(
                trimmed(text@),
            ),
            parsed matches Err(e) ==> e.named@ == trimmed(text@),
    {
        let named = trim_text(text);
        let ladder = Self::ladder();
        let mut i: usize = 0;
        while i < 5
            invariant
                0 <= i <= 5,
                ladder@ == effort_ladder(),
                named@ == trimmed(text@),
                forall|j: int| 0 <= j < i ==> effort_word(#[trigger] ladder@[j]) != ascii_lowercase(
                    named@,
                ),
            decreases 5 - i,
        {
            let rung = ladder[i];
            if folds_to(named, rung.as_str()) {
                return Ok(rung);
            }
            i = i + 1;
        }
        proof {
            assert forall|rung: Effort| effort_word(rung) != ascii_lowercase(trimmed(text@)) by {
                match rung {
                    Effort::Low => assert(ladder@[0] == rung),
                    Effort::Medium => assert(ladder@[1] == rung),
                    Effort::High => assert(ladder@[2] == rung),
                    Effort::Xhigh => assert(ladder@[3] == rung),
                    Effort::Max => assert(ladder@[4] == rung),
                }
            }
        }
        Err(EffortError { named: named.to_owned() })
    }
}

impl Default for Effort {
    fn default() -> (effort: Self)
        ensures
            effort == Effort::High,
    {
        Effort::High
    }
}

impl std::str::FromStr for Effort {
    type Err = EffortError;

    fn from_str(text: &str) -> Result<Self, Self::Err> {
        Self::from_word(text)
    }
}

/// The word given for a rung was not one.
#[derive(Debug, Clone, PartialEq, Eq)]
pub struct EffortError {
    /// What was asked for.
    pub named: String,
}

impl EffortError {
    /// The refusal, naming what was typed and then every rung there is.
    pub fn message(&self) -> (text: String)
        ensures
            text@ == "no effort called "@ + self.named@
                + "; crucible takes low, medium, high, xhigh, max"@,
    {
        joined(
            joined("no effort called ".to_owned(), self.named.as_str()),
            "; crucible takes low, medium, high, xhigh, max",
        )
    }
}

/// A tool as advertised to a provider.
#[derive(Debug, Clone, Copy, PartialEq, Eq)]
pub struct ToolSchema<'a> {
    /// The name the model calls.
    pub name: &'a str,
    /// The JSON Schema for the arguments.
    pub schema: &'a str,
}

/// Which kind of file an attachment is, as a model's capabilities are stated.
#[derive(Debug, Clone, Copy, PartialEq, Eq, Structural)]
pub enum Modality {
    /// Plain text.
    Text,
    /// A picture.
    Image,
    /// A PDF document.
    Pdf,
    /// Sound.
    Audio,
    /// Moving pictures.
    Video,
}

/// One attachment as a request carries it.
///
/// `message` and `index` are where it sits in the transcript: which message,
/// and which of that message's files.
#[derive(Clone, Copy)]
pub struct Attached<'a> {
    /// Which message of the transcript it was named in.
    pub message: usize,
    /// Which of that message's files it is.
    pub index: usize,
    /// What the file is, as the wire needs it spelled — `image/png`.
    pub media_type: &'a str,
    /// Which kind, as the model's capabilities are stated in.
    pub modality: Modality,
    /// The bytes, or the line standing in for them.
    pub content: Content<'a>,
}

/// One tool call of an assistant turn, as the provider sees it.
#[derive(Clone, Copy)]
pub struct CallPart<'a> {
    /// The call's identifier.
    pub id: &'a str,
    /// The tool called.
    pub name: &'a str,
    /// The arguments, as the JSON text the model wrote.
    pub args: &'a str,
}

/// One tool result, as the provider sees it.
#[derive(Clone, Copy)]
pub struct ResultPart<'a> {
    /// The identifier of the call it answers.
    pub id: &'a str,
    /// What the tool said.
    pub text: &'a str,
    /// Whether the tool failed.
    pub failed: bool,
}

/// One transcript message, as much of it as a provider is shown.
///
/// Paths and hashes of attachments are not here: a request carries an
/// attachment's content in [`Request::attached`] instead.
#[derive(Clone, Copy)]
pub enum MessagePart<'a> {
    /// Context the runner put in front of the model.
    Context(&'a str),
    /// What the user said.
    User(&'a str),
    /// An assistant turn: its text, its calls, and the word for why it was cut
    /// short, where it was.
    Agent { text: &'a str, calls: &'a [CallPart<'a>], cut: Option<&'a str> },
    /// The results of the tools the last turn called.
    ToolResults(&'a [ResultPart<'a>]),
}

/// One turn's worth of input to a model.
#[derive(Clone, Copy)]
pub struct Request<'a> {
    /// Which model to ask.
    pub model: &'a str,
    /// The transcript so far, message by message.
    pub transcript: &'a [MessagePart<'a>],
    /// The tools the model may call, as JSON Schema.
    pub tools: &'a [ToolSchema<'a>],
    /// Ceiling on the response length.
    pub max_tokens: u32,
    /// The system prompt, if the session has one.
    pub system: Option<&'a str>,
    /// How hard to think, where somebody said.
    pub effort: Option<Effort>,
    /// The files this request carries, in transcript order.
    pub attached: &'a [Attached<'a>],
}

/// What a response has cost, counted in the tokens the model produced.
#[derive(Debug, Clone, Copy, PartialEq, Eq, Structural)]
pub struct Spend(u64);

impl Spend {
    /// How many tokens were produced.
    pub closed spec fn spent(self) -> u64 {
        self.0
    }

    /// Nothing spent yet.
    pub fn none() -> (spend: Self)
        ensures
            spend.spent() == 0,
    {
        Self(0)
    }

    /// A reading of `tokens` produced.
    pub fn new(tokens: u64) -> (spend: Self)
        ensures
            spend.spent() == tokens,
    {
        Self(tokens)
    }

    /// How many tokens that is.
    pub fn tokens(self) -> (tokens: u64)
        ensures
            tokens == self.spent(),
    {
        self.0
    }

    /// This and `other` together, saturating, because a count that wrapped
    /// would read as a turn that spent nothing at the moment it spent the most.
    pub fn and(self, other: Self) -> (sum: Self)
        ensures
            sum.spent() == if self.spent() + other.spent() > u64::MAX {
                u64::MAX as int
            } else {
                self.spent() + other.spent()
            },
    {
        Self(self.0.saturating_add(other.0))
    }
}

impl Default for Spend {
    fn default() -> (spend: Self)
        ensures
            spend.spent() == 0,
    {
        Self::none()
    }
}

/// Adding spends never lowers a running total and never wraps past the top.
pub proof fn lemma_spend_only_grows(total: u64, reading: u64)
    ensures
        ({
            let sum = if total + reading > u64::MAX {
                u64::MAX as int
            } else {
                total + reading
            };
            total <= sum && reading <= sum && sum <= u64::MAX
        }),
{
}

/// What one request carried to the model, counted in tokens: a level that
/// the next reading replaces, never a total.
#[derive(Debug, Clone, Copy, PartialEq, Eq, Structural)]
pub struct Carried(u64);

impl Carried {
    /// How many tokens were carried.
    pub closed spec fn level(self) -> u64 {
        self.0
    }

    /// Nothing reported yet.
    pub fn none() -> (carried: Self)
        ensures
            carried.level() == 0,
    {
        Self(0)
    }

    /// A reading of `tokens` carried.
    pub fn new(tokens: u64) -> (carried: Self)
        ensures
            carried.level() == tokens,
    {
        Self(tokens)
    }

    /// How many tokens that is.
    pub fn tokens(self) -> (tokens: u64)
        ensures
            tokens == self.level(),
    {
        self.0
    }
}

impl Default for Carried {
    fn default() -> (carried: Self)
        ensures
            carried.level() == 0,
    {
        Self::none()
    }
}

/// What one response reported about itself, kept for a session picked up later.
#[derive(Debug, Clone, Copy, PartialEq, Eq, Structural)]
pub struct Calibration {
    /// What that request carried.
    pub carried: Carried,
    /// What the response to it produced.
    pub spent: Spend,
    /// The request's content in bytes, which is what `carried` was counted over.
    pub sent: u64,
    /// The fixed part of those bytes: system instructions and tool schemas.
    pub overhead: u64,
}

impl Default for Calibration {
    fn default() -> (calibration: Self)
        ensures
            calibration.carried.level() == 0,
            calibration.spent.spent() == 0,
            calibration.sent == 0,
            calibration.overhead == 0,
    {
        Calibration { carried: Carried::none(), spent: Spend::none(), sent: 0, overhead: 0 }
    }
}

} // verus!
