//! What answers a web search or a fetch: the refusals a source can give, and
//! the results and pages it hands back. What a source hands back is not
//! trusted; it is a page somebody else wrote.

use vstd::prelude::*;
use crate::text::{decimal, decimal_text, joined};

verus! {

/// Why a source could not answer.
#[derive(Debug, Clone, PartialEq, Eq)]
pub enum SourceError {
    /// The request never arrived, or the connection broke.
    Transport {
        /// Which source.
        named: &'static str,
        /// What went wrong, with no credential in it.
        problem: String,
    },
    /// The service answered with a status this request cannot recover from.
    Refused {
        /// Which source.
        named: &'static str,
        /// The status.
        status: u16,
        /// What the service said.
        message: String,
    },
    /// The answer did not have the shape this source expects.
    Protocol {
        /// Which source.
        named: &'static str,
        /// What did not fit.
        problem: String,
    },
    /// The address could not be read, or names a scheme a source will not take.
    Address(String),
    /// The user cancelled while the source was answering.
    Cancelled(&'static str),
}

/// The sentence a source refusal reads as.
pub open spec fn source_error_text(error: SourceError) -> Seq<char> {
    match error {
        SourceError::Transport { named, problem } => named@ + ": "@ + problem@,
        SourceError::Refused { named, status, message } => named@ + ": HTTP "@ + decimal(
            status as nat,
        ) + ": "@ + message@,
        SourceError::Protocol { named, problem } => named@ + ": unexpected answer: "@ + problem@,
        SourceError::Address(problem) => problem@,
        SourceError::Cancelled(named) => named@ + ": cancelled"@,
    }
}

impl SourceError {
    /// The diagnostic sentence.
    pub fn message(&self) -> (text: String)
        ensures
            text@ == source_error_text(*self),
    {
        match self {
            Self::Transport { named, problem } => joined(joined((*named).to_owned(), ": "), problem.as_str()),
            Self::Refused { named, status, message } => {
                let said = joined(joined((*named).to_owned(), ": HTTP "), decimal_text(*status as u64).as_str());
                joined(joined(said, ": "), message.as_str())
            },
            Self::Protocol { named, problem } => {
                joined(joined((*named).to_owned(), ": unexpected answer: "), problem.as_str())
            },
            Self::Address(problem) => problem.clone(),
            Self::Cancelled(named) => joined((*named).to_owned(), ": cancelled"),
        }
    }
}

/// One thing a search handed back: a pointer to a page, not the page.
#[derive(Debug, Clone, PartialEq, Eq)]
pub struct SearchResult {
    /// The page's title, as the source gave it.
    pub title: String,
    /// Where it is.
    pub url: String,
    /// The source's own extract. Never the whole page.
    pub extract: String,
}

/// A page a fetch handed back.
#[derive(Debug, Clone, PartialEq, Eq)]
pub struct Page {
    /// Where it came from, after whatever redirects the source followed.
    pub url: String,
    /// The title, where the page had one.
    pub title: Option<String>,
    /// The page as text.
    pub text: String,
}

} // verus!
