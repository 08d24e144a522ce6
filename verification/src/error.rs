//! The failures that a source reports.

use vstd::prelude::*;
use vstd::string::StringExecFns;

verus! {

/// The classes of failure a source can report.
#[derive(Debug, Clone, Copy, PartialEq, Eq, Structural)]
pub enum ErrorKind {
    Network,
    Parsing,
    ApiError,
    NotFound,
    Configuration,
    Unexpected,
}

/// A failure of a source, with the detail that goes with it.
#[derive(Debug)]
pub enum SourceError {
    /// The transport failed or the response could not be read as text.
    Network(String),
    /// A selector did not compile, or a required container is absent.
    Parsing(String),
    /// The remote site answered with an error of its own.
    ApiError(String),
    /// A well-formed request that has no result.
    NotFound(String),
    /// The source is unknown or set up wrongly.
    Configuration(String),
    /// Anything else.
    Unexpected(String),
}

impl View for SourceError {
    type V = (ErrorKind, Seq<char>);

    open spec fn view(&self) -> (ErrorKind, Seq<char>) {
        match self {
            SourceError::Network(d) => (ErrorKind::Network, d@),
            SourceError::Parsing(d) => (ErrorKind::Parsing, d@),
            SourceError::ApiError(d) => (ErrorKind::ApiError, d@),
            SourceError::NotFound(d) => (ErrorKind::NotFound, d@),
            SourceError::Configuration(d) => (ErrorKind::Configuration, d@),
            SourceError::Unexpected(d) => (ErrorKind::Unexpected, d@),
        }
    }
}

/// The words that introduce the detail of each kind of failure.
pub open spec fn kind_prefix(kind: ErrorKind) -> Seq<char> {
    match kind {
        ErrorKind::Network => "Network error: "@,
        ErrorKind::Parsing => "Parsing error: "@,
        ErrorKind::ApiError => "API error from source: "@,
        ErrorKind::NotFound => "Manga or Chapter not found: "@,
        ErrorKind::Configuration => "Source configuration error: "@,
        ErrorKind::Unexpected => "An unexpected error occurred: "@,
    }
}

impl SourceError {
    /// The kind of this failure.
    pub fn kind(&self) -> (k: ErrorKind)
        ensures
            k == self@.0,
    {
        match self {
            SourceError::Network(_) => ErrorKind::Network,
            SourceError::Parsing(_) => ErrorKind::Parsing,
            SourceError::ApiError(_) => ErrorKind::ApiError,
            SourceError::NotFound(_) => ErrorKind::NotFound,
            SourceError::Configuration(_) => ErrorKind::Configuration,
            SourceError::Unexpected(_) => ErrorKind::Unexpected,
        }
    }

    /// The detail carried by this failure.
    pub fn detail(&self) -> (d: &str)
        ensures
            d@ == self@.1,
    {
        match self {
            SourceError::Network(d) => d.as_str(),
            SourceError::Parsing(d) => d.as_str(),
            SourceError::ApiError(d) => d.as_str(),
            SourceError::NotFound(d) => d.as_str(),
            SourceError::Configuration(d) => d.as_str(),
            SourceError::Unexpected(d) => d.as_str(),
        }
    }

    /// The text shown to a user: the words for the kind, then the detail.
    pub fn message(&self) -> (text: String)
        ensures
            text@ == kind_prefix(self@.0) + self@.1,
    {
        let prefix = match self {
            SourceError::Network(_) => "Network error: ",
            SourceError::Parsing(_) => "Parsing error: ",
            SourceError::ApiError(_) => "API error from source: ",
            SourceError::NotFound(_) => "Manga or Chapter not found: ",
            SourceError::Configuration(_) => "Source configuration error: ",
            SourceError::Unexpected(_) => "An unexpected error occurred: ",
        };
        String::from_str(prefix).concat(self.detail())
    }

    /// A parsing failure with the given detail.
    pub fn parsing(detail: &str) -> (e: SourceError)
        ensures
            e@ == (ErrorKind::Parsing, detail@),
    {
        SourceError::Parsing(String::from_str(detail))
    }
}

} // verus!
