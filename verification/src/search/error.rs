//! The ways a search can fail.

use std::path::PathBuf;
use vstd::prelude::*;

verus! {

/// `std::io::Error`, the reason a directory could not be read. It is
/// carried, never looked into.
#[verifier::external_type_specification]
#[verifier::external_body]
pub struct ExIoError(std::io::Error);

/// Why a search failed.
#[derive(Debug)]
pub enum SearchError {
    /// The start directory does not exist or is not a directory.
    NotADirectory(PathBuf),
    /// A directory could not be listed, or one of its entries not be read.
    IoError(std::io::Error),
    /// The driver's concurrency primitive was torn down.
    AcquireError,
    /// The driver could not deliver this path to the collector.
    SendError(PathBuf),
    /// The pattern is not a valid regular expression.
    RegexError(regex::Error),
}

impl From<std::io::Error> for SearchError {
    fn from(err: std::io::Error) -> (error: Self) {
        SearchError::IoError(err)
    }
}

impl vstd::std_specs::convert::FromSpecImpl<std::io::Error> for SearchError {
    open spec fn obeys_from_spec() -> bool {
        true
    }

    open spec fn from_spec(err: std::io::Error) -> Self {
        SearchError::IoError(err)
    }
}

impl From<regex::Error> for SearchError {
    fn from(err: regex::Error) -> (error: Self) {
        SearchError::RegexError(err)
    }
}

impl vstd::std_specs::convert::FromSpecImpl<regex::Error> for SearchError {
    open spec fn obeys_from_spec() -> bool {
        true
    }

    open spec fn from_spec(err: regex::Error) -> Self {
        SearchError::RegexError(err)
    }
}

/// Calls `ToString::to_string` on a `std::io::Error`, which writes it with
/// its `Display`. Trusted; nothing is claimed of the text.
#[verifier::external_body]
fn io_error_text(error: &std::io::Error) -> String {
    error.to_string()
}

/// The words that `Display` of a `regex::Error` writes.
pub uninterp spec fn regex_error_words(error: regex::Error) -> Seq<char>;

/// The words that `Path::display` writes for a path.
pub uninterp spec fn path_words(path: PathBuf) -> Seq<char>;

/// Calls `ToString::to_string` on a `regex::Error`, which writes it with
/// its `Display`. Trusted: the text depends on the error alone, and is what
/// `regex_error_words` names.
#[verifier::external_body]
fn regex_error_text(error: &regex::Error) -> (text: String)
    ensures
        text@ == regex_error_words(*error),
{
    error.to_string()
}

/// Calls `Path::display` and writes the result with `ToString::to_string`.
/// Trusted: the text depends on the path alone, and is what `path_words`
/// names.
#[verifier::external_body]
fn path_text(path: &PathBuf) -> (text: String)
    ensures
        text@ == path_words(*path),
{
    path.display().to_string()
}

impl SearchError {
    /// The words that a message of this kind of failure begins with.
    pub open spec fn label(&self) -> Seq<char> {
        match self {
            SearchError::NotADirectory(_) => "Failed to start search: '"@,
            SearchError::IoError(_) => "IO error: "@,
            SearchError::AcquireError => "Semaphore acquire error: "@,
            SearchError::SendError(_) => "Channel send error: "@,
            SearchError::RegexError(_) => "Regex error: "@,
        }
    }

    /// The words that a message of this kind of failure ends with.
    pub open spec fn ending(&self) -> Seq<char> {
        match self {
            SearchError::NotADirectory(_) => "' is not a directory."@,
            _ => Seq::empty(),
        }
    }

    /// The message for this failure, given the words that describe its
    /// cause: the label, the cause, the ending.
    pub fn message_with(&self, cause: &str) -> (text: String)
        ensures
            text@ == self.label() + cause@ + self.ending(),
    {
        let mut text = match self {
            SearchError::NotADirectory(_) => "Failed to start search: '".to_owned(),
            SearchError::IoError(_) => "IO error: ".to_owned(),
            SearchError::AcquireError => "Semaphore acquire error: ".to_owned(),
            SearchError::SendError(_) => "Channel send error: ".to_owned(),
            SearchError::RegexError(_) => "Regex error: ".to_owned(),
        };
        text.append(cause);
        match self {
            SearchError::NotADirectory(_) => {
                text.append("' is not a directory.");
            },
            _ => {
                assert(text@ + Seq::<char>::empty() == text@);
            },
        }
        text
    }

    /// The words that describe the cause of this failure, where they are
    /// the same on every machine: the path as it is displayed, the refused
    /// pattern's error as it describes itself, and fixed words for a
    /// torn-down concurrency primitive and an undeliverable path. What an
    /// input or output error says of itself is the operating system's.
    pub open spec fn cause(&self) -> Option<Seq<char>> {
        match self {
            SearchError::NotADirectory(path) => Some(path_words(*path)),
            SearchError::IoError(_) => None,
            SearchError::AcquireError => Some("semaphore closed"@),
            SearchError::SendError(_) => Some("channel closed"@),
            SearchError::RegexError(error) => Some(regex_error_words(*error)),
        }
    }

    /// The message for this failure: the label, the words of the cause,
    /// the ending.
    pub fn message(&self) -> (text: String)
        ensures
            match self.cause() {
                Some(cause) => text@ == self.label() + cause + self.ending(),
                None => exists|cause: Seq<char>| text@ == self.label() + cause + self.ending(),
            },
    {
        match self {
            SearchError::NotADirectory(path) => {
                let cause = path_text(path);
                self.message_with(cause.as_str())
            },
            SearchError::IoError(error) => {
                let cause = io_error_text(error);
                self.message_with(cause.as_str())
            },
            SearchError::AcquireError => {
                self.message_with("semaphore closed")
            },
            SearchError::SendError(_) => {
                self.message_with("channel closed")
            },
            SearchError::RegexError(error) => {
                let cause = regex_error_text(error);
                self.message_with(cause.as_str())
            },
        }
    }
}

} // verus!
