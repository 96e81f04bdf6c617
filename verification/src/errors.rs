//! The failures that the store and the commands report.

use vstd::prelude::*;
use vstd::std_specs::convert::FromSpecImpl;

verus! {

/// `std::io::Error`, the failure of a file operation or of a child process.
/// It is carried from the host to whoever reports it; nothing is known of
/// what it holds.
#[verifier::external_type_specification]
#[verifier::external_body]
pub struct ExIoError(std::io::Error);

/// `serde_json::Error`, the failure to read or to write JSON. It is carried
/// to whoever reports it; nothing is known of what it holds.
#[verifier::external_type_specification]
#[verifier::external_body]
pub struct ExJsonError(serde_json::Error);

/// A failure of the store.
#[derive(Debug)]
pub enum SlateError {
    /// The backing file could not be opened, read, created or written.
    IO(std::io::Error),
    /// The mapping could not be turned into text, or, under the strict
    /// policy, the text into a mapping.
    JSON(serde_json::Error),
}

/// A failure of a command.
#[derive(Debug)]
pub enum CommandError {
    /// Reading the input or running a child process failed.
    IO(std::io::Error),
    /// The store failed.
    Slate(SlateError),
    /// An argument that the command needs was not given.
    Argument(String),
}

/// A [`CommandError`] as the contracts speak of it.
pub ghost enum CommandErrorView {
    IO(std::io::Error),
    Slate(SlateError),
    Argument(Seq<char>),
}

impl View for CommandError {
    type V = CommandErrorView;

    open spec fn view(&self) -> CommandErrorView {
        match self {
            CommandError::IO(err) => CommandErrorView::IO(*err),
            CommandError::Slate(err) => CommandErrorView::Slate(*err),
            CommandError::Argument(given) => CommandErrorView::Argument(given@),
        }
    }
}

impl From<std::io::Error> for SlateError {
    fn from(err: std::io::Error) -> (e: SlateError) {
        SlateError::IO(err)
    }
}

impl FromSpecImpl<std::io::Error> for SlateError {
    open spec fn obeys_from_spec() -> bool {
        true
    }

    open spec fn from_spec(err: std::io::Error) -> SlateError {
        SlateError::IO(err)
    }
}

impl From<serde_json::Error> for SlateError {
    fn from(err: serde_json::Error) -> (e: SlateError) {
        SlateError::JSON(err)
    }
}

impl FromSpecImpl<serde_json::Error> for SlateError {
    open spec fn obeys_from_spec() -> bool {
        true
    }

    open spec fn from_spec(err: serde_json::Error) -> SlateError {
        SlateError::JSON(err)
    }
}

impl From<std::io::Error> for CommandError {
    fn from(err: std::io::Error) -> (e: CommandError) {
        CommandError::IO(err)
    }
}

impl FromSpecImpl<std::io::Error> for CommandError {
    open spec fn obeys_from_spec() -> bool {
        true
    }

    open spec fn from_spec(err: std::io::Error) -> CommandError {
        CommandError::IO(err)
    }
}

impl From<SlateError> for CommandError {
    fn from(err: SlateError) -> (e: CommandError) {
        CommandError::Slate(err)
    }
}

impl FromSpecImpl<SlateError> for CommandError {
    open spec fn obeys_from_spec() -> bool {
        true
    }

    open spec fn from_spec(err: SlateError) -> CommandError {
        CommandError::Slate(err)
    }
}

impl From<String> for CommandError {
    fn from(err: String) -> (e: CommandError) {
        CommandError::Argument(err)
    }
}

impl FromSpecImpl<String> for CommandError {
    open spec fn obeys_from_spec() -> bool {
        true
    }

    open spec fn from_spec(err: String) -> CommandError {
        CommandError::Argument(err)
    }
}

/// The text that `std::io::Error` shows for itself through `Display`. What
/// it says depends on the platform, so nothing is claimed of it.
#[verifier::external_body]
fn io_error_text(err: &std::io::Error) -> (text: String) {
    format!("{}", err)
}

/// The text that `serde_json::Error` shows for itself through `Display`.
/// Nothing is claimed of it.
#[verifier::external_body]
fn json_error_text(err: &serde_json::Error) -> (text: String) {
    format!("{}", err)
}

impl SlateError {
    /// The message to show for this failure: that of the error it holds.
    pub fn to_string(&self) -> (text: String) {
        match self {
            SlateError::IO(err) => io_error_text(err),
            SlateError::JSON(err) => json_error_text(err),
        }
    }
}

impl CommandError {
    /// The message to show for this failure. For a missing argument it is the
    /// text that the command gave; otherwise that of the error it holds.
    pub fn to_string(&self) -> (text: String)
        ensures
            self matches CommandError::Argument(given) ==> text@ == given@,
    {
        match self {
            CommandError::IO(err) => io_error_text(err),
            CommandError::Slate(err) => err.to_string(),
            CommandError::Argument(given) => given.clone(),
        }
    }
}

} // verus!
