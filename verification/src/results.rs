//! The result types of the store and of the commands.

use crate::errors::{CommandError, CommandErrorView, SlateError};
use crate::message::{Message, MessageView};
use vstd::prelude::*;

verus! {

/// What a store operation yields.
pub type SlateResult<T> = Result<T, SlateError>;

/// What a command yields: a message to show, or none, or a failure.
pub type CommandResult = Result<Option<Message>, CommandError>;

/// A [`CommandResult`] as the contracts speak of it.
pub type CommandResultView = Result<Option<MessageView>, CommandErrorView>;

/// The view of a command's result.
pub open spec fn command_result_view(result: CommandResult) -> CommandResultView {
    match result {
        Ok(Some(message)) => Ok(Some(message@)),
        Ok(None) => Ok(None),
        Err(err) => Err(err@),
    }
}

} // verus!
