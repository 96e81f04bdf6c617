//! The command that renames a key.

use crate::command::store_failed;
use crate::errors::{CommandError, SlateError};
use crate::message::{Message, MessageView};
use crate::results::{command_result_view, CommandResult, CommandResultView, SlateResult};
use crate::session::{Reply, ReplyView};
use vstd::prelude::*;

verus! {

/// What is shown after a rename.
pub const RENAMED: &'static str = "The key has been renamed";

/// What the command shows: that the key was renamed.
pub open spec fn result(outcome: Result<ReplyView, SlateError>) -> CommandResultView {
    match outcome {
        Ok(_) => Ok(Some(MessageView::Info(RENAMED@))),
        Err(err) => store_failed(err),
    }
}

/// Ends the command with the outcome of the store's rename.
pub fn run(outcome: SlateResult<Reply>) -> (r: CommandResult)
    ensures
        command_result_view(r) == result(crate::session::result_view(outcome)),
{
    match outcome {
        Ok(_) => Ok(Some(Message::Info(String::from_str(RENAMED)))),
        Err(err) => Err(CommandError::Slate(err)),
    }
}

} // verus!
