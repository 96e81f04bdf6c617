//! The command that shows the value of a key.

use crate::command::store_failed;
use crate::errors::{CommandError, SlateError};
use crate::message::{Message, MessageView};
use crate::results::{command_result_view, CommandResult, CommandResultView, SlateResult};
use crate::session::{Reply, ReplyView};
use vstd::prelude::*;

verus! {

/// What the command shows: the value, as it was stored where `no_eol` is
/// set, else with one line end after it.
pub open spec fn result(no_eol: bool, outcome: Result<ReplyView, SlateError>) -> CommandResultView {
    match outcome {
        Ok(reply) => Ok(
            Some(
                if no_eol {
                    MessageView::Raw(reply.value())
                } else {
                    MessageView::Info(reply.value())
                },
            ),
        ),
        Err(err) => store_failed(err),
    }
}

/// Ends the command with the outcome of the store's get.
pub fn run(no_eol: bool, outcome: SlateResult<Reply>) -> (r: CommandResult)
    ensures
        command_result_view(r) == result(no_eol, crate::session::result_view(outcome)),
{
    match outcome {
        Ok(reply) => {
            let value = reply.into_value();
            let message = if no_eol {
                Message::Raw(value)
            } else {
                Message::Info(value)
            };
            Ok(Some(message))
        },
        Err(err) => Err(CommandError::Slate(err)),
    }
}

} // verus!
