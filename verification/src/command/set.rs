//! The command that sets a key to a value.

use crate::command::store_failed;
use crate::errors::{CommandError, SlateError};
use crate::results::{command_result_view, CommandResult, CommandResultView, SlateResult};
use crate::session::{Reply, ReplyView};
use vstd::prelude::*;

verus! {

/// What the command shows: nothing.
pub open spec fn result(outcome: Result<ReplyView, SlateError>) -> CommandResultView {
    match outcome {
        Ok(_) => Ok(None),
        Err(err) => store_failed(err),
    }
}

/// Ends the command with the outcome of the store's set.
pub fn run(outcome: SlateResult<Reply>) -> (r: CommandResult)
    ensures
        command_result_view(r) == result(crate::session::result_view(outcome)),
{
    match outcome {
        Ok(_) => Ok(None),
        Err(err) => Err(CommandError::Slate(err)),
    }
}

} // verus!
