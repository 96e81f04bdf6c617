//! The command that lists all keys.

use crate::command::store_failed;
use crate::errors::{CommandError, SlateError};
use crate::message::{Message, MessageView};
use crate::results::{command_result_view, CommandResult, CommandResultView, SlateResult};
use crate::session::{Reply, ReplyView};
use crate::text::{join, joined};
use vstd::prelude::*;

verus! {

/// What the command shows: the keys, one on each line.
pub open spec fn result(outcome: Result<ReplyView, SlateError>) -> CommandResultView {
    match outcome {
        Ok(reply) => Ok(Some(MessageView::Info(joined(reply.keys(), seq!['\n'])))),
        Err(err) => store_failed(err),
    }
}

/// Ends the command with the outcome of the store's listing.
pub fn run(outcome: SlateResult<Reply>) -> (r: CommandResult)
    ensures
        command_result_view(r) == result(crate::session::result_view(outcome)),
{
    match outcome {
        Ok(reply) => {
            let keys = reply.into_keys();
            proof {
                reveal_strlit("\n");
                assert("\n"@ =~= seq!['\n']);
            }
            Ok(Some(Message::Info(join(&keys, "\n"))))
        },
        Err(err) => Err(CommandError::Slate(err)),
    }
}

} // verus!
