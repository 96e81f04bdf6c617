//! The command that removes a key, or all keys.

use crate::command::store_failed;
use crate::errors::{CommandError, CommandErrorView, SlateError};
use crate::message::{Message, MessageView};
use crate::results::{command_result_view, CommandResult, CommandResultView, SlateResult};
use crate::session::{begin as begin_task, Reply, ReplyView, Step, StepView, TaskView};
use crate::Slate;
use vstd::prelude::*;

verus! {

/// What is shown after all keys were removed.
pub const REMOVED_ALL: &'static str = "All keys have been removed";

/// What is shown after one key was removed.
pub const REMOVED: &'static str = "The key has been removed";

/// What is reported where neither a key nor the flag for all keys is given.
pub const NO_KEY: &'static str = "You must provide the name of a key";

/// The first step of the command, or its failure: with the flag for all
/// keys it clears the store, whether or not a key is given too; else it
/// removes the key, and fails where none is given.
pub open spec fn first_step(key: Option<Seq<char>>, all: bool) -> Result<StepView, CommandErrorView> {
    if all {
        Ok(begin_task(TaskView::Clear))
    } else {
        match key {
            Some(key) => Ok(begin_task(TaskView::Remove { key })),
            None => Err(CommandErrorView::Argument(NO_KEY@)),
        }
    }
}

/// What the command shows: what was removed.
pub open spec fn result(all: bool, outcome: Result<ReplyView, SlateError>) -> CommandResultView {
    match outcome {
        Ok(_) => Ok(Some(MessageView::Info(if all { REMOVED_ALL@ } else { REMOVED@ }))),
        Err(err) => store_failed(err),
    }
}

/// The key as the contracts speak of it.
pub open spec fn key_view(key: Option<String>) -> Option<Seq<char>> {
    match key {
        Some(key) => Some(key@),
        None => None,
    }
}

/// The view of a step or of the failure to begin.
pub open spec fn begun_view(begun: Result<Step, CommandError>) -> Result<StepView, CommandErrorView> {
    match begun {
        Ok(step) => Ok(step@),
        Err(err) => Err(err@),
    }
}

/// Begins the command.
pub fn begin(slate: &Slate, key: &Option<String>, all: bool) -> (r: Result<Step, CommandError>)
    ensures
        begun_view(r) == first_step(key_view(*key), all),
{
    if all {
        Ok(slate.clear())
    } else {
        match key {
            Some(key) => Ok(slate.remove(key)),
            None => Err(CommandError::Argument(String::from_str(NO_KEY))),
        }
    }
}

/// Ends the command with the outcome of the store's removal.
pub fn run(all: bool, outcome: SlateResult<Reply>) -> (r: CommandResult)
    ensures
        command_result_view(r) == result(all, crate::session::result_view(outcome)),
{
    match outcome {
        Ok(_) => {
            let text = if all {
                String::from_str(REMOVED_ALL)
            } else {
                String::from_str(REMOVED)
            };
            Ok(Some(Message::Info(text)))
        },
        Err(err) => Err(CommandError::Slate(err)),
    }
}

} // verus!
