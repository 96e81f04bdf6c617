//! The command that runs a stored value as a program.
//!
//! The handler says which program to start and with which arguments. To
//! start it and to wait for it is left to the host, which hands back how
//! that went.

use crate::errors::{CommandError, CommandErrorView, SlateError};
use crate::results::{command_result_view, CommandResult, CommandResultView, SlateResult};
use crate::session::{Reply, ReplyView};
use crate::text::{pieces, split, trim_end, trim_right};
use vstd::prelude::*;

verus! {

/// A program to start, with its arguments.
#[derive(Clone, Debug, PartialEq, Eq)]
pub struct Invocation {
    pub program: String,
    pub args: Vec<String>,
}

/// The words of a stored command: the value without the white space at its
/// end, split at each single space.
pub open spec fn words(value: Seq<char>) -> Seq<Seq<char>> {
    pieces(trim_end(value), ' ')
}

/// What the command starts: the first word of the stored value as the
/// program, and the words after it as its arguments. A key that holds
/// nothing gives the program with the empty name, which no host can start.
pub open spec fn invocation(outcome: Result<ReplyView, SlateError>) -> Result<
    (Seq<char>, Seq<Seq<char>>),
    CommandErrorView,
> {
    match outcome {
        Ok(reply) => Ok((words(reply.value())[0], words(reply.value()).skip(1))),
        Err(err) => Err(CommandErrorView::Slate(err)),
    }
}

/// The view of what the handler gives.
pub open spec fn invocation_view(r: Result<Invocation, CommandError>) -> Result<
    (Seq<char>, Seq<Seq<char>>),
    CommandErrorView,
> {
    match r {
        Ok(call) => Ok((call.program@, call.args.deep_view())),
        Err(err) => Err(err@),
    }
}

/// What the command shows once the host has run the program: nothing; or
/// the failure to start the program or to wait for it.
pub open spec fn result(waited: Result<(), std::io::Error>) -> CommandResultView {
    match waited {
        Ok(_) => Ok(None),
        Err(err) => Err(CommandErrorView::IO(err)),
    }
}

/// Takes the outcome of the store's get, and says what to start.
pub fn run(outcome: SlateResult<Reply>) -> (r: Result<Invocation, CommandError>)
    ensures
        invocation_view(r) == invocation(crate::session::result_view(outcome)),
{
    match outcome {
        Ok(reply) => {
            let value = reply.into_value();
            let line = trim_right(value.as_str());
            let mut list = split(line.as_str(), ' ');
            let ghost all = list.deep_view();
            let program = list.remove(0);
            proof {
                assert(list.deep_view() =~= all.skip(1));
            }
            Ok(Invocation { program, args: list })
        },
        Err(err) => Err(CommandError::Slate(err)),
    }
}

/// Ends the command with what came of starting the program and waiting for
/// it.
pub fn finish(waited: Result<(), std::io::Error>) -> (r: CommandResult)
    ensures
        command_result_view(r) == result(waited),
{
    match waited {
        Ok(_) => Ok(None),
        Err(err) => Err(CommandError::IO(err)),
    }
}

} // verus!
