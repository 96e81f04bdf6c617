//! The command line: which command runs which operation of the store, and
//! what it shows.

use crate::command::remove::{begun_view, first_step, key_view};
use crate::errors::{CommandError, CommandErrorView, SlateError};
use crate::results::{command_result_view, CommandResult, CommandResultView, SlateResult};
use crate::session::{begin as begin_task, Reply, ReplyView, Step, StepView, TaskView};
use crate::Slate;
use vstd::prelude::*;

verus! {

/// A command with its arguments, as the command line gave them.
#[derive(Clone, Debug, PartialEq, Eq)]
#[allow(inconsistent_fields)]
pub enum Command {
    /// `set <key> <value>`; the value is the text of the standard input where
    /// the command line gave none.
    Put { key: String, value: String },
    /// `get <key> [--no-eol]`
    Get { key: String, no_eol: bool },
    /// `list`
    List,
    /// `remove (<key> | --all)`
    Remove { key: Option<String>, all: bool },
    /// `rename <old> <new>`
    Rename { old: String, new: String },
    /// `snippet <key> --replace (<placeholder> <value>)...`
    Snippet { key: String, placeholders: Vec<String>, values: Vec<String> },
}

/// A [`Command`] as the contracts speak of it.
#[allow(inconsistent_fields)]
pub ghost enum CommandView {
    Put { key: Seq<char>, value: Seq<char> },
    Get { key: Seq<char>, no_eol: bool },
    List,
    Remove { key: Option<Seq<char>>, all: bool },
    Rename { old: Seq<char>, new: Seq<char> },
    Snippet { key: Seq<char>, placeholders: Seq<Seq<char>>, values: Seq<Seq<char>> },
}

impl View for Command {
    type V = CommandView;

    open spec fn view(&self) -> CommandView {
        match self {
            Command::Put { key, value } => CommandView::Put { key: key@, value: value@ },
            Command::Get { key, no_eol } => CommandView::Get { key: key@, no_eol: *no_eol },
            Command::List => CommandView::List,
            Command::Remove { key, all } => CommandView::Remove { key: key_view(*key), all: *all },
            Command::Rename { old, new } => CommandView::Rename { old: old@, new: new@ },
            Command::Snippet { key, placeholders, values } => CommandView::Snippet {
                key: key@,
                placeholders: placeholders.deep_view(),
                values: values.deep_view(),
            },
        }
    }
}

/// The first step of a command, or the failure that keeps it from
/// beginning.
pub open spec fn first(command: CommandView) -> Result<StepView, CommandErrorView> {
    match command {
        CommandView::Put { key, value } => Ok(begin_task(TaskView::Put { key, value })),
        CommandView::Get { key, no_eol } => Ok(begin_task(TaskView::Get { key })),
        CommandView::List => Ok(begin_task(TaskView::List)),
        CommandView::Remove { key, all } => first_step(key, all),
        CommandView::Rename { old, new } => Ok(begin_task(TaskView::Rename { from: old, to: new })),
        CommandView::Snippet { key, placeholders, values } => Ok(begin_task(TaskView::Get { key })),
    }
}

/// What a command shows for the outcome of its operation.
pub open spec fn shows(command: CommandView, outcome: Result<ReplyView, SlateError>)
    -> CommandResultView {
    match command {
        CommandView::Put { key, value } => crate::command::set::result(outcome),
        CommandView::Get { key, no_eol } => crate::command::get::result(no_eol, outcome),
        CommandView::List => crate::command::list::result(outcome),
        CommandView::Remove { key, all } => crate::command::remove::result(all, outcome),
        CommandView::Rename { old, new } => crate::command::rename::result(outcome),
        CommandView::Snippet { key, placeholders, values } => crate::command::snippet::result(
            placeholders,
            values,
            outcome,
        ),
    }
}

/// Begins a command: gives the first step of the store operation that it
/// runs, or the failure that keeps it from running one.
pub fn begin(slate: &Slate, command: &Command) -> (r: Result<Step, CommandError>)
    ensures
        begun_view(r) == first(command@),
{
    match command {
        Command::Put { key, value } => Ok(slate.set(key, value)),
        Command::Get { key, no_eol } => Ok(slate.get(key)),
        Command::List => Ok(slate.list()),
        Command::Remove { key, all } => crate::command::remove::begin(slate, key, *all),
        Command::Rename { old, new } => Ok(slate.rename(old, new)),
        Command::Snippet { key, placeholders, values } => Ok(slate.get(key)),
    }
}

/// Ends a command: takes the outcome of its store operation, and gives what
/// the command shows or the failure that it reports.
pub fn run(command: &Command, outcome: SlateResult<Reply>) -> (r: CommandResult)
    ensures
        command_result_view(r) == shows(command@, crate::session::result_view(outcome)),
{
    match command {
        Command::Put { key, value } => crate::command::set::run(outcome),
        Command::Get { key, no_eol } => crate::command::get::run(*no_eol, outcome),
        Command::List => crate::command::list::run(outcome),
        Command::Remove { key, all } => crate::command::remove::run(*all, outcome),
        Command::Rename { old, new } => crate::command::rename::run(outcome),
        Command::Snippet { key, placeholders, values } => crate::command::snippet::run(
            placeholders,
            values,
            outcome,
        ),
    }
}

} // verus!
