//! The commands: one handler for each verb of the command line.
//!
//! A command starts an operation of the store, which its host carries out,
//! and its handler turns the operation's outcome into what the command
//! shows or into the failure that it reports.

pub mod exec;
pub mod get;
pub mod list;
pub mod remove;
pub mod rename;
pub mod set;
pub mod snippet;

use crate::errors::{CommandErrorView, SlateError};
use crate::results::CommandResultView;
use vstd::prelude::*;

verus! {

/// The result of a command whose store operation failed: the store's
/// failure, handed on as it is.
pub open spec fn store_failed(err: SlateError) -> CommandResultView {
    Err(CommandErrorView::Slate(err))
}

} // verus!
