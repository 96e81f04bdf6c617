//! A personal store of short text snippets, kept under string keys in one file.

pub mod cli;
pub mod codec;
pub mod command;
pub mod config;
pub mod errors;
pub mod laws;
pub mod mapping;
pub mod message;
pub mod order;
pub mod results;
pub mod session;
pub mod text;
pub mod utils;

use crate::config::Config;
use crate::session::{begin, start, Step, Task, TaskView};
use vstd::prelude::*;
use vstd::std_specs::convert::FromSpecImpl;

verus! {

/// The major part of the library's version.
pub const VERSION_MAJOR: &'static str = "0";

/// The minor part of the library's version.
pub const VERSION_MINOR: &'static str = "1";

/// The patch part of the library's version.
pub const VERSION_PATCH: &'static str = "0";

/// The store of keys and values, bound to the configuration that says where
/// its backing file is.
#[derive(Clone)]
pub struct Slate<'s> {
    pub config: &'s Config,
}

impl<'s> From<&'s Config> for Slate<'s> {
    fn from(config: &'s Config) -> (slate: Slate<'s>) {
        Slate { config }
    }
}

impl<'s> FromSpecImpl<&'s Config> for Slate<'s> {
    open spec fn obeys_from_spec() -> bool {
        true
    }

    open spec fn from_spec(config: &'s Config) -> Slate<'s> {
        Slate { config }
    }
}

impl<'s> Slate<'s> {
    /// The path of the backing file.
    pub fn filepath(&self) -> (path: &String)
        ensures
            path == self.config.filepath,
    {
        &self.config.filepath
    }

    /// Starts the operation that holds `value` for `key` from now on. An
    /// empty key is a key like any other.
    pub fn set(&self, key: &String, value: &String) -> (step: Step)
        ensures
            step@ == begin(TaskView::Put { key: key@, value: value@ }),
    {
        start(Task::Put { key: key.clone(), value: value.clone() })
    }

    /// Starts the operation that gives the value held for `key`, or the
    /// empty text where none is held.
    pub fn get(&self, key: &String) -> (step: Step)
        ensures
            step@ == begin(TaskView::Get { key: key@ }),
    {
        start(Task::Get { key: key.clone() })
    }

    /// Starts the operation that holds nothing for `key` from now on.
    pub fn remove(&self, key: &String) -> (step: Step)
        ensures
            step@ == begin(TaskView::Remove { key: key@ }),
    {
        start(Task::Remove { key: key.clone() })
    }

    /// Starts the operation that holds nothing at all from now on.
    pub fn clear(&self) -> (step: Step)
        ensures
            step@ == begin(TaskView::Clear),
    {
        start(Task::Clear)
    }

    /// Starts the operation that renames the key `src` to `dts`: it reads
    /// the value of `src`, sets `dts` to it, and removes `src`, each on a
    /// load of its own.
    pub fn rename(&self, src: &String, dts: &String) -> (step: Step)
        ensures
            step@ == begin(TaskView::Rename { from: src@, to: dts@ }),
    {
        start(Task::Rename { from: src.clone(), to: dts.clone() })
    }

    /// Starts the operation that gives all keys in ascending order.
    pub fn list(&self) -> (step: Step)
        ensures
            step@ == begin(TaskView::List),
    {
        start(Task::List)
    }
}

/// The version of the library as text: its three parts with a dot between
/// them.
pub open spec fn version_text() -> Seq<char> {
    VERSION_MAJOR@ + seq!['.'] + VERSION_MINOR@ + seq!['.'] + VERSION_PATCH@
}

/// Get the version of the library.
pub fn version() -> (v: String)
    ensures
        v@ == version_text(),
{
    proof {
        reveal_strlit(".");
        assert("."@ =~= seq!['.']);
    }
    let mut v = String::from_str(VERSION_MAJOR);
    v.append(".");
    v.append(VERSION_MINOR);
    v.append(".");
    v.append(VERSION_PATCH);
    v
}

} // verus!
