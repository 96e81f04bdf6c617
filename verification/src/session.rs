//! One operation of the store, as the steps that its host performs.
//!
//! The store reads and writes no file itself. An operation is a value of
//! type [`Step`]: it asks the host to open the backing file, or to write it,
//! or it has ended. The host does what is asked and hands the outcome back,
//! which gives the next step. Every decision of the store is taken here:
//! that a file which cannot be opened is first created empty, that a text
//! which holds no mapping counts as the empty mapping, what is written for an
//! operation, and which failure ends it.

use crate::codec::{contents, encode, json_text, load};
use crate::errors::SlateError;
use crate::mapping::{sorted_keys, value_or_empty, Mapping};
use crate::order::ascending;
use crate::results::SlateResult;
use vstd::prelude::*;

verus! {

/// What an operation does to the mapping. A rename is three operations in a
/// row, each with a load of its own: it reads the old key's value, sets the
/// new key to it, and removes the old key.
#[derive(Clone, Debug, PartialEq, Eq)]
pub enum Task {
    /// Hold `value` for `key`.
    Put { key: String, value: String },
    /// Give the value of `key`.
    Get { key: String },
    /// Hold nothing for `key`.
    Remove { key: String },
    /// Hold nothing at all.
    Clear,
    /// Give all keys.
    List,
    /// Rename `from` to `to`: the value of `from` is still to be read.
    Rename { from: String, to: String },
    /// A rename that has read `value`: `to` is still to be set.
    RenameSet { from: String, to: String, value: String },
    /// A rename that has set the new key: `from` is still to be removed.
    RenameRemove { from: String },
}

/// What an operation hands back when it succeeds.
#[derive(Clone, Debug, PartialEq, Eq)]
pub enum Reply {
    /// Nothing but the success.
    Done,
    /// The value held for the key; the empty text where none is held.
    Value(String),
    /// The keys, in ascending order.
    Keys(Vec<String>),
}

/// What the host found when it was asked to open the backing file.
#[derive(Debug)]
pub enum Found {
    /// The file was opened and this text was read from it.
    Text(String),
    /// The file could not be opened.
    Missing(std::io::Error),
    /// The file was opened, and reading it as text failed.
    Unreadable(std::io::Error),
}

/// An operation that waits for the backing file to be opened and read.
#[derive(Debug)]
pub struct Reading {
    task: Task,
    healed: bool,
}

/// An operation that waits for the backing file to be written.
#[derive(Debug)]
pub struct Writing {
    task: Task,
    healing: bool,
}

/// Where an operation stands.
#[derive(Debug)]
pub enum Step {
    /// The host is to open the backing file and read all of it.
    Open(Reading),
    /// The host is to create or truncate the backing file and write this
    /// text to it in full.
    Write(String, Writing),
    /// The operation has ended.
    Finished(SlateResult<Reply>),
}

/// A [`Task`] as the contracts speak of it.
pub ghost enum TaskView {
    Put { key: Seq<char>, value: Seq<char> },
    Get { key: Seq<char> },
    Remove { key: Seq<char> },
    Clear,
    List,
    Rename { from: Seq<char>, to: Seq<char> },
    RenameSet { from: Seq<char>, to: Seq<char>, value: Seq<char> },
    RenameRemove { from: Seq<char> },
}

/// A [`Reply`] as the contracts speak of it.
pub ghost enum ReplyView {
    Done,
    Value(Seq<char>),
    Keys(Seq<Seq<char>>),
}

/// A [`Found`] as the contracts speak of it. A text counts by the mapping
/// that it stands for.
pub ghost enum FoundView {
    Text(Map<Seq<char>, Seq<char>>),
    Missing(std::io::Error),
    Unreadable(std::io::Error),
}

/// A [`Step`] as the contracts speak of it. Of a text to write it shows both
/// the text and the mapping that the text stands for when it is read again.
pub ghost enum StepView {
    Open { task: TaskView, healed: bool },
    Write { text: Seq<char>, holds: Map<Seq<char>, Seq<char>>, task: TaskView, healing: bool },
    Finished(Result<ReplyView, SlateError>),
}

impl View for Task {
    type V = TaskView;

    open spec fn view(&self) -> TaskView {
        match self {
            Task::Put { key, value } => TaskView::Put { key: key@, value: value@ },
            Task::Get { key } => TaskView::Get { key: key@ },
            Task::Remove { key } => TaskView::Remove { key: key@ },
            Task::Clear => TaskView::Clear,
            Task::List => TaskView::List,
            Task::Rename { from, to } => TaskView::Rename { from: from@, to: to@ },
            Task::RenameSet { from, to, value } => TaskView::RenameSet {
                from: from@,
                to: to@,
                value: value@,
            },
            Task::RenameRemove { from } => TaskView::RenameRemove { from: from@ },
        }
    }
}

impl View for Reply {
    type V = ReplyView;

    open spec fn view(&self) -> ReplyView {
        match self {
            Reply::Done => ReplyView::Done,
            Reply::Value(value) => ReplyView::Value(value@),
            Reply::Keys(keys) => ReplyView::Keys(keys.deep_view()),
        }
    }
}

impl ReplyView {
    /// The value that the reply carries; the empty text where it carries
    /// none.
    pub open spec fn value(self) -> Seq<char> {
        match self {
            ReplyView::Value(value) => value,
            _ => Seq::empty(),
        }
    }

    /// The keys that the reply carries; none where it carries none.
    pub open spec fn keys(self) -> Seq<Seq<char>> {
        match self {
            ReplyView::Keys(keys) => keys,
            _ => Seq::empty(),
        }
    }
}

impl Reply {
    /// The value that the reply carries; the empty text where it carries
    /// none.
    pub fn into_value(self) -> (value: String)
        ensures
            value@ == self@.value(),
    {
        match self {
            Reply::Value(value) => value,
            _ => String::new(),
        }
    }

    /// The keys that the reply carries; none where it carries none.
    pub fn into_keys(self) -> (keys: Vec<String>)
        ensures
            keys.deep_view() == self@.keys(),
    {
        match self {
            Reply::Keys(keys) => keys,
            _ => {
                let keys: Vec<String> = Vec::new();
                assert(keys.deep_view() =~= Seq::<Seq<char>>::empty());
                keys
            },
        }
    }
}

impl View for Found {
    type V = FoundView;

    open spec fn view(&self) -> FoundView {
        match self {
            Found::Text(text) => FoundView::Text(contents(text@)),
            Found::Missing(err) => FoundView::Missing(*err),
            Found::Unreadable(err) => FoundView::Unreadable(*err),
        }
    }
}

impl Reading {
    /// The operation that waits.
    pub closed spec fn task(&self) -> TaskView {
        self.task@
    }

    /// Whether the backing file was created empty in this load already.
    pub closed spec fn healed(&self) -> bool {
        self.healed
    }
}

impl Writing {
    /// The operation that waits.
    pub closed spec fn task(&self) -> TaskView {
        self.task@
    }

    /// Whether the write creates the missing backing file, after which the
    /// load starts again.
    pub closed spec fn healing(&self) -> bool {
        self.healing
    }
}

/// The view of an operation's result.
pub open spec fn result_view(result: SlateResult<Reply>) -> Result<ReplyView, SlateError> {
    match result {
        Ok(reply) => Ok(reply@),
        Err(err) => Err(err),
    }
}

impl View for Step {
    type V = StepView;

    open spec fn view(&self) -> StepView {
        match self {
            Step::Open(reading) => StepView::Open { task: reading.task(), healed: reading.healed() },
            Step::Write(text, writing) => StepView::Write {
                text: text@,
                holds: contents(text@),
                task: writing.task(),
                healing: writing.healing(),
            },
            Step::Finished(result) => StepView::Finished(result_view(*result)),
        }
    }
}

/// The first step of an operation: a load.
pub open spec fn begin(task: TaskView) -> StepView {
    StepView::Open { task, healed: false }
}

/// The step that asks to write the mapping `m` for the operation `task`.
pub open spec fn persist(task: TaskView, m: Map<Seq<char>, Seq<char>>) -> StepView {
    StepView::Write { text: json_text(m), holds: m, task, healing: false }
}

/// The step after a load that gave the mapping `m`.
pub open spec fn resume(task: TaskView, m: Map<Seq<char>, Seq<char>>) -> StepView {
    match task {
        TaskView::Put { key, value } => persist(task, m.insert(key, value)),
        TaskView::Get { key } => StepView::Finished(Ok(ReplyView::Value(value_or_empty(m, key)))),
        TaskView::Remove { key } => persist(task, m.remove(key)),
        TaskView::Clear => persist(task, Map::empty()),
        TaskView::List => StepView::Finished(Ok(ReplyView::Keys(sorted_keys(m)))),
        TaskView::Rename { from, to } => begin(
            TaskView::RenameSet { from, to, value: value_or_empty(m, from) },
        ),
        TaskView::RenameSet { from, to, value } => persist(task, m.insert(to, value)),
        TaskView::RenameRemove { from } => persist(task, m.remove(from)),
    }
}

/// The step after the host has answered a request to open the backing file.
///
/// A text is taken as the mapping it stands for. A file that cannot be
/// opened is created with the empty mapping and opened again; if it cannot
/// be opened then either, or cannot be read, the operation fails.
pub open spec fn after_open(task: TaskView, healed: bool, found: FoundView) -> StepView {
    match found {
        FoundView::Text(m) => resume(task, m),
        FoundView::Missing(err) => if healed {
            StepView::Finished(Err(SlateError::IO(err)))
        } else {
            StepView::Write {
                text: json_text(Map::empty()),
                holds: Map::empty(),
                task,
                healing: true,
            }
        },
        FoundView::Unreadable(err) => StepView::Finished(Err(SlateError::IO(err))),
    }
}

/// The step after the host has answered a request to write the backing file.
///
/// A write that failed ends the operation. After the write that created the
/// file the load starts again. After any other write the operation has
/// succeeded, but for a rename that has yet to remove the old key.
pub open spec fn after_write(task: TaskView, healing: bool, outcome: Result<(), std::io::Error>)
    -> StepView {
    match outcome {
        Err(err) => StepView::Finished(Err(SlateError::IO(err))),
        Ok(_) => if healing {
            StepView::Open { task, healed: true }
        } else {
            match task {
                TaskView::RenameSet { from, to, value } => begin(TaskView::RenameRemove { from }),
                _ => StepView::Finished(Ok(ReplyView::Done)),
            }
        },
    }
}

/// Starts an operation.
pub fn start(task: Task) -> (step: Step)
    ensures
        step@ == begin(task@),
{
    Step::Open(Reading { task, healed: false })
}

/// Asks to write `m` for the operation `task`.
fn write_out(task: Task, m: &Mapping) -> (step: Step)
    requires
        m.wf(),
    ensures
        step@ == persist(task@, m@),
{
    match encode(m) {
        Ok(text) => Step::Write(text, Writing { task, healing: false }),
        Err(err) => Step::Finished(Err(err)),
    }
}

/// Goes on with an operation after its load has given the mapping `m`: it
/// ends the operation with what was asked for, or asks to write what the
/// operation leaves, or begins the next load of a rename.
pub fn go_on(task: Task, m: Mapping) -> (step: Step)
    requires
        m.wf(),
    ensures
        step@ == resume(task@, m@),
        step matches Step::Finished(Ok(Reply::Keys(keys))) ==> ascending(keys.deep_view())
            && keys.deep_view().to_set() == m@.dom(),
{
    let mut m = m;
    match task {
        Task::Put { key, value } => {
            m.insert(key.clone(), value.clone());
            write_out(Task::Put { key, value }, &m)
        },
        Task::Get { key } => {
            let value = match m.get(key.as_str()) {
                Some(held) => held.clone(),
                None => String::new(),
            };
            Step::Finished(Ok(Reply::Value(value)))
        },
        Task::Remove { key } => {
            m.remove(key.as_str());
            write_out(Task::Remove { key }, &m)
        },
        Task::Clear => {
            m.clear();
            write_out(Task::Clear, &m)
        },
        Task::List => Step::Finished(Ok(Reply::Keys(m.keys()))),
        Task::Rename { from, to } => {
            let value = match m.get(from.as_str()) {
                Some(held) => held.clone(),
                None => String::new(),
            };
            start(Task::RenameSet { from, to, value })
        },
        Task::RenameSet { from, to, value } => {
            m.insert(to.clone(), value.clone());
            write_out(Task::RenameSet { from, to, value }, &m)
        },
        Task::RenameRemove { from } => {
            m.remove(from.as_str());
            write_out(Task::RenameRemove { from }, &m)
        },
    }
}

impl Reading {
    /// Takes the host's answer to the request to open the backing file, and
    /// gives the next step.
    pub fn opened(self, found: Found) -> (step: Step)
        ensures
            step@ == after_open(self.task(), self.healed(), found@),
            step matches Step::Finished(Ok(Reply::Keys(keys))) ==> ascending(keys.deep_view()) && (
            found matches Found::Text(text) ==> keys.deep_view().to_set() == contents(text@).dom()),
    {
        match found {
            Found::Text(text) => go_on(self.task, load(text.as_str())),
            Found::Missing(err) => {
                if self.healed {
                    Step::Finished(Err(SlateError::IO(err)))
                } else {
                    let empty = Mapping::new();
                    match encode(&empty) {
                        Ok(text) => Step::Write(text, Writing { task: self.task, healing: true }),
                        Err(err) => Step::Finished(Err(err)),
                    }
                }
            },
            Found::Unreadable(err) => Step::Finished(Err(SlateError::IO(err))),
        }
    }
}

impl Writing {
    /// Takes the host's answer to the request to write the backing file, and
    /// gives the next step.
    pub fn written(self, outcome: Result<(), std::io::Error>) -> (step: Step)
        ensures
            step@ == after_write(self.task(), self.healing(), outcome),
    {
        match outcome {
            Err(err) => Step::Finished(Err(SlateError::IO(err))),
            Ok(_) => {
                if self.healing {
                    Step::Open(Reading { task: self.task, healed: true })
                } else {
                    match self.task {
                        Task::RenameSet { from, to, value } => start(Task::RenameRemove { from }),
                        _ => Step::Finished(Ok(Reply::Done)),
                    }
                }
            },
        }
    }
}

} // verus!
