//! What holds of the store on a host whose file operations do not fail.
//!
//! The host is modelled by what its backing file holds: nothing while the
//! file does not exist, else the mapping that the file's text stands for.
//! [`run`] carries an operation through to its end on such a host, and the
//! laws below say what the operations then do to one another.

use crate::errors::SlateError;
use crate::mapping::{lemma_ascending_unique, lemma_sorted_keys, sorted_keys, value_or_empty};
use crate::order::ascending;
use crate::session::{after_open, after_write, begin, FoundView, ReplyView, StepView, TaskView};
use vstd::prelude::*;

verus! {

/// What the backing file holds: `None` while there is no file, else the
/// mapping that its text stands for.
pub type Disk = Option<Map<Seq<char>, Seq<char>>>;

/// The mapping that the store finds on a disk. Where there is no file it
/// finds the empty mapping, after creating the file.
pub open spec fn held(disk: Disk) -> Map<Seq<char>, Seq<char>> {
    match disk {
        Some(m) => m,
        None => Map::empty(),
    }
}

/// How the host answers a request to open the backing file. It refuses with
/// `refusal` while there is no file.
pub open spec fn answer(disk: Disk, refusal: std::io::Error) -> FoundView {
    match disk {
        Some(m) => FoundView::Text(m),
        None => FoundView::Missing(refusal),
    }
}

/// How many loads an operation still has before it.
pub open spec fn loads(task: TaskView) -> nat {
    match task {
        TaskView::Rename { from, to } => 3,
        TaskView::RenameSet { from, to, value } => 2,
        _ => 1,
    }
}

/// A bound on the number of requests that a step still makes of a host
/// without failures.
pub open spec fn budget(step: StepView) -> nat {
    match step {
        StepView::Finished(result) => 0,
        StepView::Open { task, healed } => if healed {
            (4 * loads(task) - 2) as nat
        } else {
            4 * loads(task)
        },
        StepView::Write { text, holds, task, healing } => if healing {
            (4 * loads(task) - 1) as nat
        } else {
            (4 * loads(task) - 3) as nat
        },
    }
}

/// Carries a step through to the end of its operation on a host without
/// failures, and gives the operation's result and what the backing file
/// holds then.
pub open spec fn run(step: StepView, disk: Disk, refusal: std::io::Error) -> (
    Result<ReplyView, SlateError>,
    Disk,
)
    decreases budget(step),
{
    match step {
        StepView::Finished(result) => (result, disk),
        StepView::Open { task, healed } => run(
            after_open(task, healed, answer(disk, refusal)),
            disk,
            refusal,
        ),
        StepView::Write { text, holds, task, healing } => run(
            after_write(task, healing, Ok(())),
            Some(holds),
            refusal,
        ),
    }
}

/// The operation succeeded with `reply`.
pub open spec fn gives(result: Result<ReplyView, SlateError>, reply: ReplyView) -> bool {
    result == Ok::<ReplyView, SlateError>(reply)
}

/// What an operation hands back, and the mapping that it leaves, when it
/// finds the mapping `m`.
pub open spec fn effect(task: TaskView, m: Map<Seq<char>, Seq<char>>) -> (
    ReplyView,
    Map<Seq<char>, Seq<char>>,
) {
    match task {
        TaskView::Put { key, value } => (ReplyView::Done, m.insert(key, value)),
        TaskView::Get { key } => (ReplyView::Value(value_or_empty(m, key)), m),
        TaskView::Remove { key } => (ReplyView::Done, m.remove(key)),
        TaskView::Clear => (ReplyView::Done, Map::empty()),
        TaskView::List => (ReplyView::Keys(sorted_keys(m)), m),
        TaskView::Rename { from, to } => (
            ReplyView::Done,
            m.insert(to, value_or_empty(m, from)).remove(from),
        ),
        TaskView::RenameSet { from, to, value } => (ReplyView::Done, m.insert(to, value).remove(from)),
        TaskView::RenameRemove { from } => (ReplyView::Done, m.remove(from)),
    }
}

/// On a host without failures every operation succeeds, whatever the backing
/// file held and whether or not it existed; it hands back and leaves behind
/// what [`effect`] says, and the file exists afterwards.
pub proof fn lemma_run(task: TaskView, disk: Disk, refusal: std::io::Error)
    ensures
        gives(run(begin(task), disk, refusal).0, effect(task, held(disk)).0),
        run(begin(task), disk, refusal).1 == Some(effect(task, held(disk)).1),
    decreases loads(task),
{
    reveal_with_fuel(run, 5);
    match task {
        TaskView::Rename { from, to } => {
            let next = TaskView::RenameSet { from, to, value: value_or_empty(held(disk), from) };
            lemma_run(next, Some(held(disk)), refusal);
        },
        TaskView::RenameSet { from, to, value } => {
            let next = TaskView::RenameRemove { from };
            lemma_run(next, Some(held(disk).insert(to, value)), refusal);
        },
        _ => {},
    }
}

/// The ascending listing of the empty mapping is the empty sequence.
pub proof fn lemma_no_keys()
    ensures
        sorted_keys(Map::<Seq<char>, Seq<char>>::empty()) == Seq::<Seq<char>>::empty(),
{
    let none = Seq::<Seq<char>>::empty();
    let empty = Map::<Seq<char>, Seq<char>>::empty();
    assert(none.to_set() =~= empty.dom());
    assert(ascending(none));
    lemma_ascending_unique(none, sorted_keys(empty));
}

/// After a key was set to a value, a get of that key gives the value.
pub proof fn law_set_then_get(disk: Disk, key: Seq<char>, value: Seq<char>, refusal: std::io::Error)
    ensures
        ({
            let set = run(begin(TaskView::Put { key, value }), disk, refusal);
            let get = run(begin(TaskView::Get { key }), set.1, refusal);
            gives(set.0, ReplyView::Done) && gives(get.0, ReplyView::Value(value))
        }),
{
    lemma_run(TaskView::Put { key, value }, disk, refusal);
    let after = Some(held(disk).insert(key, value));
    lemma_run(TaskView::Get { key }, after, refusal);
}

/// After a key was removed, a get of that key gives the empty text.
pub proof fn law_remove_then_get(disk: Disk, key: Seq<char>, refusal: std::io::Error)
    ensures
        ({
            let remove = run(begin(TaskView::Remove { key }), disk, refusal);
            let get = run(begin(TaskView::Get { key }), remove.1, refusal);
            gives(remove.0, ReplyView::Done) && gives(get.0, ReplyView::Value(Seq::empty()))
        }),
{
    lemma_run(TaskView::Remove { key }, disk, refusal);
    let after = Some(held(disk).remove(key));
    lemma_run(TaskView::Get { key }, after, refusal);
}

/// A listing gives the keys that the store holds, each once and in
/// ascending order. In what order they were set does not matter: the
/// listing is a function of the mapping.
pub proof fn law_list_is_ascending(disk: Disk, refusal: std::io::Error)
    requires
        held(disk).dom().finite(),
    ensures
        ({
            let list = run(begin(TaskView::List), disk, refusal);
            list.0 is Ok && list.0->Ok_0 is Keys && ascending(list.0->Ok_0->Keys_0)
                && list.0->Ok_0->Keys_0.to_set() == held(disk).dom() && list.1 == Some(held(disk))
        }),
{
    lemma_run(TaskView::List, disk, refusal);
    lemma_sorted_keys(held(disk));
}

/// After a clear, a listing gives no key.
pub proof fn law_clear_then_list(disk: Disk, refusal: std::io::Error)
    ensures
        ({
            let clear = run(begin(TaskView::Clear), disk, refusal);
            let list = run(begin(TaskView::List), clear.1, refusal);
            gives(clear.0, ReplyView::Done) && gives(list.0, ReplyView::Keys(Seq::empty()))
        }),
{
    lemma_run(TaskView::Clear, disk, refusal);
    let after = Some(Map::<Seq<char>, Seq<char>>::empty());
    lemma_run(TaskView::List, after, refusal);
    lemma_no_keys();
}

/// After a key was renamed, a get of the old key gives the empty text, and a
/// get of the new key gives what a get of the old key gave before. This
/// holds where the two keys differ, and also where they are one key that
/// gave the empty text: a key that is renamed to itself is removed.
pub proof fn law_rename(disk: Disk, from: Seq<char>, to: Seq<char>, refusal: std::io::Error)
    requires
        from != to || value_or_empty(held(disk), from) == Seq::<char>::empty(),
    ensures
        ({
            let before = run(begin(TaskView::Get { key: from }), disk, refusal);
            let rename = run(begin(TaskView::Rename { from, to }), disk, refusal);
            let old = run(begin(TaskView::Get { key: from }), rename.1, refusal);
            let new = run(begin(TaskView::Get { key: to }), rename.1, refusal);
            gives(rename.0, ReplyView::Done) && gives(old.0, ReplyView::Value(Seq::empty()))
                && new.0 == before.0
        }),
{
    lemma_run(TaskView::Get { key: from }, disk, refusal);
    lemma_run(TaskView::Rename { from, to }, disk, refusal);
    let m = held(disk);
    let after = Some(m.insert(to, value_or_empty(m, from)).remove(from));
    lemma_run(TaskView::Get { key: from }, after, refusal);
    lemma_run(TaskView::Get { key: to }, after, refusal);
}

/// Removing a key twice in a row leaves what removing it once leaves, and
/// the second removal is no failure.
pub proof fn law_remove_twice(disk: Disk, key: Seq<char>, refusal: std::io::Error)
    ensures
        ({
            let once = run(begin(TaskView::Remove { key }), disk, refusal);
            let twice = run(begin(TaskView::Remove { key }), once.1, refusal);
            twice == once && gives(once.0, ReplyView::Done)
        }),
{
    lemma_run(TaskView::Remove { key }, disk, refusal);
    let after = Some(held(disk).remove(key));
    lemma_run(TaskView::Remove { key }, after, refusal);
    assert(held(disk).remove(key).remove(key) =~= held(disk).remove(key));
}

} // verus!
