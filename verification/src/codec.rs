//! The text form of a mapping: a single JSON object whose fields are the
//! keys, each with its value as a string.

use crate::errors::SlateError;
use crate::mapping::{entries_map, holds, sorted, Entry, Mapping};
use crate::results::SlateResult;
use std::collections::BTreeMap;
use vstd::prelude::*;

verus! {

/// The mapping that `serde_json::from_str` reads from a text as a map of
/// strings to strings; `None` where it reports an error.
pub uninterp spec fn json_object(text: Seq<char>) -> Option<Map<Seq<char>, Seq<char>>>;

/// The text that `serde_json::to_string` writes for a map of strings to
/// strings.
pub uninterp spec fn json_text(m: Map<Seq<char>, Seq<char>>) -> Seq<char>;

/// The mapping that a text stands for in the store: the one it holds as a
/// JSON object, and the empty one where it holds none.
pub open spec fn contents(text: Seq<char>) -> Map<Seq<char>, Seq<char>> {
    match json_object(text) {
        Some(m) => m,
        None => Map::empty(),
    }
}

/// The entries are those of the map: each entry is in it with its value, and
/// each key of the map has an entry.
pub open spec fn lists(entries: Seq<Entry>, m: Map<Seq<char>, Seq<char>>) -> bool {
    &&& forall|i: int|
        0 <= i < entries.len() ==> m.contains_key((#[trigger] entries[i]).key@) && m[entries[i].key@]
            == entries[i].value@
    &&& forall|k: Seq<char>| #[trigger] m.contains_key(k) ==> holds(entries, k)
}

/// How a text that is no JSON object of strings is taken.
#[derive(Clone, Copy, Debug, PartialEq, Eq, Structural)]
pub enum LoadPolicy {
    /// As the empty mapping.
    Tolerant,
    /// As a failure.
    Strict,
}

/// Calls `serde_json::from_str` for a `BTreeMap<String, String>`, and hands
/// the map's pairs out as entries. The contract names the outcome: the call
/// succeeds exactly where the text holds a mapping, and the entries are then
/// that mapping's. Nothing is claimed of which texts hold one.
#[verifier::external_body]
fn parse_object(text: &str) -> (r: Result<Vec<Entry>, serde_json::Error>)
    ensures
        r is Ok <==> json_object(text@) is Some,
        r is Ok ==> lists(r->Ok_0@, json_object(text@)->0),
{
    let map: BTreeMap<String, String> = serde_json::from_str(text)?;
    Ok(map.into_iter().map(|(key, value)| Entry { key, value }).collect())
}

/// Calls `serde_json::to_string` on the entries as a `BTreeMap<&str, &str>`.
/// The contract claims three things of it. The call succeeds: the crate
/// documents failure only for a `Serialize` impl that fails and for a map
/// whose keys are no strings, and neither can occur here. The text is a
/// function of the mapping alone. And it is a JSON object that reads back as
/// the same mapping: every character is written either as itself or as an
/// escape that the crate's reader undoes.
#[verifier::external_body]
fn write_object(entries: &Vec<Entry>) -> (r: Result<String, serde_json::Error>)
    requires
        sorted(entries@),
    ensures
        r is Ok,
        r is Ok ==> r->Ok_0@ == json_text(entries_map(entries@)),
        r is Ok ==> json_object(r->Ok_0@) == Some(entries_map(entries@)),
{
    let map: BTreeMap<&str, &str> = entries.iter().map(
        |entry| (entry.key.as_str(), entry.value.as_str()),
    ).collect();
    serde_json::to_string(&map)
}

/// The mapping that entries make: each entry holds its value for its key,
/// and of two entries with one key the earlier one counts.
pub open spec fn gathered(entries: Seq<Entry>) -> Map<Seq<char>, Seq<char>>
    decreases entries.len(),
{
    if entries.len() == 0 {
        Map::empty()
    } else {
        gathered(entries.skip(1)).insert(entries[0].key@, entries[0].value@)
    }
}

/// Entries that are all in a map with their values make a part of that map:
/// its keys are theirs, and its values are the map's.
proof fn lemma_gathered_within(entries: Seq<Entry>, m: Map<Seq<char>, Seq<char>>)
    requires
        forall|i: int|
            0 <= i < entries.len() ==> m.contains_key((#[trigger] entries[i]).key@) && m[entries[i].key@]
                == entries[i].value@,
    ensures
        forall|k: Seq<char>| gathered(entries).contains_key(k) <==> holds(entries, k),
        forall|k: Seq<char>| gathered(entries).contains_key(k) ==> gathered(entries)[k] == m[k],
    decreases entries.len(),
{
    if entries.len() > 0 {
        let rest = entries.skip(1);
        assert forall|i: int| 0 <= i < rest.len() implies m.contains_key(
            (#[trigger] rest[i]).key@,
        ) && m[rest[i].key@] == rest[i].value@ by {
            assert(rest[i] == entries[i + 1]);
        }
        lemma_gathered_within(rest, m);
        assert forall|k: Seq<char>| gathered(entries).contains_key(k) <==> holds(entries, k) by {
            if holds(rest, k) {
                let i = choose|i: int| 0 <= i < rest.len() && (#[trigger] rest[i]).key@ == k;
                assert(entries[i + 1].key@ == k);
            }
            if holds(entries, k) {
                let i = choose|i: int| 0 <= i < entries.len() && (#[trigger] entries[i]).key@ == k;
                if i > 0 {
                    assert(rest[i - 1].key@ == k);
                }
            }
            if k == entries[0].key@ {
                assert(entries[0].key@ == k);
            }
        }
    }
}

/// Entries that list a map make that map.
pub proof fn lemma_gathered(entries: Seq<Entry>, m: Map<Seq<char>, Seq<char>>)
    requires
        lists(entries, m),
    ensures
        gathered(entries) == m,
{
    lemma_gathered_within(entries, m);
    assert forall|k: Seq<char>| gathered(entries).contains_key(k) <==> m.contains_key(k) by {
        if holds(entries, k) {
            let i = choose|i: int| 0 <= i < entries.len() && (#[trigger] entries[i]).key@ == k;
            assert(m.contains_key(entries[i].key@));
        }
    }
    assert(gathered(entries) =~= m);
}

/// Builds the mapping that the entries make.
pub fn gather(entries: Vec<Entry>) -> (m: Mapping)
    ensures
        m.wf(),
        m@ == gathered(entries@),
{
    let ghost all = entries@;
    let mut rest = entries;
    let mut m = Mapping::new();
    proof {
        assert(all.skip(all.len() as int) =~= Seq::<Entry>::empty());
    }
    while rest.len() > 0
        invariant
            rest@ == all.take(rest@.len() as int),
            rest@.len() <= all.len(),
            m.wf(),
            m@ == gathered(all.skip(rest@.len() as int)),
        decreases rest@.len(),
    {
        let ghost at = rest@.len() - 1;
        let entry = rest.pop().unwrap();
        proof {
            assert(entry == all[at]);
            assert(rest@ =~= all.take(at));
            assert(all.skip(at)[0] == all[at]);
            assert(all.skip(at).skip(1) =~= all.skip(at + 1));
        }
        m.insert(entry.key, entry.value);
    }
    proof {
        assert(all.skip(0) =~= all);
    }
    m
}

/// Reads a mapping from its text form.
///
/// A text that holds a JSON object of strings gives that mapping. Any other
/// text gives the empty mapping under the tolerant policy, and a failure
/// under the strict one.
pub fn decode(text: &str, policy: LoadPolicy) -> (r: SlateResult<Mapping>)
    ensures
        r is Err <==> policy == LoadPolicy::Strict && json_object(text@) is None,
        r is Err ==> r->Err_0 is JSON,
        r is Ok ==> r->Ok_0.wf() && r->Ok_0@ == contents(text@),
{
    match parse_object(text) {
        Ok(entries) => {
            proof {
                lemma_gathered(entries@, json_object(text@)->0);
            }
            Ok(gather(entries))
        },
        Err(err) => match policy {
            LoadPolicy::Tolerant => Ok(Mapping::new()),
            LoadPolicy::Strict => Err(SlateError::JSON(err)),
        },
    }
}

/// Reads a mapping from its text form under the tolerant policy, which never
/// fails.
pub fn load(text: &str) -> (m: Mapping)
    ensures
        m.wf(),
        m@ == contents(text@),
{
    match decode(text, LoadPolicy::Tolerant) {
        Ok(m) => m,
        Err(_) => Mapping::new(),
    }
}

/// Writes a mapping in its text form. The text reads back as the same
/// mapping.
pub fn encode(m: &Mapping) -> (r: SlateResult<String>)
    requires
        m.wf(),
    ensures
        r is Ok,
        r is Ok ==> r->Ok_0@ == json_text(m@),
        r is Ok ==> json_object(r->Ok_0@) == Some(m@),
{
    match write_object(m.entries()) {
        Ok(text) => Ok(text),
        Err(err) => Err(SlateError::JSON(err)),
    }
}

} // verus!
