//! The mapping from keys to values that a store holds between a load and a
//! persist.
//!
//! Entries are kept in ascending key order with no key twice, so a listing
//! needs no sort and a lookup is a binary search.

use crate::order::{
    ascending, lemma_precedes_asymmetric, lemma_precedes_irreflexive, lemma_precedes_total,
    lemma_precedes_transitive, precedes, rank, Rank,
};
use vstd::prelude::*;

verus! {

/// One key with its value.
#[derive(Clone, Debug, PartialEq, Eq)]
pub struct Entry {
    pub key: String,
    pub value: String,
}

/// The entries stand in strictly ascending key order.
pub open spec fn sorted(entries: Seq<Entry>) -> bool {
    forall|i: int, j: int|
        0 <= i < j < entries.len() ==> precedes(
            (#[trigger] entries[i]).key@,
            (#[trigger] entries[j]).key@,
        )
}

/// Some entry has the key `k`.
pub open spec fn holds(entries: Seq<Entry>, k: Seq<char>) -> bool {
    exists|i: int| 0 <= i < entries.len() && (#[trigger] entries[i]).key@ == k
}

/// The place of an entry with the key `k`, where there is one.
pub open spec fn slot(entries: Seq<Entry>, k: Seq<char>) -> int {
    choose|i: int| 0 <= i < entries.len() && (#[trigger] entries[i]).key@ == k
}

/// The entries as a map from key to value.
pub open spec fn entries_map(entries: Seq<Entry>) -> Map<Seq<char>, Seq<char>> {
    Map::new(|k: Seq<char>| holds(entries, k), |k: Seq<char>| entries[slot(entries, k)].value@)
}

/// The keys of the entries, in their order.
pub open spec fn entries_keys(entries: Seq<Entry>) -> Seq<Seq<char>> {
    Seq::new(entries.len(), |i: int| entries[i].key@)
}

/// The keys of a map in ascending order.
pub open spec fn sorted_keys(m: Map<Seq<char>, Seq<char>>) -> Seq<Seq<char>> {
    choose|keys: Seq<Seq<char>>| ascending(keys) && keys.to_set() == m.dom()
}

/// The value that a map holds for a key; the empty text where it holds none.
pub open spec fn value_or_empty(m: Map<Seq<char>, Seq<char>>, k: Seq<char>) -> Seq<char> {
    if m.contains_key(k) {
        m[k]
    } else {
        Seq::empty()
    }
}

/// In sorted entries no key occurs twice, so each entry is the one that the
/// map shows for its key.
pub proof fn lemma_entry_in_map(entries: Seq<Entry>, i: int)
    requires
        sorted(entries),
        0 <= i < entries.len(),
    ensures
        entries_map(entries).contains_key(entries[i].key@),
        entries_map(entries)[entries[i].key@] == entries[i].value@,
        slot(entries, entries[i].key@) == i,
{
    let k = entries[i].key@;
    assert(holds(entries, k));
    let j = slot(entries, k);
    if j < i {
        assert(precedes(entries[j].key@, entries[i].key@));
        lemma_precedes_irreflexive(k);
    } else if i < j {
        assert(precedes(entries[i].key@, entries[j].key@));
        lemma_precedes_irreflexive(k);
    }
}

/// A key that falls strictly between two neighbours, or before the first or
/// after the last entry, is not among the sorted entries.
pub proof fn lemma_gap_is_absent(entries: Seq<Entry>, p: int, k: Seq<char>)
    requires
        0 <= p <= entries.len(),
        forall|i: int| 0 <= i < p ==> precedes((#[trigger] entries[i]).key@, k),
        forall|i: int| p <= i < entries.len() ==> precedes(k, (#[trigger] entries[i]).key@),
    ensures
        !holds(entries, k),
{
    if holds(entries, k) {
        let j = slot(entries, k);
        lemma_precedes_irreflexive(k);
        if j < p {
            assert(precedes(entries[j].key@, k));
        } else {
            assert(precedes(k, entries[j].key@));
        }
    }
}

/// Putting a new value in the place of an entry with the same key.
pub proof fn lemma_replace(entries: Seq<Entry>, p: int, e: Entry)
    requires
        sorted(entries),
        0 <= p < entries.len(),
        entries[p].key@ == e.key@,
    ensures
        sorted(entries.update(p, e)),
        entries_map(entries.update(p, e)) == entries_map(entries).insert(e.key@, e.value@),
{
    let after = entries.update(p, e);
    assert forall|i: int, j: int| 0 <= i < j < after.len() implies precedes(
        (#[trigger] after[i]).key@,
        (#[trigger] after[j]).key@,
    ) by {
        assert(precedes(entries[i].key@, entries[j].key@));
    }
    let want = entries_map(entries).insert(e.key@, e.value@);
    assert forall|k: Seq<char>| entries_map(after).contains_key(k) <==> want.contains_key(k) by {
        if holds(after, k) {
            let i = slot(after, k);
            assert(entries[i].key@ == k);
        }
        if holds(entries, k) {
            let i = slot(entries, k);
            assert(after[i].key@ == k);
        }
        if k == e.key@ {
            assert(after[p].key@ == k);
        }
    }
    assert forall|k: Seq<char>| entries_map(after).contains_key(k) implies entries_map(after)[k]
        == want[k] by {
        let i = slot(after, k);
        lemma_entry_in_map(after, i);
        if i != p {
            assert(entries[i].key@ == k);
            lemma_entry_in_map(entries, i);
            lemma_entry_in_map(entries, p);
        }
    }
    assert(entries_map(after) =~= want);
}

/// Putting a new entry into the gap where its key belongs.
pub proof fn lemma_insert(entries: Seq<Entry>, p: int, e: Entry)
    requires
        sorted(entries),
        0 <= p <= entries.len(),
        forall|i: int| 0 <= i < p ==> precedes((#[trigger] entries[i]).key@, e.key@),
        forall|i: int| p <= i < entries.len() ==> precedes(e.key@, (#[trigger] entries[i]).key@),
    ensures
        sorted(entries.insert(p, e)),
        entries_map(entries.insert(p, e)) == entries_map(entries).insert(e.key@, e.value@),
{
    let after = entries.insert(p, e);
    assert forall|i: int, j: int| 0 <= i < j < after.len() implies precedes(
        (#[trigger] after[i]).key@,
        (#[trigger] after[j]).key@,
    ) by {
        if j < p {
            assert(precedes(entries[i].key@, entries[j].key@));
        } else if j == p {
            assert(precedes(entries[i].key@, e.key@));
        } else if i < p {
            assert(precedes(entries[i].key@, entries[j - 1].key@));
        } else if i == p {
            assert(precedes(e.key@, entries[j - 1].key@));
        } else {
            assert(precedes(entries[i - 1].key@, entries[j - 1].key@));
        }
    }
    let want = entries_map(entries).insert(e.key@, e.value@);
    assert forall|k: Seq<char>| entries_map(after).contains_key(k) <==> want.contains_key(k) by {
        if holds(after, k) {
            let i = slot(after, k);
            if i < p {
                assert(entries[i].key@ == k);
            } else if i > p {
                assert(entries[i - 1].key@ == k);
            }
        }
        if holds(entries, k) {
            let i = slot(entries, k);
            if i < p {
                assert(after[i].key@ == k);
            } else {
                assert(after[i + 1].key@ == k);
            }
        }
        if k == e.key@ {
            assert(after[p].key@ == k);
        }
    }
    assert forall|k: Seq<char>| entries_map(after).contains_key(k) implies entries_map(after)[k]
        == want[k] by {
        let i = slot(after, k);
        lemma_entry_in_map(after, i);
        if i < p {
            assert(entries[i].key@ == k);
            lemma_entry_in_map(entries, i);
            lemma_precedes_asymmetric(k, e.key@);
        } else if i > p {
            assert(entries[i - 1].key@ == k);
            lemma_entry_in_map(entries, i - 1);
            lemma_precedes_asymmetric(e.key@, k);
        }
    }
    assert(entries_map(after) =~= want);
}

/// Taking an entry out.
pub proof fn lemma_remove(entries: Seq<Entry>, p: int)
    requires
        sorted(entries),
        0 <= p < entries.len(),
    ensures
        sorted(entries.remove(p)),
        entries_map(entries.remove(p)) == entries_map(entries).remove(entries[p].key@),
{
    let after = entries.remove(p);
    let gone = entries[p].key@;
    assert forall|i: int, j: int| 0 <= i < j < after.len() implies precedes(
        (#[trigger] after[i]).key@,
        (#[trigger] after[j]).key@,
    ) by {
        let a = if i < p { i } else { i + 1 };
        let b = if j < p { j } else { j + 1 };
        assert(precedes(entries[a].key@, entries[b].key@));
    }
    let want = entries_map(entries).remove(gone);
    assert forall|k: Seq<char>| entries_map(after).contains_key(k) <==> want.contains_key(k) by {
        if holds(after, k) {
            let i = slot(after, k);
            let a = if i < p { i } else { i + 1 };
            assert(entries[a].key@ == k);
            lemma_entry_in_map(entries, a);
            lemma_entry_in_map(entries, p);
        }
        if holds(entries, k) && k != gone {
            let i = slot(entries, k);
            if i < p {
                assert(after[i].key@ == k);
            } else {
                assert(after[i - 1].key@ == k);
            }
        }
    }
    assert forall|k: Seq<char>| entries_map(after).contains_key(k) implies entries_map(after)[k]
        == want[k] by {
        let i = slot(after, k);
        lemma_entry_in_map(after, i);
        let a = if i < p { i } else { i + 1 };
        assert(entries[a].key@ == k);
        lemma_entry_in_map(entries, a);
    }
    assert(entries_map(after) =~= want);
}

/// Two ascending sequences with the same elements are the same sequence.
pub proof fn lemma_ascending_unique(s: Seq<Seq<char>>, t: Seq<Seq<char>>)
    requires
        ascending(s),
        ascending(t),
        s.to_set() == t.to_set(),
    ensures
        s == t,
    decreases s.len(),
{
    if s.len() == 0 {
        if t.len() > 0 {
            assert(t.to_set().contains(t[0]));
            assert(s.to_set().contains(t[0]));
        }
        assert(s =~= t);
    } else {
        let top = s.last();
        assert(s.to_set().contains(top));
        assert(t.to_set().contains(top));
        let at = choose|i: int| 0 <= i < t.len() && t[i] == top;
        if at != t.len() - 1 {
            let other = t.last();
            assert(precedes(t[at], other));
            assert(t.to_set().contains(other));
            assert(s.to_set().contains(other));
            let back = choose|i: int| 0 <= i < s.len() && s[i] == other;
            if back < s.len() - 1 {
                assert(precedes(s[back], s[s.len() - 1]));
                lemma_precedes_asymmetric(other, top);
            } else {
                lemma_precedes_irreflexive(top);
            }
        }
        let s0 = s.drop_last();
        let t0 = t.drop_last();
        assert forall|k: Seq<char>| s0.to_set().contains(k) <==> t0.to_set().contains(k) by {
            if s0.to_set().contains(k) {
                let i = choose|i: int| 0 <= i < s0.len() && s0[i] == k;
                assert(precedes(s[i], s[s.len() - 1]));
                lemma_precedes_asymmetric(k, top);
                assert(s.to_set().contains(s[i]));
                assert(t.to_set().contains(k));
                let j = choose|j: int| 0 <= j < t.len() && t[j] == k;
                assert(t0[j] == k);
            }
            if t0.to_set().contains(k) {
                let i = choose|i: int| 0 <= i < t0.len() && t0[i] == k;
                assert(precedes(t[i], t[t.len() - 1]));
                lemma_precedes_asymmetric(k, top);
                assert(t.to_set().contains(t[i]));
                assert(s.to_set().contains(k));
                let j = choose|j: int| 0 <= j < s.len() && s[j] == k;
                assert(s0[j] == k);
            }
        }
        assert(s0.to_set() =~= t0.to_set());
        assert forall|i: int, j: int| 0 <= i < j < s0.len() implies precedes(
            #[trigger] s0[i],
            #[trigger] s0[j],
        ) by {
            assert(precedes(s[i], s[j]));
        }
        assert forall|i: int, j: int| 0 <= i < j < t0.len() implies precedes(
            #[trigger] t0[i],
            #[trigger] t0[j],
        ) by {
            assert(precedes(t[i], t[j]));
        }
        lemma_ascending_unique(s0, t0);
        assert(s =~= s0.push(top));
        assert(t =~= t0.push(top));
    }
}

/// How many elements of an ascending list come before `x`.
pub open spec fn place(list: Seq<Seq<char>>, x: Seq<char>) -> int
    decreases list.len(),
{
    if list.len() == 0 {
        0
    } else if precedes(list.last(), x) {
        list.len() as int
    } else {
        place(list.drop_last(), x)
    }
}

/// In an ascending list the elements that come before `x` are the first
/// `place(list, x)` ones.
proof fn lemma_place(list: Seq<Seq<char>>, x: Seq<char>)
    requires
        ascending(list),
    ensures
        0 <= place(list, x) <= list.len(),
        forall|i: int| 0 <= i < place(list, x) ==> precedes(#[trigger] list[i], x),
        forall|i: int| place(list, x) <= i < list.len() ==> !precedes(#[trigger] list[i], x),
    decreases list.len(),
{
    if list.len() == 0 {
    } else if precedes(list.last(), x) {
        assert forall|i: int| 0 <= i < list.len() implies precedes(#[trigger] list[i], x) by {
            if i < list.len() - 1 {
                assert(precedes(list[i], list[list.len() - 1]));
                lemma_precedes_transitive(list[i], list.last(), x);
            }
        }
    } else {
        let shorter = list.drop_last();
        assert forall|i: int, j: int| 0 <= i < j < shorter.len() implies precedes(
            #[trigger] shorter[i],
            #[trigger] shorter[j],
        ) by {
            assert(precedes(list[i], list[j]));
        }
        lemma_place(shorter, x);
        assert forall|i: int| 0 <= i < place(list, x) implies precedes(#[trigger] list[i], x) by {
            assert(shorter[i] == list[i]);
        }
        assert forall|i: int| place(list, x) <= i < list.len() implies !precedes(
            #[trigger] list[i],
            x,
        ) by {
            if i < shorter.len() {
                assert(shorter[i] == list[i]);
            }
        }
    }
}

/// Every finite set of keys has an ascending listing.
pub proof fn lemma_listing_exists(keys: Set<Seq<char>>)
    requires
        keys.finite(),
    ensures
        exists|list: Seq<Seq<char>>| ascending(list) && list.to_set() == keys,
    decreases keys.len(),
{
    if keys.len() == 0 {
        let list = Seq::<Seq<char>>::empty();
        keys.lemma_len0_is_empty();
        assert(list.to_set() =~= keys);
        assert(ascending(list) && list.to_set() == keys);
    } else {
        let x = keys.choose();
        let rest = keys.remove(x);
        lemma_listing_exists(rest);
        let before = choose|list: Seq<Seq<char>>| ascending(list) && list.to_set() == rest;
        let p = place(before, x);
        lemma_place(before, x);
        let list = before.insert(p, x);
        assert forall|i: int| p <= i < before.len() implies precedes(x, #[trigger] before[i]) by {
            assert(before.to_set().contains(before[i]));
            assert(before[i] != x);
            lemma_precedes_total(before[i], x);
        }
        assert forall|i: int, j: int| 0 <= i < j < list.len() implies precedes(
            #[trigger] list[i],
            #[trigger] list[j],
        ) by {
            if j < p {
                assert(precedes(before[i], before[j]));
            } else if j == p {
                assert(precedes(before[i], x));
            } else if i < p {
                assert(precedes(before[i], before[j - 1]));
            } else if i == p {
                assert(precedes(x, before[j - 1]));
            } else {
                assert(precedes(before[i - 1], before[j - 1]));
            }
        }
        assert forall|k: Seq<char>| list.to_set().contains(k) <==> keys.contains(k) by {
            if list.to_set().contains(k) {
                let i = choose|i: int| 0 <= i < list.len() && list[i] == k;
                if i < p {
                    assert(before.to_set().contains(before[i]));
                } else if i > p {
                    assert(before.to_set().contains(before[i - 1]));
                }
            }
            if keys.contains(k) {
                if k == x {
                    assert(list[p] == k);
                } else {
                    assert(rest.contains(k));
                    assert(before.to_set().contains(k));
                    let i = choose|i: int| 0 <= i < before.len() && before[i] == k;
                    if i < p {
                        assert(list[i] == k);
                    } else {
                        assert(list[i + 1] == k);
                    }
                }
            }
        }
        assert(list.to_set() =~= keys);
        assert(ascending(list) && list.to_set() == keys);
    }
}

/// The ascending listing of a finite map holds its keys, each once, in
/// ascending order.
pub proof fn lemma_sorted_keys(m: Map<Seq<char>, Seq<char>>)
    requires
        m.dom().finite(),
    ensures
        ascending(sorted_keys(m)),
        sorted_keys(m).to_set() == m.dom(),
{
    lemma_listing_exists(m.dom());
}

/// The keys of sorted entries are the ascending listing of their map.
pub proof fn lemma_keys_are_sorted_keys(entries: Seq<Entry>)
    requires
        sorted(entries),
    ensures
        ascending(entries_keys(entries)),
        entries_keys(entries).to_set() == entries_map(entries).dom(),
        entries_keys(entries) == sorted_keys(entries_map(entries)),
{
    let keys = entries_keys(entries);
    assert forall|i: int, j: int| 0 <= i < j < keys.len() implies precedes(
        #[trigger] keys[i],
        #[trigger] keys[j],
    ) by {
        assert(precedes(entries[i].key@, entries[j].key@));
    }
    assert forall|k: Seq<char>| keys.to_set().contains(k) <==> entries_map(entries).dom().contains(
        k,
    ) by {
        if keys.to_set().contains(k) {
            let i = choose|i: int| 0 <= i < keys.len() && keys[i] == k;
            assert(entries[i].key@ == k);
        }
        if holds(entries, k) {
            let i = slot(entries, k);
            assert(keys[i] == k);
        }
    }
    assert(keys.to_set() =~= entries_map(entries).dom());
    let chosen = sorted_keys(entries_map(entries));
    lemma_ascending_unique(keys, chosen);
}

/// A mapping from keys to values, both text.
#[derive(Clone, Debug, PartialEq, Eq)]
pub struct Mapping {
    entries: Vec<Entry>,
}

impl View for Mapping {
    type V = Map<Seq<char>, Seq<char>>;

    closed spec fn view(&self) -> Map<Seq<char>, Seq<char>> {
        entries_map(self.entries@)
    }
}

impl Mapping {
    /// The invariant of the representation: ascending keys, none twice.
    pub closed spec fn wf(&self) -> bool {
        sorted(self.entries@)
    }

    /// The mapping with no entry.
    pub fn new() -> (m: Mapping)
        ensures
            m.wf(),
            m@ == Map::<Seq<char>, Seq<char>>::empty(),
    {
        let m = Mapping { entries: Vec::new() };
        assert(m@ =~= Map::<Seq<char>, Seq<char>>::empty());
        m
    }

    /// The entries, in ascending key order.
    pub fn entries(&self) -> (list: &Vec<Entry>)
        requires
            self.wf(),
        ensures
            sorted(list@),
            entries_map(list@) == self@,
    {
        &self.entries
    }

    /// Where `key` stands among the entries: the number of entries whose key
    /// comes before it, and whether the entry at that place has this key.
    fn position(&self, key: &str) -> (r: (usize, bool))
        requires
            self.wf(),
        ensures
            r.0 <= self.entries@.len(),
            forall|i: int| 0 <= i < r.0 ==> precedes((#[trigger] self.entries@[i]).key@, key@),
            r.1 ==> r.0 < self.entries@.len() && self.entries@[r.0 as int].key@ == key@,
            !r.1 ==> forall|i: int|
                r.0 <= i < self.entries@.len() ==> precedes(
                    key@,
                    (#[trigger] self.entries@[i]).key@,
                ),
            r.1 == self@.contains_key(key@),
    {
        let mut lo: usize = 0;
        let mut hi: usize = self.entries.len();
        while lo < hi
            invariant
                self.wf(),
                lo <= hi <= self.entries@.len(),
                forall|i: int| 0 <= i < lo ==> precedes((#[trigger] self.entries@[i]).key@, key@),
                forall|i: int|
                    hi <= i < self.entries@.len() ==> precedes(
                        key@,
                        (#[trigger] self.entries@[i]).key@,
                    ),
            decreases hi - lo,
        {
            let mid = lo + (hi - lo) / 2;
            match rank(self.entries[mid].key.as_str(), key) {
                Rank::Before => {
                    proof {
                        let pivot = self.entries@[mid as int].key@;
                        assert forall|i: int| 0 <= i < mid + 1 implies precedes(
                            (#[trigger] self.entries@[i]).key@,
                            key@,
                        ) by {
                            if i < mid {
                                assert(precedes(self.entries@[i].key@, pivot));
                                lemma_precedes_transitive(self.entries@[i].key@, pivot, key@);
                            }
                        }
                    }
                    lo = mid + 1;
                },
                Rank::Same => {
                    proof {
                        let pivot = self.entries@[mid as int].key@;
                        assert forall|i: int| 0 <= i < mid implies precedes(
                            (#[trigger] self.entries@[i]).key@,
                            key@,
                        ) by {
                            assert(precedes(self.entries@[i].key@, pivot));
                        }
                        lemma_entry_in_map(self.entries@, mid as int);
                    }
                    return (mid, true);
                },
                Rank::After => {
                    proof {
                        let pivot = self.entries@[mid as int].key@;
                        assert forall|i: int| mid <= i < self.entries@.len() implies precedes(
                            key@,
                            (#[trigger] self.entries@[i]).key@,
                        ) by {
                            if mid < i {
                                assert(precedes(pivot, self.entries@[i].key@));
                                lemma_precedes_transitive(key@, pivot, self.entries@[i].key@);
                            }
                        }
                    }
                    hi = mid;
                },
            }
        }
        proof {
            lemma_gap_is_absent(self.entries@, lo as int, key@);
        }
        (lo, false)
    }

    /// The value held for `key`, if any.
    pub fn get(&self, key: &str) -> (r: Option<&String>)
        requires
            self.wf(),
        ensures
            r is Some <==> self@.contains_key(key@),
            r is Some ==> r->0@ == self@[key@],
    {
        let (p, found) = self.position(key);
        if found {
            proof {
                lemma_entry_in_map(self.entries@, p as int);
            }
            Some(&self.entries[p].value)
        } else {
            None
        }
    }

    /// Holds `value` for `key` from now on, whatever was held for it before.
    pub fn insert(&mut self, key: String, value: String)
        requires
            old(self).wf(),
        ensures
            final(self).wf(),
            final(self)@ == old(self)@.insert(key@, value@),
    {
        let (p, found) = self.position(key.as_str());
        let entry = Entry { key, value };
        if found {
            proof {
                lemma_replace(self.entries@, p as int, entry);
            }
            self.entries.set(p, entry);
        } else {
            proof {
                lemma_insert(self.entries@, p as int, entry);
            }
            self.entries.insert(p, entry);
        }
    }

    /// Holds nothing for `key` from now on. A key that was not held is no
    /// error.
    pub fn remove(&mut self, key: &str)
        requires
            old(self).wf(),
        ensures
            final(self).wf(),
            final(self)@ == old(self)@.remove(key@),
    {
        let (p, found) = self.position(key);
        if found {
            proof {
                lemma_remove(self.entries@, p as int);
            }
            self.entries.remove(p);
        } else {
            assert(self@ =~= self@.remove(key@));
        }
    }

    /// Holds nothing from now on.
    pub fn clear(&mut self)
        ensures
            final(self).wf(),
            final(self)@ == Map::<Seq<char>, Seq<char>>::empty(),
    {
        self.entries.clear();
        assert(self@ =~= Map::<Seq<char>, Seq<char>>::empty());
    }

    /// The keys, in ascending order.
    pub fn keys(&self) -> (list: Vec<String>)
        requires
            self.wf(),
        ensures
            list.deep_view() == sorted_keys(self@),
            ascending(list.deep_view()),
            list.deep_view().to_set() == self@.dom(),
    {
        let mut list: Vec<String> = Vec::new();
        let n = self.entries.len();
        let mut i: usize = 0;
        while i < n
            invariant
                n == self.entries@.len(),
                i <= n,
                list@.len() == i,
                forall|j: int| 0 <= j < i ==> (#[trigger] list@[j])@ == self.entries@[j].key@,
            decreases n - i,
        {
            list.push(self.entries[i].key.clone());
            i += 1;
        }
        proof {
            lemma_keys_are_sorted_keys(self.entries@);
            assert(list.deep_view() =~= entries_keys(self.entries@));
        }
        list
    }
}

} // verus!
