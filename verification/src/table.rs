//! Tables keyed by name, kept as lists of entries in the order in which
//! the names were first bound.
//!
//! A name is found by its characters. Binding a name that the table holds
//! replaces what it was bound to and keeps its place; binding a new name
//! adds an entry at the end.

use vstd::prelude::*;
use vstd::string::*;

verus! {

/// The first position at or after `i` whose entry is named `key`.
pub open spec fn first_from<V>(entries: Seq<(String, V)>, key: Seq<char>, i: int) -> Option<int>
    decreases entries.len() - i,
{
    if i < 0 || i >= entries.len() {
        None
    } else if entries[i].0@ == key {
        Some(i)
    } else {
        first_from(entries, key, i + 1)
    }
}

/// The position of the entry named `key`, where the table holds one.
pub open spec fn index_of<V>(entries: Seq<(String, V)>, key: Seq<char>) -> Option<int> {
    first_from(entries, key, 0)
}

/// What the table binds `key` to, where it binds it.
pub open spec fn lookup<V>(entries: Seq<(String, V)>, key: Seq<char>) -> Option<V> {
    match index_of(entries, key) {
        Some(i) => Some(entries[i].1),
        None => None,
    }
}

/// Whether the table binds `key`.
pub open spec fn has_key<V>(entries: Seq<(String, V)>, key: Seq<char>) -> bool {
    index_of(entries, key) is Some
}

/// The table after binding `key` to `value`: with the entry named `key`
/// replaced, or with a new entry at the end.
pub open spec fn bound<V>(entries: Seq<(String, V)>, key: String, value: V) -> Seq<(String, V)> {
    match index_of(entries, key@) {
        Some(i) => entries.update(i, (key, value)),
        None => entries.push((key, value)),
    }
}

/// What the first position of a name is: the entry there has the name, no
/// entry between the start of the search and it has, and where there is
/// none, no entry from the start of the search on has the name.
pub proof fn lemma_first_from<V>(entries: Seq<(String, V)>, key: Seq<char>, i: int)
    requires
        0 <= i,
    ensures
        match first_from(entries, key, i) {
            Some(j) => i <= j < entries.len() && entries[j].0@ == key && (forall|k: int|
                i <= k < j ==> entries[k].0@ != key),
            None => forall|k: int| i <= k < entries.len() ==> entries[k].0@ != key,
        },
    decreases entries.len() - i,
{
    if i < entries.len() && entries[i].0@ != key {
        lemma_first_from(entries, key, i + 1);
    }
}

/// Two tables whose entries have the same names, place by place, hold
/// every name at the same place.
pub proof fn lemma_first_from_names<V, W>(
    a: Seq<(String, V)>,
    b: Seq<(String, W)>,
    key: Seq<char>,
    i: int,
)
    requires
        0 <= i,
        a.len() == b.len(),
        forall|k: int| 0 <= k < a.len() ==> a[k].0@ == b[k].0@,
    ensures
        first_from(a, key, i) == first_from(b, key, i),
    decreases a.len() - i,
{
    if i < a.len() && a[i].0@ != key {
        lemma_first_from_names(a, b, key, i + 1);
    }
}

/// A name is found in a table with one more entry where it was found
/// before; a name that was not found is found at the new entry if that
/// has the name.
pub proof fn lemma_first_from_push<V>(
    entries: Seq<(String, V)>,
    entry: (String, V),
    key: Seq<char>,
    i: int,
)
    requires
        0 <= i <= entries.len(),
    ensures
        first_from(entries.push(entry), key, i) == (match first_from(entries, key, i) {
            Some(j) => Some(j),
            None => if entry.0@ == key {
                Some(entries.len() as int)
            } else {
                None
            },
        }),
    decreases entries.len() - i,
{
    let longer = entries.push(entry);
    if i < entries.len() {
        assert(longer[i] == entries[i]);
        if entries[i].0@ != key {
            lemma_first_from_push(entries, entry, key, i + 1);
        }
    } else {
        assert(longer[i] == entry);
        assert(first_from(longer, key, i + 1) is None);
    }
}

/// After binding a name, the table binds that name to the new value and
/// every other name as before.
pub proof fn lemma_bound<V>(entries: Seq<(String, V)>, key: String, value: V, other: Seq<char>)
    ensures
        lookup(bound(entries, key, value), key@) == Some(value),
        other != key@ ==> lookup(bound(entries, key, value), other) == lookup(entries, other),
        has_key(bound(entries, key, value), other) == (has_key(entries, other) || other == key@),
{
    let after = bound(entries, key, value);
    lemma_first_from(entries, key@, 0);
    lemma_first_from(entries, other, 0);
    match index_of(entries, key@) {
        Some(i) => {
            assert forall|k: int| 0 <= k < entries.len() implies entries[k].0@ == after[k].0@ by {}
            lemma_first_from_names(entries, after, key@, 0);
            lemma_first_from_names(entries, after, other, 0);
        },
        None => {
            lemma_first_from_push(entries, (key, value), key@, 0);
            lemma_first_from_push(entries, (key, value), other, 0);
        },
    }
}

/// Finds the entry named `key`.
pub fn find<V>(entries: &Vec<(String, V)>, key: &String) -> (r: Option<usize>)
    ensures
        match r {
            Some(i) => index_of(entries@, key@) == Some(i as int) && i < entries.len(),
            None => index_of(entries@, key@) is None,
        },
{
    let mut i: usize = 0;
    while i < entries.len()
        invariant
            i <= entries.len(),
            index_of(entries@, key@) == first_from(entries@, key@, i as int),
        decreases entries.len() - i,
    {
        if entries[i].0 == *key {
            return Some(i);
        }
        i += 1;
    }
    None
}

/// A name that no entry of the table has: it is longer than each of
/// theirs.
pub fn unused_key<V>(entries: &Vec<(String, V)>) -> (r: String)
    ensures
        index_of(entries@, r@) is None,
        r@.len() >= 1,
{
    let mut r = String::from_str("0");
    proof {
        reveal_strlit("0");
    }
    let mut i: usize = 0;
    while i < entries.len()
        invariant
            i <= entries.len(),
            r@.len() >= 1,
            forall|k: int| 0 <= k < i ==> (#[trigger] entries@[k]).0@.len() < r@.len(),
        decreases entries.len() - i,
    {
        r.append(entries[i].0.as_str());
        i += 1;
    }
    proof {
        lemma_first_from(entries@, r@, 0);
    }
    r
}

/// Binds `key` to `value` in the table.
pub fn bind<V>(entries: &mut Vec<(String, V)>, key: String, value: V)
    ensures
        final(entries)@ == bound(old(entries)@, key, value),
{
    match find(entries, &key) {
        Some(i) => {
            entries.set(i, (key, value));
        },
        None => {
            entries.push((key, value));
        },
    }
}

} // verus!
