//! Insertion into the entries of a dictionary, and what is found after it.

use vstd::prelude::*;
use crate::layout::{
    distinct_keys, has_key, holds_key, key_position, lookup, upsert, wire, Value,
};

verus! {

/// An insertion keeps the keys distinct, and adds at most one entry, which
/// holds the inserted key unless an entry held an equal one.
pub proof fn lemma_upsert(entries: Seq<(Value, Value)>, key: Value, value: Value)
    requires
        distinct_keys(entries),
    ensures
        distinct_keys(upsert(entries, key, value)),
        upsert(entries, key, value).len() <= entries.len() + 1,
        forall|i: int|
            0 <= i < upsert(entries, key, value).len() ==> {
                let entry = #[trigger] upsert(entries, key, value)[i];
                &&& entry.1 == value || (i < entries.len() && entry.1 == entries[i].1)
                &&& entry.0 == key || (i < entries.len() && entry.0 == entries[i].0)
            },
        !has_key(entries, key) ==> upsert(entries, key, value) == entries.push((key, value)),
{
    let after = upsert(entries, key, value);
    if has_key(entries, key) {
        let at = key_position(entries, key);
        assert(holds_key(entries, key, at));
        assert forall|i: int, j: int|
            0 <= i < after.len() && 0 <= j < after.len() && wire(#[trigger] after[i].0) == wire(
                #[trigger] after[j].0,
            ) implies i == j by {
            assert(after[i].0 == entries[i].0);
            assert(after[j].0 == entries[j].0);
        }
    } else {
        assert forall|i: int, j: int|
            0 <= i < after.len() && 0 <= j < after.len() && wire(#[trigger] after[i].0) == wire(
                #[trigger] after[j].0,
            ) implies i == j by {
            if i < entries.len() && j < entries.len() {
                assert(after[i].0 == entries[i].0);
                assert(after[j].0 == entries[j].0);
            } else if i < entries.len() {
                assert(holds_key(entries, key, i));
            } else if j < entries.len() {
                assert(holds_key(entries, key, j));
            }
        }
    }
}

/// Where the keys are distinct, the position of a key is that of any entry
/// that holds it.
pub proof fn lemma_key_position(entries: Seq<(Value, Value)>, key: Value, at: int)
    requires
        distinct_keys(entries),
        holds_key(entries, key, at),
    ensures
        has_key(entries, key),
        key_position(entries, key) == at,
        lookup(entries, key) == Some(entries[at].1),
{
    let chosen = key_position(entries, key);
    assert(holds_key(entries, key, chosen));
    assert(wire(entries[chosen].0) == wire(entries[at].0));
}

/// In entries with distinct keys, a value that was inserted is found under
/// its key, and what is found under any other key is what was found before.
pub proof fn law_found_after_insertion(
    entries: Seq<(Value, Value)>,
    key: Value,
    value: Value,
    other: Value,
)
    requires
        distinct_keys(entries),
    ensures
        lookup(upsert(entries, key, value), key) == Some(value),
        wire(other) != wire(key) ==> lookup(upsert(entries, key, value), other) == lookup(
            entries,
            other,
        ),
{
    let after = upsert(entries, key, value);
    lemma_upsert(entries, key, value);
    if has_key(entries, key) {
        let at = key_position(entries, key);
        assert(holds_key(entries, key, at));
        assert(after[at].0 == entries[at].0);
        assert(holds_key(after, key, at));
        lemma_key_position(after, key, at);
    } else {
        assert(holds_key(after, key, entries.len() as int));
        lemma_key_position(after, key, entries.len() as int);
    }
    if wire(other) != wire(key) {
        if has_key(entries, other) {
            let i = key_position(entries, other);
            assert(holds_key(entries, other, i));
            assert(after[i] == entries[i]);
            assert(holds_key(after, other, i));
            lemma_key_position(after, other, i);
        } else if has_key(after, other) {
            let i = key_position(after, other);
            assert(holds_key(after, other, i));
            if i < entries.len() {
                assert(after[i].0 == entries[i].0);
                assert(holds_key(entries, other, i));
            }
            assert(false);
        }
    }
}

} // verus!
