//! The ordered key-value map that a ticket holds.
//!
//! The map is an `indexmap::IndexMap<String, String>`. Its contents are
//! modelled as the sequence of its entries, in the order in which the map
//! walks them: the order in which the keys were first inserted.

use indexmap::IndexMap;
use vstd::prelude::*;

verus! {

#[verifier::external_type_specification]
#[verifier::external_body]
#[verifier::reject_recursive_types(K)]
#[verifier::reject_recursive_types(V)]
#[verifier::reject_recursive_types(S)]
pub struct ExIndexMap<K, V, S>(IndexMap<K, V, S>);

/// `IndexMap::new`, for any keys and values: nothing is said of the map
/// here; of a map of strings [`values_new`] says that it is empty.
pub assume_specification<K, V>[ IndexMap::<K, V>::new ]() -> IndexMap<K, V>
;

/// `IndexMap::clone`, for any keys and values: nothing is said of the copy
/// here; of a map of strings [`values_clone`] says what it holds.
pub assume_specification<K, V, S>[ <IndexMap<K, V, S> as Clone>::clone ](
    map: &IndexMap<K, V, S>,
) -> IndexMap<K, V, S> where K: Clone, V: Clone, S: Clone
;

/// One entry of the map: a key and its value.
pub type Entry = (Seq<char>, Seq<char>);

/// The entries of the map, in the order in which it walks them.
pub uninterp spec fn entries_of(map: IndexMap<String, String>) -> Seq<Entry>;

/// The least index at which `key` stands in `entries`.
pub open spec fn key_index(entries: Seq<Entry>, key: Seq<char>) -> Option<int>
    decreases entries.len(),
{
    if entries.len() == 0 {
        None
    } else {
        match key_index(entries.drop_last(), key) {
            Some(i) => Some(i),
            None => if entries.last().0 == key {
                Some(entries.len() - 1)
            } else {
                None
            },
        }
    }
}

/// `entries` after `key` was given `value`: a key that is there keeps its
/// place and takes the new value; a new key goes to the end.
pub open spec fn with_entry(entries: Seq<Entry>, key: Seq<char>, value: Seq<char>) -> Seq<Entry> {
    match key_index(entries, key) {
        Some(i) => entries.update(i, (key, value)),
        None => entries.push((key, value)),
    }
}

/// No key stands twice in `entries`.
pub open spec fn keys_distinct(entries: Seq<Entry>) -> bool {
    forall|i: int, j: int|
        0 <= i < j < entries.len() ==> (#[trigger] entries[i]).0 != (#[trigger] entries[j]).0
}

/// What [`key_index`] finds holds the key, and nothing before it does.
pub proof fn lemma_key_index(entries: Seq<Entry>, key: Seq<char>)
    ensures
        match key_index(entries, key) {
            Some(i) => {
                &&& 0 <= i < entries.len()
                &&& entries[i].0 == key
                &&& forall|j: int| 0 <= j < i ==> (#[trigger] entries[j]).0 != key
            },
            None => forall|j: int| 0 <= j < entries.len() ==> (#[trigger] entries[j]).0 != key,
        },
    decreases entries.len(),
{
    if entries.len() > 0 {
        lemma_key_index(entries.drop_last(), key);
        assert forall|j: int| 0 <= j < entries.len() - 1 implies entries.drop_last()[j]
            == entries[j] by {}
    }
}

/// Giving a key a value keeps the keys distinct.
pub proof fn lemma_with_entry_distinct(entries: Seq<Entry>, key: Seq<char>, value: Seq<char>)
    requires
        keys_distinct(entries),
    ensures
        keys_distinct(with_entry(entries, key, value)),
{
    lemma_key_index(entries, key);
    let after = with_entry(entries, key, value);
    assert forall|i: int, j: int| 0 <= i < j < after.len() implies (#[trigger] after[i]).0 != (
    #[trigger] after[j]).0 by {
        match key_index(entries, key) {
            Some(k) => {
                assert(after[i].0 == entries[i].0);
                assert(after[j].0 == entries[j].0);
            },
            None => {
                if j < entries.len() {
                    assert(after[i] == entries[i] && after[j] == entries[j]);
                } else {
                    assert(after[i] == entries[i]);
                }
            },
        }
    }
}

/// `IndexMap::new` for a map of strings: a map without entries.
#[verifier::external_body]
pub(crate) fn values_new() -> (map: IndexMap<String, String>)
    ensures
        entries_of(map) == Seq::<Entry>::empty(),
{
    IndexMap::new()
}

/// `IndexMap::len`: the number of entries.
#[verifier::external_body]
pub(crate) fn values_len(map: &IndexMap<String, String>) -> (n: usize)
    ensures
        n == entries_of(*map).len(),
{
    map.len()
}

/// `IndexMap::insert`: where an equal key is in the map, it keeps its place
/// and its value is replaced; otherwise the pair goes in last.
#[verifier::external_body]
pub(crate) fn values_insert(map: &mut IndexMap<String, String>, key: String, value: String)
    ensures
        entries_of(*final(map)) == with_entry(entries_of(*old(map)), key@, value@),
{
    map.insert(key, value);
}

/// `IndexMap::get_index`: the key and the value at place `i`.
#[verifier::external_body]
pub(crate) fn values_entry(map: &IndexMap<String, String>, i: usize) -> (entry: (&String, &String))
    requires
        i < entries_of(*map).len(),
    ensures
        (entry.0@, entry.1@) == entries_of(*map)[i as int],
{
    map.get_index(i).unwrap()
}

/// `IndexMap::clone` on a map of strings: a map with the same entries in
/// the same order.
#[verifier::external_body]
pub(crate) fn values_clone(map: &IndexMap<String, String>) -> (copy: IndexMap<String, String>)
    ensures
        entries_of(copy) == entries_of(*map),
{
    map.clone()
}

} // verus!
