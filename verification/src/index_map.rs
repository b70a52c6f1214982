//! An insertion-ordered map from string keys to indices, kept in indexmap's
//! `IndexMap`.

use vstd::prelude::*;
use indexmap::IndexMap;

verus! {

/// indexmap's insertion-ordered hash map; opaque here.
#[verifier::external_type_specification]
#[verifier::external_body]
#[verifier::reject_recursive_types(K)]
#[verifier::reject_recursive_types(V)]
#[verifier::reject_recursive_types(S)]
pub struct ExIndexMap<K, V, S>(indexmap::IndexMap<K, V, S>);

/// The entries of a string-to-index map, in map order.
pub uninterp spec fn slot_entries(m: IndexMap<String, usize>) -> Seq<(Seq<char>, usize)>;

/// The position of the first entry with key `k`.
pub open spec fn slot_index(e: Seq<(Seq<char>, usize)>, k: Seq<char>) -> Option<int>
    decreases e.len(),
{
    if e.len() == 0 {
        None
    } else if e[0].0 == k {
        Some(0)
    } else {
        match slot_index(e.drop_first(), k) {
            Some(i) => Some(i + 1),
            None => None,
        }
    }
}

/// The value stored under `k`.
pub open spec fn slot_lookup(e: Seq<(Seq<char>, usize)>, k: Seq<char>) -> Option<usize> {
    match slot_index(e, k) {
        Some(i) => Some(e[i].1),
        None => None,
    }
}

/// `IndexMap::insert`: an existing key keeps its place and takes the new
/// value; a new key goes last.
pub open spec fn slot_insert(e: Seq<(Seq<char>, usize)>, k: Seq<char>, v: usize) -> Seq<(Seq<char>, usize)> {
    match slot_index(e, k) {
        Some(i) => e.update(i, (e[i].0, v)),
        None => e.push((k, v)),
    }
}

/// `IndexMap::new`: an empty map.
#[verifier::external_body]
pub(crate) fn slot_map_new() -> (r: IndexMap<String, usize>)
    ensures
        slot_entries(r) == Seq::<(Seq<char>, usize)>::empty(),
{
    IndexMap::new()
}

/// `IndexMap::get`: the value under `key`, copied out.
#[verifier::external_body]
pub(crate) fn slot_map_get(m: &IndexMap<String, usize>, key: &str) -> (r: Option<usize>)
    ensures
        r == slot_lookup(slot_entries(*m), key@),
{
    m.get(key).copied()
}

/// `IndexMap::insert`, as its documentation states it: an existing key keeps
/// its position and takes the new value, a new key is appended.
#[verifier::external_body]
pub(crate) fn slot_map_insert(m: &mut IndexMap<String, usize>, key: String, value: usize)
    ensures
        slot_entries(*final(m)) == slot_insert(slot_entries(*old(m)), key@, value),
{
    m.insert(key, value);
}

/// `slot_index` finds exactly the entries with the key.
pub proof fn lemma_slot_index(e: Seq<(Seq<char>, usize)>, k: Seq<char>)
    ensures
        slot_index(e, k) matches Some(i) ==> 0 <= i < e.len() && e[i].0 == k && forall|j: int|
            0 <= j < i ==> e[j].0 != k,
        slot_index(e, k) is None ==> forall|j: int| 0 <= j < e.len() ==> e[j].0 != k,
    decreases e.len(),
{
    if e.len() > 0 {
        lemma_slot_index(e.drop_first(), k);
        assert forall|j: int| 1 <= j < e.len() implies e[j] == e.drop_first()[j - 1] by {}
    }
}

} // verus!
