//! Insertion-ordered maps from a string key to a 64-bit handle.
//!
//! The maps are `indexmap::IndexMap<String, u64>`. Verus does not look inside
//! them: what a map holds is named by [`entries`], and the functions of this
//! module state, over that name, what the map's own methods do.

use indexmap::IndexMap;
use vstd::prelude::*;

verus! {

/// `indexmap::IndexMap`, a hash map that walks its pairs in the order in which
/// their keys were first inserted. Nothing inside it is visible to proofs.
#[verifier::external_type_specification]
#[verifier::external_body]
#[verifier::reject_recursive_types(K)]
#[verifier::reject_recursive_types(V)]
#[verifier::reject_recursive_types(S)]
pub struct ExIndexMap<K, V, S>(IndexMap<K, V, S>);

/// The key-value pairs of a map, in the order in which the map walks them.
pub uninterp spec fn entries(m: IndexMap<String, u64>) -> Seq<(Seq<char>, u64)>;

/// Whether some pair of `s` has the key `k`.
pub open spec fn has_key(s: Seq<(Seq<char>, u64)>, k: Seq<char>) -> bool {
    exists|i: int| 0 <= i < s.len() && (#[trigger] s[i]).0 == k
}

/// The position of a pair of `s` with the key `k`, where there is one.
pub open spec fn key_index(s: Seq<(Seq<char>, u64)>, k: Seq<char>) -> int {
    choose|i: int| 0 <= i < s.len() && (#[trigger] s[i]).0 == k
}

/// No key occurs in two pairs of `s`.
pub open spec fn distinct_keys(s: Seq<(Seq<char>, u64)>) -> bool {
    forall|i: int, j: int|
        0 <= i < s.len() && 0 <= j < s.len() && i != j ==> (#[trigger] s[i]).0 != (#[trigger] s[j]).0
}

/// `s` after `k` is set to `v`: a pair with that key keeps its place and takes
/// the new value, a new key goes to the end.
pub open spec fn put(s: Seq<(Seq<char>, u64)>, k: Seq<char>, v: u64) -> Seq<(Seq<char>, u64)> {
    if has_key(s, k) {
        s.update(key_index(s, k), (k, v))
    } else {
        s.push((k, v))
    }
}

/// The value that `s` holds for `k`, if any.
pub open spec fn lookup(s: Seq<(Seq<char>, u64)>, k: Seq<char>) -> Option<u64> {
    if has_key(s, k) {
        Some(s[key_index(s, k)].1)
    } else {
        None
    }
}

/// `IndexMap::new`: the new map holds nothing.
#[verifier::external_body]
pub(crate) fn map_new() -> (m: IndexMap<String, u64>)
    ensures
        entries(m) == Seq::<(Seq<char>, u64)>::empty(),
{
    IndexMap::new()
}

/// `IndexMap::len`: the number of pairs. An `IndexMap` holds each key once, so
/// the keys of those pairs differ from each other.
#[verifier::external_body]
pub(crate) fn map_len(m: &IndexMap<String, u64>) -> (n: usize)
    ensures
        n == entries(*m).len(),
        forall|i: int, j: int|
            0 <= i < n && 0 <= j < n && i != j ==> (#[trigger] entries(*m)[i]).0 != (
            #[trigger] entries(*m)[j]).0,
{
    m.len()
}

/// `IndexMap::get_index`: the pair at position `i`, or `None` past the end.
#[verifier::external_body]
pub(crate) fn map_entry(m: &IndexMap<String, u64>, i: usize) -> (r: Option<(String, u64)>)
    ensures
        match r {
            Some(e) => i < entries(*m).len() && (e.0@, e.1) == entries(*m)[i as int],
            None => i >= entries(*m).len(),
        },
{
    match m.get_index(i) {
        Some((k, v)) => Some((k.clone(), *v)),
        None => None,
    }
}

/// `IndexMap::get`: the value stored for `key`, or `None` where the map has no
/// such key.
#[verifier::external_body]
pub(crate) fn map_get(m: &IndexMap<String, u64>, key: &String) -> (r: Option<u64>)
    ensures
        r == lookup(entries(*m), key@),
{
    match m.get(key) {
        Some(v) => Some(*v),
        None => None,
    }
}

/// `IndexMap::insert`: a key that the map holds keeps its place and takes the
/// new value, and the old value is returned; a new key goes to the end, and
/// `None` is returned.
#[verifier::external_body]
pub(crate) fn map_insert(m: &mut IndexMap<String, u64>, key: String, value: u64) -> (r: Option<u64>)
    ensures
        entries(*final(m)) == put(entries(*old(m)), key@, value),
        r == lookup(entries(*old(m)), key@),
{
    m.insert(key, value)
}

} // verus!
