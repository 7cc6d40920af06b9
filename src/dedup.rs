use dashmap::DashMap;
use std::collections::hash_map::RandomState;
use vstd::prelude::*;

verus! {

#[verifier::external_type_specification]
#[verifier::external_body]
#[verifier::reject_recursive_types(K)]
#[verifier::reject_recursive_types(V)]
#[verifier::reject_recursive_types(S)]
pub struct ExDashMap<K, V, S>(DashMap<K, V, S>);

/// Concurrent map from path identity to asset id.
pub type DedupMap = DashMap<String, usize, RandomState>;

/// The entries of a dedup index: path identity to asset id.
pub uninterp spec fn index_entries(m: DedupMap) -> Map<Seq<char>, usize>;

/// An empty dedup index.
/// Relies on dashmap::DashMap::new: a map with no entries.
#[verifier::external_body]
pub(crate) fn index_new() -> (r: DedupMap)
    ensures
        index_entries(r).dom() == Set::<Seq<char>>::empty(),
{
    DashMap::new()
}

/// Whether `key` has an entry.
/// Relies on dashmap::DashMap::contains_key: true exactly when the key is present.
#[verifier::external_body]
pub(crate) fn index_contains(m: &DedupMap, key: &String) -> (r: bool)
    ensures
        r == index_entries(*m).contains_key(key@),
{
    m.contains_key(key)
}

/// Sets the entry of `key` to `value`.
/// Relies on dashmap::DashMap::insert: the key then maps to the value, other
/// entries are kept.
#[verifier::external_body]
pub(crate) fn index_insert(m: &mut DedupMap, key: String, value: usize)
    ensures
        index_entries(*final(m)) == index_entries(*old(m)).insert(key@, value),
{
    m.insert(key, value);
}

} // verus!
