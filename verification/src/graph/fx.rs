//! The hashed sets and maps of `rustc_hash`, for node ids.
//!
//! `FxBuildHasher` builds hashers with a fixed initial state, so equal keys
//! always hash alike; the wrappers below state what the standard set and map
//! operations then do to the contents.

use rustc_hash::{FxBuildHasher, FxHashMap, FxHashSet};

use vstd::prelude::*;

verus! {

#[verifier::external_type_specification]
#[verifier::external_body]
pub struct ExFxBuildHasher(FxBuildHasher);

/// `HashSet::insert` on an `FxHashSet`: adds the id and tells whether it was
/// new.
#[verifier::external_body]
pub(crate) fn fx_set_insert(set: &mut FxHashSet<usize>, id: usize) -> (added: bool)
    ensures
        final(set)@ == old(set)@.insert(id),
        added == !old(set)@.contains(id),
{
    set.insert(id)
}

/// `HashSet::contains` on an `FxHashSet`.
#[verifier::external_body]
pub(crate) fn fx_set_contains(set: &FxHashSet<usize>, id: usize) -> (found: bool)
    ensures
        found == set@.contains(id),
{
    set.contains(&id)
}

/// The ids of an `FxHashSet`, each once, in the set's iteration order.
#[verifier::external_body]
pub(crate) fn fx_set_ids(set: &FxHashSet<usize>) -> (ids: Vec<usize>)
    ensures
        ids@.to_set() == set@,
        ids@.no_duplicates(),
{
    set.iter().copied().collect()
}

/// An `FxHashMap` keyed by node id.
pub type FxIdMap<V> = FxHashMap<usize, V>;

/// `HashMap::insert` on an `FxHashMap`: sets the value of an id.
#[verifier::external_body]
pub(crate) fn fx_map_insert<V>(table: &mut FxIdMap<V>, id: usize, value: V)
    ensures
        final(table)@ == old(table)@.insert(id, value),
{
    table.insert(id, value);
}

} // verus!
