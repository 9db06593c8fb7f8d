//! The sparse byte image: a persistent map from 32-bit addresses to bytes.
//!
//! The loader fills one image per program; each run then works on its own
//! cheap structural copy, so several runs from the same loaded program
//! never interfere.  The map itself comes from the `im` crate; this module
//! holds the trusted view of it, a handful of wrappers whose contracts
//! speak of the map's contents as a `Map<u32, u8>`.

use vstd::prelude::*;

verus! {

#[verifier::external_type_specification]
#[verifier::external_body]
#[verifier::reject_recursive_types(K)]
#[verifier::reject_recursive_types(V)]
#[verifier::reject_recursive_types(S)]
pub struct ExImHashMap<K, V, S>(im::hashmap::HashMap<K, V, S>);

/// The key/value pairs that a byte-image map holds.
pub uninterp spec fn map_of(m: im::hashmap::HashMap<u32, u8>) -> Map<u32, u8>;

/// The contents of a map that holds nothing.
pub open spec fn empty_image() -> Map<u32, u8> {
    Map::empty()
}

/// Relies on im::hashmap::HashMap::new: the fresh map holds nothing.
#[verifier::external_body]
pub(crate) fn img_new() -> (r: im::hashmap::HashMap<u32, u8>)
    ensures
        map_of(r) == empty_image(),
{
    im::hashmap::HashMap::new()
}

/// Relies on im::hashmap::HashMap::insert: the mapping `k -> v` is added,
/// overwriting any previous value for `k`, and nothing else changes.
#[verifier::external_body]
pub(crate) fn img_insert(m: &mut im::hashmap::HashMap<u32, u8>, k: u32, v: u8)
    ensures
        map_of(*final(m)) == map_of(*old(m)).insert(k, v),
{
    m.insert(k, v);
}

/// Relies on im::hashmap::HashMap::get: the value mapped to `k`, if any.
#[verifier::external_body]
pub(crate) fn img_get(m: &im::hashmap::HashMap<u32, u8>, k: u32) -> (r: Option<u8>)
    ensures
        match r {
            Some(v) => map_of(*m).contains_key(k) && map_of(*m)[k] == v,
            None => !map_of(*m).contains_key(k),
        },
{
    m.get(&k).copied()
}

/// Relies on im::hashmap::HashMap::clone: an O(1) structural copy with
/// the same contents.
#[verifier::external_body]
pub(crate) fn img_clone(m: &im::hashmap::HashMap<u32, u8>) -> (r: im::hashmap::HashMap<u32, u8>)
    ensures
        map_of(r) == map_of(*m),
{
    m.clone()
}

/// Relies on im::hashmap::HashMap::eq: true exactly when the two maps
/// hold the same key/value pairs.
#[verifier::external_body]
pub(crate) fn img_eq(a: &im::hashmap::HashMap<u32, u8>, b: &im::hashmap::HashMap<u32, u8>) -> (r: bool)
    ensures
        r == (map_of(*a) =~= map_of(*b)),
{
    a == b
}

} // verus!
