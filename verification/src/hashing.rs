//! The FNV-hashed maps and sets that the configuration tables and the
//! collision engine are built on.
//!
//! The contents of a map or set are its view, a `Map` or a `Set`. What the
//! functions of this module say about those contents is taken from the
//! documentation of `std::collections::HashMap` and `HashSet`; it is not
//! proved here.

use crate::entity::Entity;
use fnv::{FnvHashMap, FnvHashSet};
use vstd::prelude::*;

verus! {

/// `fnv::FnvHasher`, the hasher of the maps and sets of this module. Nothing
/// is said of it.
#[verifier::external_type_specification]
#[verifier::external_body]
pub struct ExFnvHasher(fnv::FnvHasher);

/// `core::hash::BuildHasherDefault`, which makes the hashers. Nothing is
/// said of it.
#[verifier::external_type_specification]
#[verifier::external_body]
#[verifier::reject_recursive_types(H)]
pub struct ExBuildHasherDefault<H>(core::hash::BuildHasherDefault<H>);

/// A table keyed by a wire code (of a plane, a mob or a team).
pub type CodeMap<V> = FnvHashMap<u16, V>;

/// What stands for a pair of entities in a set: slot and generation of the
/// first, then of the second.
pub type PairKey = (usize, u32, usize, u32);

/// A set of pairs of entities.
pub type PairSet = FnvHashSet<PairKey>;

/// The key that stands for the pair `(a, b)`.
pub open spec fn pair_key(a: Entity, b: Entity) -> PairKey {
    (a.id, a.generation, b.id, b.generation)
}

/// `FnvHashMap::default()`: a map with no entries.
#[verifier::external_body]
pub(crate) fn map_new<V>() -> (m: CodeMap<V>)
    ensures
        m@.dom() == Set::<u16>::empty(),
{
    FnvHashMap::default()
}

/// `HashMap::insert` on an FNV-hashed map: afterwards `key` maps to `value`
/// and every other key to what it mapped to before.
#[verifier::external_body]
pub(crate) fn map_insert<V>(m: &mut CodeMap<V>, key: u16, value: V)
    ensures
        final(m)@ == old(m)@.insert(key, value),
{
    m.insert(key, value);
}

/// `HashMap::get` on an FNV-hashed map: the value under `key`, or `None`
/// where the map has no such key.
#[verifier::external_body]
pub(crate) fn map_get<'a, V>(m: &'a CodeMap<V>, key: u16) -> (r: Option<&'a V>)
    ensures
        r == (if m@.contains_key(key) {
            Some(&m@[key])
        } else {
            None
        }),
{
    m.get(&key)
}

/// `FnvHashSet::default()`: a set with no elements.
#[verifier::external_body]
pub(crate) fn set_new() -> (s: PairSet)
    ensures
        s@ == Set::<PairKey>::empty(),
{
    FnvHashSet::default()
}

/// `HashSet::insert` on an FNV-hashed set: afterwards the set holds `key`
/// besides what it held; the result tells whether `key` was new.
#[verifier::external_body]
pub(crate) fn set_insert(s: &mut PairSet, key: PairKey) -> (fresh: bool)
    ensures
        final(s)@ == old(s)@.insert(key),
        fresh == !old(s)@.contains(key),
{
    s.insert(key)
}

} // verus!
