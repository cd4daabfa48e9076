use vstd::prelude::*;
use ahash::{AHashMap, AHashSet, RandomState};
use crate::chunk::ChunkKey;
use crate::voxel::Voxel;

verus! {

/// ahash's hasher builder, carried inside the maps below.
#[verifier::external_type_specification]
#[verifier::external_body]
pub struct ExRandomState(RandomState);

/// ahash's hash map.
#[verifier::external_type_specification]
#[verifier::external_body]
#[verifier::reject_recursive_types(K)]
#[verifier::reject_recursive_types(V)]
#[verifier::reject_recursive_types(S)]
pub struct ExAHashMap<K, V, S>(AHashMap<K, V, S>);

/// ahash's hash set.
#[verifier::external_type_specification]
#[verifier::external_body]
#[verifier::reject_recursive_types(T)]
#[verifier::reject_recursive_types(S)]
pub struct ExAHashSet<T, S>(AHashSet<T, S>);

/// What a chunk table holds: the voxels stored under each key.
pub uninterp spec fn stored_chunks(m: AHashMap<ChunkKey, Vec<Voxel>>) -> Map<ChunkKey, Seq<Voxel>>;

/// What a handle table holds: the handle stored under each key.
pub uninterp spec fn stored_handles(m: AHashMap<ChunkKey, u64>) -> Map<ChunkKey, u64>;

/// What a key set holds.
pub uninterp spec fn stored_keys(s: AHashSet<ChunkKey>) -> Set<ChunkKey>;

/// Relies on AHashMap::new: a new map is empty.
#[verifier::external_body]
pub(crate) fn chunk_table_new() -> (r: AHashMap<ChunkKey, Vec<Voxel>>)
    ensures
        stored_chunks(r).is_empty(),
{
    AHashMap::new()
}

/// Relies on AHashMap::get: the value stored under the key, if any.
#[verifier::external_body]
pub(crate) fn chunk_table_get<'a>(m: &'a AHashMap<ChunkKey, Vec<Voxel>>, k: &ChunkKey) -> (r: Option<&'a Vec<Voxel>>)
    ensures
        r is Some <==> stored_chunks(*m).contains_key(*k),
        r is Some ==> r->Some_0@ == stored_chunks(*m)[*k],
{
    m.get(k)
}

/// Relies on AHashMap::insert: the key now maps to the value, other keys
/// are untouched.
#[verifier::external_body]
pub(crate) fn chunk_table_insert(m: &mut AHashMap<ChunkKey, Vec<Voxel>>, k: ChunkKey, v: Vec<Voxel>)
    ensures
        stored_chunks(*final(m)) == stored_chunks(*old(m)).insert(k, v@),
{
    m.insert(k, v);
}

/// Relies on AHashMap::new: a new map is empty.
#[verifier::external_body]
pub(crate) fn handle_table_new() -> (r: AHashMap<ChunkKey, u64>)
    ensures
        stored_handles(r).is_empty(),
{
    AHashMap::new()
}

/// Relies on AHashMap::get: the value stored under the key, if any.
#[verifier::external_body]
pub(crate) fn handle_table_get(m: &AHashMap<ChunkKey, u64>, k: &ChunkKey) -> (r: Option<u64>)
    ensures
        r is Some <==> stored_handles(*m).contains_key(*k),
        r is Some ==> r->Some_0 == stored_handles(*m)[*k],
{
    m.get(k).copied()
}

/// Relies on AHashMap::insert: the key now maps to the value, other keys
/// are untouched, and the value it replaced comes back.
#[verifier::external_body]
pub(crate) fn handle_table_insert(m: &mut AHashMap<ChunkKey, u64>, k: ChunkKey, v: u64) -> (r: Option<u64>)
    ensures
        stored_handles(*final(m)) == stored_handles(*old(m)).insert(k, v),
        r is Some <==> stored_handles(*old(m)).contains_key(k),
        r is Some ==> r->Some_0 == stored_handles(*old(m))[k],
{
    m.insert(k, v)
}

/// Relies on AHashMap::remove: the key is gone, other keys are untouched,
/// and the value it held comes back.
#[verifier::external_body]
pub(crate) fn handle_table_remove(m: &mut AHashMap<ChunkKey, u64>, k: &ChunkKey) -> (r: Option<u64>)
    ensures
        stored_handles(*final(m)) == stored_handles(*old(m)).remove(*k),
        r is Some <==> stored_handles(*old(m)).contains_key(*k),
        r is Some ==> r->Some_0 == stored_handles(*old(m))[*k],
{
    m.remove(k)
}

/// Relies on AHashSet::new: a new set is empty.
#[verifier::external_body]
pub(crate) fn key_set_new() -> (r: AHashSet<ChunkKey>)
    ensures
        stored_keys(r).is_empty(),
{
    AHashSet::new()
}

/// Relies on HashSet::contains, reached through AHashSet: membership.
#[verifier::external_body]
pub(crate) fn key_set_contains(s: &AHashSet<ChunkKey>, k: &ChunkKey) -> (r: bool)
    ensures
        r == stored_keys(*s).contains(*k),
{
    s.contains(k)
}

/// Relies on HashSet::insert, reached through AHashSet: the key is now in
/// the set, nothing else changes.
#[verifier::external_body]
pub(crate) fn key_set_insert(s: &mut AHashSet<ChunkKey>, k: ChunkKey)
    ensures
        stored_keys(*final(s)) == stored_keys(*old(s)).insert(k),
{
    s.insert(k);
}

/// Relies on HashSet::remove, reached through AHashSet: the key is no
/// longer in the set, nothing else changes.
#[verifier::external_body]
pub(crate) fn key_set_remove(s: &mut AHashSet<ChunkKey>, k: &ChunkKey)
    ensures
        stored_keys(*final(s)) == stored_keys(*old(s)).remove(*k),
{
    s.remove(k);
}

} // verus!
