use vstd::prelude::*;
use ahash::AHashMap;
use crate::chunk::{find_chunk_keys_array_by_shpere_y_0, offsets_in_range, view_keys, ChunkKey, ClipSpheres, NeighbourOffest};
use crate::collections::{handle_table_get, handle_table_insert, handle_table_new, handle_table_remove, stored_handles};
use crate::mesh_generator::{evicted, keys_contain, MeshManager};

verus! {

/// The collider entity of each column.
pub struct ColliderManager {
    pub entities: AHashMap<ChunkKey, u64>,
}

/// A collider task handed to the host: a column and the handle of the
/// terrain mesh to triangulate.
#[derive(Debug, Clone, Copy, PartialEq, Eq, Structural)]
pub struct ColliderTask {
    pub chunk_key: ChunkKey,
    pub mesh_handle: u64,
}

impl ColliderManager {
    /// Collider entity of each column.
    pub open spec fn colliders(&self) -> Map<ChunkKey, u64> {
        stored_handles(self.entities)
    }

    /// No colliders.
    pub fn new() -> (r: ColliderManager)
        ensures
            r.colliders().is_empty(),
    {
        ColliderManager { entities: handle_table_new() }
    }
}

/// Whether column `k` needs a collider: it has a terrain mesh and no
/// collider.
pub open spec fn needs_collider(mm: MeshManager, cm: ColliderManager, k: ChunkKey) -> bool {
    mm.meshes().contains_key(k) && !cm.colliders().contains_key(k)
}

/// Whether some task in `tasks` is for column `k`.
fn tasks_contain(tasks: &Vec<ColliderTask>, k: &ChunkKey) -> (r: bool)
    ensures
        r == exists|t: int| 0 <= t < tasks.len() && #[trigger] tasks@[t].chunk_key == *k,
{
    let mut i: usize = 0;
    while i < tasks.len()
        invariant
            i <= tasks.len(),
            forall|t: int| 0 <= t < i ==> tasks@[t].chunk_key != *k,
        decreases tasks.len() - i,
    {
        if tasks[i].chunk_key == *k {
            return true;
        }
        i += 1;
    }
    false
}

/// Collider dispatch phase: one task for each column in view that has a
/// terrain mesh but no collider, each column once, carrying the column's
/// mesh handle.
pub fn update_collider(
    mesh_manager: &MeshManager,
    collider_manager: &ColliderManager,
    clip_spheres: &ClipSpheres,
    neighbour_offest: &NeighbourOffest,
) -> (r: Vec<ColliderTask>)
    requires
        offsets_in_range(neighbour_offest.0@),
    ensures
        ({
            let view = view_keys(clip_spheres.new_sphere, neighbour_offest.0@);
            &&& forall|t: int| 0 <= t < r.len() ==> view.contains(#[trigger] r[t].chunk_key)
                && needs_collider(*mesh_manager, *collider_manager, r[t].chunk_key)
                && r[t].mesh_handle == mesh_manager.meshes()[r[t].chunk_key]
            &&& forall|k: ChunkKey| view.contains(k) && needs_collider(*mesh_manager, *collider_manager, k)
                ==> exists|t: int| 0 <= t < r.len() && #[trigger] r[t].chunk_key == k
            &&& forall|a: int, b: int| 0 <= a < b < r.len() ==> #[trigger] r[a].chunk_key != #[trigger] r[b].chunk_key
        }),
{
    let keys = find_chunk_keys_array_by_shpere_y_0(clip_spheres.new_sphere, &neighbour_offest.0);
    let ghost view = keys@;
    let mut tasks: Vec<ColliderTask> = Vec::new();
    let mut i: usize = 0;
    while i < keys.len()
        invariant
            i <= keys.len(),
            view == keys@,
            forall|t: int| 0 <= t < tasks.len() ==> view.contains(#[trigger] tasks@[t].chunk_key)
                && needs_collider(*mesh_manager, *collider_manager, tasks@[t].chunk_key)
                && tasks@[t].mesh_handle == mesh_manager.meshes()[tasks@[t].chunk_key],
            forall|j: int| 0 <= j < i && #[trigger] needs_collider(*mesh_manager, *collider_manager, keys@[j])
                ==> exists|t: int| 0 <= t < tasks.len() && #[trigger] tasks@[t].chunk_key == keys@[j],
            forall|a: int, b: int| 0 <= a < b < tasks.len() ==> #[trigger] tasks@[a].chunk_key != #[trigger] tasks@[b].chunk_key,
        decreases keys.len() - i,
    {
        let key = keys[i];
        proof {
            assert(view[i as int] == key);
        }
        if handle_table_get(&collider_manager.entities, &key).is_none() && !tasks_contain(&tasks, &key) {
            match mesh_manager.mesh_handle(&key) {
                Some(h) => {
                    let ghost before = tasks@;
                    tasks.push(ColliderTask { chunk_key: key, mesh_handle: h });
                    proof {
                        assert(forall|t: int| 0 <= t < before.len() ==> tasks@[t] == before[t]);
                        assert(tasks@[before.len() as int].chunk_key == key);
                        assert forall|j: int| 0 <= j < i + 1 && #[trigger] needs_collider(*mesh_manager, *collider_manager, keys@[j])
                            implies exists|t: int| 0 <= t < tasks.len() && #[trigger] tasks@[t].chunk_key == keys@[j] by {
                            if j < i {
                                let t = choose|t: int| 0 <= t < before.len() && #[trigger] before[t].chunk_key == keys@[j];
                                assert(tasks@[t].chunk_key == keys@[j]);
                            } else {
                                assert(tasks@[before.len() as int].chunk_key == keys@[j]);
                            }
                        }
                    }
                },
                None => {},
            }
        }
        i += 1;
    }
    proof {
        assert forall|k: ChunkKey| view.contains(k) && needs_collider(*mesh_manager, *collider_manager, k)
            implies exists|t: int| 0 <= t < tasks.len() && #[trigger] tasks@[t].chunk_key == k by {
            let j = choose|j: int| 0 <= j < view.len() && view[j] == k;
            assert(needs_collider(*mesh_manager, *collider_manager, keys@[j]));
        }
    }
    tasks
}

/// Collider drain phase: records the collider entity that the host spawned
/// for a column, and hands back the entity it replaced, to be despawned.
pub fn spawn_collider(collider_manager: &mut ColliderManager, chunk_key: ChunkKey, entity: u64) -> (r: Option<u64>)
    ensures
        final(collider_manager).colliders() == old(collider_manager).colliders().insert(chunk_key, entity),
        r is Some <==> old(collider_manager).colliders().contains_key(chunk_key),
        r is Some ==> r->Some_0 == old(collider_manager).colliders()[chunk_key],
{
    handle_table_insert(&mut collider_manager.entities, chunk_key, entity)
}

/// The collider entities of the columns in `keys`.
pub open spec fn colliders_of(cm: ColliderManager, keys: Set<ChunkKey>) -> Set<u64> {
    Set::new(|x: u64| exists|k: ChunkKey| #[trigger] keys.contains(k) && cm.colliders().contains_key(k) && cm.colliders()[k] == x)
}

/// Collider eviction phase: every column that left the view loses its
/// collider; the entities to despawn come back. Every other column keeps
/// its collider.
pub fn despawn_collider(
    clip_spheres: &ClipSpheres,
    collider_manager: &mut ColliderManager,
    neighbour_offest: &NeighbourOffest,
) -> (r: Vec<u64>)
    requires
        offsets_in_range(neighbour_offest.0@),
    ensures
        ({
            let ev = evicted(*clip_spheres, neighbour_offest.0@);
            &&& final(collider_manager).colliders() == old(collider_manager).colliders().remove_keys(ev)
            &&& forall|k: ChunkKey| #[trigger] ev.contains(k) && old(collider_manager).colliders().contains_key(k)
                ==> r@.contains(old(collider_manager).colliders()[k])
            &&& forall|e: int| 0 <= e < r.len() ==> colliders_of(*old(collider_manager), ev).contains(#[trigger] r[e])
        }),
{
    let ghost cm = *collider_manager;
    let ghost ev = evicted(*clip_spheres, neighbour_offest.0@);
    let old_keys = find_chunk_keys_array_by_shpere_y_0(clip_spheres.old_sphere, &neighbour_offest.0);
    let new_keys = find_chunk_keys_array_by_shpere_y_0(clip_spheres.new_sphere, &neighbour_offest.0);
    let mut despawn: Vec<u64> = Vec::new();
    let ghost mut owners: Seq<ChunkKey> = Seq::empty();
    let mut i: usize = 0;
    while i < old_keys.len()
        invariant
            old_keys@ == view_keys(clip_spheres.old_sphere, neighbour_offest.0@),
            new_keys@ == view_keys(clip_spheres.new_sphere, neighbour_offest.0@),
            ev == evicted(*clip_spheres, neighbour_offest.0@),
            i <= old_keys.len(),
            ({
                let done = Set::new(|k: ChunkKey| ev.contains(k) && exists|j: int| 0 <= j < i && old_keys@[j] == k);
                &&& collider_manager.colliders() == cm.colliders().remove_keys(done)
                &&& forall|k: ChunkKey| #[trigger] done.contains(k) && cm.colliders().contains_key(k) ==> despawn@.contains(cm.colliders()[k])
            }),
            owners.len() == despawn.len(),
            forall|e: int| 0 <= e < despawn.len() ==> ev.contains(#[trigger] owners[e])
                && cm.colliders().contains_key(owners[e]) && cm.colliders()[owners[e]] == despawn@[e],
        decreases old_keys.len() - i,
    {
        let key = old_keys[i];
        let ghost done_before = Set::new(|k: ChunkKey| ev.contains(k) && exists|j: int| 0 <= j < i && old_keys@[j] == k);
        let ghost done_after = Set::new(|k: ChunkKey| ev.contains(k) && exists|j: int| 0 <= j < i + 1 && old_keys@[j] == k);
        let ghost despawn_before = despawn@;
        let ghost owners_before = owners;
        if !keys_contain(&new_keys, &key) {
            proof {
                assert(old_keys@[i as int] == key);
                assert(ev.contains(key));
                assert(done_after =~= done_before.insert(key)) by {
                    assert forall|k: ChunkKey| done_after.contains(k) implies done_before.contains(k) || k == key by {
                        if k != key {
                            let j = choose|j: int| 0 <= j < i + 1 && old_keys@[j] == k;
                            assert(j < i);
                        }
                    }
                }
            }
            let ghost cb = collider_manager.colliders();
            let c = handle_table_remove(&mut collider_manager.entities, &key);
            match c {
                Some(e) => {
                    despawn.push(e);
                    proof {
                        owners = owners.push(key);
                    }
                },
                None => {},
            }
            proof {
                assert(collider_manager.colliders() =~= cm.colliders().remove_keys(done_after));
                assert forall|e: int| 0 <= e < despawn_before.len() implies despawn@[e] == despawn_before[e] by {}
                assert forall|k: ChunkKey| #[trigger] done_after.contains(k) && cm.colliders().contains_key(k)
                    implies despawn@.contains(cm.colliders()[k]) by {
                    if k == key && !done_before.contains(k) {
                        assert(despawn@[despawn_before.len() as int] == cm.colliders()[k]);
                    } else {
                        assert(done_before.contains(k));
                        let e = choose|e: int| 0 <= e < despawn_before.len() && despawn_before[e] == cm.colliders()[k];
                        assert(despawn@[e] == cm.colliders()[k]);
                    }
                }
                assert forall|e: int| 0 <= e < despawn.len() implies ev.contains(#[trigger] owners[e])
                    && cm.colliders().contains_key(owners[e]) && cm.colliders()[owners[e]] == despawn@[e] by {
                    if e >= despawn_before.len() {
                        assert(owners[e] == key);
                        assert(cb.contains_key(key) && cb[key] == despawn@[e]);
                    } else {
                        assert(despawn@[e] == despawn_before[e]);
                        assert(owners[e] == owners_before[e]);
                    }
                }
            }
        } else {
            proof {
                assert(old_keys@[i as int] == key);
                assert(!ev.contains(key));
                assert(done_after =~= done_before) by {
                    assert forall|k: ChunkKey| done_after.contains(k) implies done_before.contains(k) by {
                        let j = choose|j: int| 0 <= j < i + 1 && old_keys@[j] == k;
                        if j == i {
                            assert(k == key);
                        }
                    }
                }
            }
        }
        i += 1;
    }
    proof {
        let done = Set::new(|k: ChunkKey| ev.contains(k) && exists|j: int| 0 <= j < i && old_keys@[j] == k);
        assert(done =~= ev) by {
            assert forall|k: ChunkKey| ev.contains(k) implies done.contains(k) by {
                let j = choose|j: int| 0 <= j < old_keys@.len() && old_keys@[j] == k;
            }
        }
        assert(collider_manager.colliders() == cm.colliders().remove_keys(ev));
        assert forall|e: int| 0 <= e < despawn.len() implies colliders_of(cm, ev).contains(#[trigger] despawn@[e]) by {
            assert(ev.contains(owners[e]));
        }
        assert forall|k: ChunkKey| #[trigger] ev.contains(k) && cm.colliders().contains_key(k) implies despawn@.contains(cm.colliders()[k]) by {
            assert(done.contains(k));
        }
    }
    despawn
}

} // verus!
