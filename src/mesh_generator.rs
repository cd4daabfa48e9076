use vstd::prelude::*;
use ahash::{AHashMap, AHashSet};
use crate::chunk::{
    column_of, find_chunk_keys_array_by_shpere_y_0, lemma_view_keys_in_range, offsets_in_range, view_keys, ChunkKey,
    ClipSpheres, IVec3, NeighbourOffest,
};
use crate::chunk_map::{column_composite, column_ready, ChunkMap};
use crate::collections::{
    handle_table_get, handle_table_insert, handle_table_new, handle_table_remove, key_set_contains,
    key_set_insert, key_set_new, key_set_remove, stored_handles, stored_keys,
};
use crate::voxel::Voxel;

verus! {

/// Whether `k` is one of `keys`.
pub fn keys_contain(keys: &Vec<ChunkKey>, k: &ChunkKey) -> (r: bool)
    ensures
        r == keys@.contains(*k),
{
    let mut i: usize = 0;
    while i < keys.len()
        invariant
            i <= keys.len(),
            forall|j: int| 0 <= j < i ==> keys@[j] != *k,
        decreases keys.len() - i,
    {
        if keys[i] == *k {
            return true;
        }
        i += 1;
    }
    false
}

/// The meshes of the resident columns and the columns whose mesh task has
/// been dispatched. Handles and entities are the host's opaque ids.
pub struct MeshManager {
    pub mesh_storge: AHashMap<ChunkKey, u64>,
    pub entities: AHashMap<ChunkKey, u64>,
    pub water_entities: AHashMap<ChunkKey, u64>,
    pub fast_key: AHashSet<ChunkKey>,
}

/// A mesh task handed to the host: a column and a snapshot of its
/// composite volume.
pub struct MeshTask {
    pub chunk_key: ChunkKey,
    pub voxels: Vec<Voxel>,
}

impl MeshManager {
    /// Terrain mesh handle of each column.
    pub open spec fn meshes(&self) -> Map<ChunkKey, u64> {
        stored_handles(self.mesh_storge)
    }

    /// Terrain entity of each column.
    pub open spec fn terrain(&self) -> Map<ChunkKey, u64> {
        stored_handles(self.entities)
    }

    /// Water entity of each column.
    pub open spec fn water(&self) -> Map<ChunkKey, u64> {
        stored_handles(self.water_entities)
    }

    /// Columns whose mesh task has been dispatched.
    pub open spec fn scheduled(&self) -> Set<ChunkKey> {
        stored_keys(self.fast_key)
    }

    /// The scheduling set covers every column that has an entity, and a
    /// column has a mesh handle exactly when it has a terrain entity.
    pub open spec fn wf(&self) -> bool {
        &&& forall|k: ChunkKey| #[trigger] self.terrain().contains_key(k) ==> self.scheduled().contains(k)
        &&& forall|k: ChunkKey| #[trigger] self.water().contains_key(k) ==> self.scheduled().contains(k)
        &&& forall|k: ChunkKey| #[trigger] self.meshes().contains_key(k) <==> self.terrain().contains_key(k)
    }

    /// No meshes, nothing scheduled.
    pub fn new() -> (r: MeshManager)
        ensures
            r.meshes().is_empty(),
            r.terrain().is_empty(),
            r.water().is_empty(),
            r.scheduled().is_empty(),
            r.wf(),
    {
        MeshManager {
            mesh_storge: handle_table_new(),
            entities: handle_table_new(),
            water_entities: handle_table_new(),
            fast_key: key_set_new(),
        }
    }

    /// The terrain mesh handle of a column, if it has one.
    pub fn mesh_handle(&self, chunk_key: &ChunkKey) -> (r: Option<u64>)
        ensures
            r is Some <==> self.meshes().contains_key(*chunk_key),
            r is Some ==> r->Some_0 == self.meshes()[*chunk_key],
    {
        handle_table_get(&self.mesh_storge, chunk_key)
    }

    /// The water entity of a column, if it has one.
    pub fn water_entity(&self, chunk_key: &ChunkKey) -> (r: Option<u64>)
        ensures
            r is Some <==> self.water().contains_key(*chunk_key),
            r is Some ==> r->Some_0 == self.water()[*chunk_key],
    {
        handle_table_get(&self.water_entities, chunk_key)
    }
}

/// Whether column `k` gets a mesh task this tick: it has no terrain
/// entity, is not scheduled yet, and its neighbourhood is resident.
pub open spec fn dispatchable(m: Map<ChunkKey, Seq<Voxel>>, mm: MeshManager, k: ChunkKey) -> bool {
    &&& !mm.terrain().contains_key(k)
    &&& !mm.scheduled().contains(k)
    &&& column_ready(m, k)
}

/// Dispatch phase: for each column in view, in the order of the offsets,
/// that has no terrain entity, is not scheduled, and whose chunk and side
/// neighbours are resident in every layer, marks it scheduled and hands
/// back a snapshot of its composite volume. Columns whose data is missing
/// are skipped until a later tick.
pub fn gen_mesh_system(
    chunk_map: &ChunkMap,
    mesh_manager: &mut MeshManager,
    clip_spheres: &ClipSpheres,
    neighbour_offest: &NeighbourOffest,
) -> (r: Vec<MeshTask>)
    requires
        chunk_map.wf(),
        old(mesh_manager).wf(),
        offsets_in_range(neighbour_offest.0@),
    ensures
        final(mesh_manager).wf(),
        final(mesh_manager).meshes() == old(mesh_manager).meshes(),
        final(mesh_manager).terrain() == old(mesh_manager).terrain(),
        final(mesh_manager).water() == old(mesh_manager).water(),
        ({
            let view = view_keys(clip_spheres.new_sphere, neighbour_offest.0@);
            &&& forall|k: ChunkKey| #[trigger] final(mesh_manager).scheduled().contains(k) <==> (old(mesh_manager).scheduled().contains(k)
                || (view.contains(k) && dispatchable(chunk_map@, *old(mesh_manager), k)))
            &&& forall|t: int| 0 <= t < r.len() ==> view.contains(#[trigger] r[t].chunk_key) && dispatchable(chunk_map@, *old(mesh_manager), r[t].chunk_key)
            &&& forall|t: int| 0 <= t < r.len() ==> #[trigger] r[t].voxels@ == column_composite(chunk_map@, r[t].chunk_key)
            &&& forall|k: ChunkKey| view.contains(k) && dispatchable(chunk_map@, *old(mesh_manager), k) ==> exists|t: int| 0 <= t < r.len() && #[trigger] r[t].chunk_key == k
            &&& forall|a: int, b: int| 0 <= a < b < r.len() ==> #[trigger] r[a].chunk_key != #[trigger] r[b].chunk_key
        }),
{
    let ghost m = chunk_map@;
    let ghost mm = *mesh_manager;
    let keys = find_chunk_keys_array_by_shpere_y_0(clip_spheres.new_sphere, &neighbour_offest.0);
    let ghost view = view_keys(clip_spheres.new_sphere, neighbour_offest.0@);
    let mut tasks: Vec<MeshTask> = Vec::new();
    let mut i: usize = 0;
    while i < keys.len()
        invariant
            chunk_map.wf(),
            m == chunk_map@,
            keys@ == view,
            view == view_keys(clip_spheres.new_sphere, neighbour_offest.0@),
            offsets_in_range(neighbour_offest.0@),
            i <= keys.len(),
            mm.wf(),
            mesh_manager.wf(),
            mesh_manager.meshes() == mm.meshes(),
            mesh_manager.terrain() == mm.terrain(),
            mesh_manager.water() == mm.water(),
            forall|k: ChunkKey| #[trigger] mesh_manager.scheduled().contains(k) <==> (mm.scheduled().contains(k)
                || (exists|j: int| 0 <= j < i && keys@[j] == k) && !mm.terrain().contains_key(k) && column_ready(m, k)),
            forall|t: int| 0 <= t < tasks.len() ==> view.contains(#[trigger] tasks@[t].chunk_key) && dispatchable(m, mm, tasks@[t].chunk_key),
            forall|t: int| 0 <= t < tasks.len() ==> mesh_manager.scheduled().contains(#[trigger] tasks@[t].chunk_key),
            forall|t: int| 0 <= t < tasks.len() ==> #[trigger] tasks@[t].voxels@ == column_composite(m, tasks@[t].chunk_key),
            forall|j: int| 0 <= j < i && #[trigger] dispatchable(m, mm, keys@[j]) ==> exists|t: int| 0 <= t < tasks.len() && #[trigger] tasks@[t].chunk_key == keys@[j],
            forall|a: int, b: int| 0 <= a < b < tasks.len() ==> #[trigger] tasks@[a].chunk_key != #[trigger] tasks@[b].chunk_key,
        decreases keys.len() - i,
    {
        let key = keys[i];
        let ghost sched_before = mesh_manager.scheduled();
        proof {
            lemma_view_keys_in_range(clip_spheres.new_sphere, neighbour_offest.0@, i as int);
            assert(view.contains(key)) by {
                assert(view[i as int] == key);
            }
        }
        if handle_table_get(&mesh_manager.entities, &key).is_none() && !key_set_contains(&mesh_manager.fast_key, &key) {
            if chunk_map.column_ready(key) {
                key_set_insert(&mut mesh_manager.fast_key, key);
                let voxels = chunk_map.get_with_neighbor_full_y(key);
                let ghost before = tasks@;
                tasks.push(MeshTask { chunk_key: key, voxels });
                proof {
                    assert(forall|t: int| 0 <= t < before.len() ==> tasks@[t] == before[t]);
                    assert(tasks@[before.len() as int].chunk_key == key);
                    assert(dispatchable(m, mm, key));
                    assert forall|t: int| 0 <= t < tasks.len() implies view.contains(#[trigger] tasks@[t].chunk_key)
                        && dispatchable(m, mm, tasks@[t].chunk_key) by {
                        if t < before.len() {
                            assert(tasks@[t] == before[t]);
                        }
                    }
                }
            }
        }
        proof {
            assert(keys@[i as int] == key);
            assert forall|k: ChunkKey| #[trigger] mesh_manager.scheduled().contains(k) <==> (mm.scheduled().contains(k)
                || (exists|j: int| 0 <= j < i + 1 && keys@[j] == k) && !mm.terrain().contains_key(k) && column_ready(m, k)) by {
                if k == key {
                    assert(keys@[i as int] == k);
                } else {
                    if exists|j: int| 0 <= j < i + 1 && keys@[j] == k {
                        let j = choose|j: int| 0 <= j < i + 1 && keys@[j] == k;
                        assert(j < i);
                    }
                    assert(mesh_manager.scheduled().contains(k) == sched_before.contains(k));
                }
            }
        }
        i += 1;
    }
    proof {
        assert forall|k: ChunkKey| view.contains(k) && dispatchable(m, mm, k) implies exists|t: int| 0 <= t < tasks.len() && #[trigger] tasks@[t].chunk_key == k by {
            let j = choose|j: int| 0 <= j < view.len() && view[j] == k;
            assert(dispatchable(m, mm, keys@[j]));
        }
        assert forall|k: ChunkKey| #[trigger] mesh_manager.scheduled().contains(k) <==> (mm.scheduled().contains(k)
            || (view.contains(k) && dispatchable(m, mm, k))) by {
            if mesh_manager.scheduled().contains(k) && !mm.scheduled().contains(k) {
                let j = choose|j: int| 0 <= j < i && keys@[j] == k;
                assert(view[j] == k);
            }
            if view.contains(k) && dispatchable(m, mm, k) {
                let j = choose|j: int| 0 <= j < view.len() && view[j] == k;
                assert(keys@[j] == k);
            }
        }
    }
    tasks
}

/// Finished mesh tasks installed per tick at most.
pub const MAX_DRAIN_PER_TICK: usize = 3;

/// How many finished mesh tasks to take this tick: all of them, up to the
/// per-tick bound.
pub fn drain_count(pending: usize) -> (r: usize)
    ensures
        r == if pending < MAX_DRAIN_PER_TICK { pending } else { MAX_DRAIN_PER_TICK },
{
    if pending < MAX_DRAIN_PER_TICK {
        pending
    } else {
        MAX_DRAIN_PER_TICK
    }
}

/// Drain phase: whether a finished mesh task for `chunk_key` is installed.
/// It is discarded when the column already has a terrain entity, has left
/// the view, or was evicted from the scheduling set meanwhile.
pub fn accept_mesh_result(
    mesh_manager: &MeshManager,
    clip_spheres: &ClipSpheres,
    neighbour_offest: &NeighbourOffest,
    chunk_key: &ChunkKey,
) -> (r: bool)
    requires
        offsets_in_range(neighbour_offest.0@),
    ensures
        r == (!mesh_manager.terrain().contains_key(*chunk_key) && mesh_manager.scheduled().contains(*chunk_key)
            && view_keys(clip_spheres.new_sphere, neighbour_offest.0@).contains(*chunk_key)),
{
    if handle_table_get(&mesh_manager.entities, chunk_key).is_some() {
        return false;
    }
    if !key_set_contains(&mesh_manager.fast_key, chunk_key) {
        return false;
    }
    let keys = find_chunk_keys_array_by_shpere_y_0(clip_spheres.new_sphere, &neighbour_offest.0);
    keys_contain(&keys, chunk_key)
}

/// Records the entities that the host spawned for an accepted mesh task:
/// the terrain mesh handle and entity, and the water entity, each when
/// there was such a mesh.
pub fn record_mesh(
    mesh_manager: &mut MeshManager,
    chunk_key: ChunkKey,
    terrain: Option<(u64, u64)>,
    water: Option<u64>,
)
    requires
        old(mesh_manager).wf(),
        old(mesh_manager).scheduled().contains(chunk_key),
        !old(mesh_manager).terrain().contains_key(chunk_key),
    ensures
        final(mesh_manager).wf(),
        final(mesh_manager).scheduled() == old(mesh_manager).scheduled(),
        final(mesh_manager).meshes() == (match terrain {
            Some(t) => old(mesh_manager).meshes().insert(chunk_key, t.0),
            None => old(mesh_manager).meshes(),
        }),
        final(mesh_manager).terrain() == (match terrain {
            Some(t) => old(mesh_manager).terrain().insert(chunk_key, t.1),
            None => old(mesh_manager).terrain(),
        }),
        final(mesh_manager).water() == (match water {
            Some(w) => old(mesh_manager).water().insert(chunk_key, w),
            None => old(mesh_manager).water(),
        }),
{
    match terrain {
        Some((mesh, entity)) => {
            handle_table_insert(&mut mesh_manager.mesh_storge, chunk_key, mesh);
            handle_table_insert(&mut mesh_manager.entities, chunk_key, entity);
        },
        None => {},
    }
    match water {
        Some(w) => {
            handle_table_insert(&mut mesh_manager.water_entities, chunk_key, w);
        },
        None => {},
    }
    proof {
        assert forall|k: ChunkKey| #[trigger] mesh_manager.terrain().contains_key(k) implies mesh_manager.scheduled().contains(k) by {
            if k != chunk_key {
                assert(old(mesh_manager).terrain().contains_key(k));
            }
        }
        assert forall|k: ChunkKey| #[trigger] mesh_manager.water().contains_key(k) implies mesh_manager.scheduled().contains(k) by {
            if k != chunk_key {
                assert(old(mesh_manager).water().contains_key(k));
            }
        }
        assert forall|k: ChunkKey| #[trigger] mesh_manager.meshes().contains_key(k) <==> mesh_manager.terrain().contains_key(k) by {
            if k != chunk_key {
                assert(old(mesh_manager).meshes().contains_key(k) <==> old(mesh_manager).terrain().contains_key(k));
            }
        }
    }
}

/// The columns in view last tick but not this tick.
pub open spec fn evicted(clip_spheres: ClipSpheres, offsets: Seq<IVec3>) -> Set<ChunkKey> {
    Set::new(
        |k: ChunkKey|
            view_keys(clip_spheres.old_sphere, offsets).contains(k) && !view_keys(clip_spheres.new_sphere, offsets).contains(k),
    )
}

/// The terrain and water entities of the columns in `keys`.
pub open spec fn entities_of(mm: MeshManager, keys: Set<ChunkKey>) -> Set<u64> {
    Set::new(
        |x: u64|
            exists|k: ChunkKey|
                #[trigger] keys.contains(k) && ((mm.terrain().contains_key(k) && mm.terrain()[k] == x) || (
                mm.water().contains_key(k) && mm.water()[k] == x)),
    )
}

/// Eviction phase: every column that left the view loses its terrain mesh,
/// terrain entity, water entity and scheduling mark; the entities to
/// despawn come back. Every other column is untouched.
pub fn deleter_mesh_system(
    mesh_manager: &mut MeshManager,
    clip_spheres: &ClipSpheres,
    neighbour_offest: &NeighbourOffest,
) -> (r: Vec<u64>)
    requires
        old(mesh_manager).wf(),
        offsets_in_range(neighbour_offest.0@),
    ensures
        final(mesh_manager).wf(),
        ({
            let ev = evicted(*clip_spheres, neighbour_offest.0@);
            &&& final(mesh_manager).meshes() == old(mesh_manager).meshes().remove_keys(ev)
            &&& final(mesh_manager).terrain() == old(mesh_manager).terrain().remove_keys(ev)
            &&& final(mesh_manager).water() == old(mesh_manager).water().remove_keys(ev)
            &&& final(mesh_manager).scheduled() == old(mesh_manager).scheduled().difference(ev)
            &&& forall|k: ChunkKey| #[trigger] ev.contains(k) && old(mesh_manager).terrain().contains_key(k)
                ==> r@.contains(old(mesh_manager).terrain()[k])
            &&& forall|k: ChunkKey| #[trigger] ev.contains(k) && old(mesh_manager).water().contains_key(k)
                ==> r@.contains(old(mesh_manager).water()[k])
            &&& forall|e: int| 0 <= e < r.len() ==> entities_of(*old(mesh_manager), ev).contains(#[trigger] r[e])
        }),
{
    let ghost mm = *mesh_manager;
    let ghost ev = evicted(*clip_spheres, neighbour_offest.0@);
    let old_keys = find_chunk_keys_array_by_shpere_y_0(clip_spheres.old_sphere, &neighbour_offest.0);
    let new_keys = find_chunk_keys_array_by_shpere_y_0(clip_spheres.new_sphere, &neighbour_offest.0);
    let mut despawn: Vec<u64> = Vec::new();
    let ghost mut owners: Seq<ChunkKey> = Seq::empty();
    let mut i: usize = 0;
    while i < old_keys.len()
        invariant
            mm.wf(),
            old_keys@ == view_keys(clip_spheres.old_sphere, neighbour_offest.0@),
            new_keys@ == view_keys(clip_spheres.new_sphere, neighbour_offest.0@),
            ev == evicted(*clip_spheres, neighbour_offest.0@),
            i <= old_keys.len(),
            ({
                let done = Set::new(|k: ChunkKey| ev.contains(k) && exists|j: int| 0 <= j < i && old_keys@[j] == k);
                &&& mesh_manager.meshes() == mm.meshes().remove_keys(done)
                &&& mesh_manager.terrain() == mm.terrain().remove_keys(done)
                &&& mesh_manager.water() == mm.water().remove_keys(done)
                &&& mesh_manager.scheduled() == mm.scheduled().difference(done)
                &&& forall|k: ChunkKey| #[trigger] done.contains(k) && mm.terrain().contains_key(k) ==> despawn@.contains(mm.terrain()[k])
                &&& forall|k: ChunkKey| #[trigger] done.contains(k) && mm.water().contains_key(k) ==> despawn@.contains(mm.water()[k])
            }),
            owners.len() == despawn.len(),
            forall|e: int| 0 <= e < despawn.len() ==> ev.contains(#[trigger] owners[e]) && (
                (mm.terrain().contains_key(owners[e]) && mm.terrain()[owners[e]] == despawn@[e])
                || (mm.water().contains_key(owners[e]) && mm.water()[owners[e]] == despawn@[e])),
        decreases old_keys.len() - i,
    {
        let key = old_keys[i];
        let ghost done_before = Set::new(|k: ChunkKey| ev.contains(k) && exists|j: int| 0 <= j < i && old_keys@[j] == k);
        let ghost done_after = Set::new(|k: ChunkKey| ev.contains(k) && exists|j: int| 0 <= j < i + 1 && old_keys@[j] == k);
        let ghost despawn_before = despawn@;
        let ghost owners_before = owners;
        if !keys_contain(&new_keys, &key) {
            proof {
                assert(old_keys@[i as int] == key);
                assert(ev.contains(key));
                assert(done_after =~= done_before.insert(key)) by {
                    assert forall|k: ChunkKey| done_after.contains(k) implies done_before.contains(k) || k == key by {
                        if k != key {
                            let j = choose|j: int| 0 <= j < i + 1 && old_keys@[j] == k;
                            assert(j < i);
                        }
                    }
                }
            }
            let ghost tb = mesh_manager.terrain();
            let ghost wb = mesh_manager.water();
            handle_table_remove(&mut mesh_manager.mesh_storge, &key);
            let t = handle_table_remove(&mut mesh_manager.entities, &key);
            let w = handle_table_remove(&mut mesh_manager.water_entities, &key);
            key_set_remove(&mut mesh_manager.fast_key, &key);
            match t {
                Some(e) => {
                    despawn.push(e);
                    proof {
                        owners = owners.push(key);
                    }
                },
                None => {},
            }
            match w {
                Some(e) => {
                    despawn.push(e);
                    proof {
                        owners = owners.push(key);
                    }
                },
                None => {},
            }
            proof {
                assert(mesh_manager.meshes() =~= mm.meshes().remove_keys(done_after));
                assert(mesh_manager.terrain() =~= mm.terrain().remove_keys(done_after));
                assert(mesh_manager.water() =~= mm.water().remove_keys(done_after));
                assert(mesh_manager.scheduled() =~= mm.scheduled().difference(done_after));
                assert forall|e: int| 0 <= e < despawn_before.len() implies despawn@[e] == despawn_before[e] by {}
                assert forall|k: ChunkKey| #[trigger] done_after.contains(k) && mm.terrain().contains_key(k)
                    implies despawn@.contains(mm.terrain()[k]) by {
                    if k == key && !done_before.contains(k) {
                        assert(despawn@[despawn_before.len() as int] == mm.terrain()[k]);
                    } else {
                        assert(done_before.contains(k));
                        let e = choose|e: int| 0 <= e < despawn_before.len() && despawn_before[e] == mm.terrain()[k];
                        assert(despawn@[e] == mm.terrain()[k]);
                    }
                }
                assert forall|k: ChunkKey| #[trigger] done_after.contains(k) && mm.water().contains_key(k)
                    implies despawn@.contains(mm.water()[k]) by {
                    if k == key && !done_before.contains(k) {
                        assert(despawn@[despawn@.len() - 1] == mm.water()[k]);
                    } else {
                        assert(done_before.contains(k));
                        let e = choose|e: int| 0 <= e < despawn_before.len() && despawn_before[e] == mm.water()[k];
                        assert(despawn@[e] == mm.water()[k]);
                    }
                }
                assert forall|e: int| 0 <= e < despawn.len() implies ev.contains(#[trigger] owners[e]) && (
                    (mm.terrain().contains_key(owners[e]) && mm.terrain()[owners[e]] == despawn@[e])
                    || (mm.water().contains_key(owners[e]) && mm.water()[owners[e]] == despawn@[e])) by {
                    if e >= despawn_before.len() {
                        assert(owners[e] == key);
                        if t is Some && e == despawn_before.len() {
                            assert(tb.contains_key(key) && tb[key] == despawn@[e]);
                        } else {
                            assert(wb.contains_key(key) && wb[key] == despawn@[e]);
                        }
                    } else {
                        assert(despawn@[e] == despawn_before[e]);
                        assert(owners[e] == owners_before[e]);
                    }
                }
            }
        } else {
            proof {
                assert(old_keys@[i as int] == key);
                assert(!ev.contains(key));
                assert(done_after =~= done_before) by {
                    assert forall|k: ChunkKey| done_after.contains(k) implies done_before.contains(k) by {
                        let j = choose|j: int| 0 <= j < i + 1 && old_keys@[j] == k;
                        if j == i {
                            assert(k == key);
                        }
                    }
                }
            }
        }
        i += 1;
    }
    proof {
        let done = Set::new(|k: ChunkKey| ev.contains(k) && exists|j: int| 0 <= j < i && old_keys@[j] == k);
        assert(done =~= ev) by {
            assert forall|k: ChunkKey| ev.contains(k) implies done.contains(k) by {
                let j = choose|j: int| 0 <= j < old_keys@.len() && old_keys@[j] == k;
            }
        }
        assert(mesh_manager.meshes() == mm.meshes().remove_keys(ev));
        assert(mesh_manager.terrain() == mm.terrain().remove_keys(ev));
        assert(mesh_manager.water() == mm.water().remove_keys(ev));
        assert(mesh_manager.scheduled() == mm.scheduled().difference(ev));
        assert forall|e: int| 0 <= e < despawn.len() implies entities_of(mm, ev).contains(#[trigger] despawn@[e]) by {
            assert(ev.contains(owners[e]));
        }
        assert forall|k: ChunkKey| #[trigger] ev.contains(k) && mm.terrain().contains_key(k) implies despawn@.contains(mm.terrain()[k]) by {
            assert(done.contains(k));
        }
        assert forall|k: ChunkKey| #[trigger] ev.contains(k) && mm.water().contains_key(k) implies despawn@.contains(mm.water()[k]) by {
            assert(done.contains(k));
        }
    }
    despawn
}

/// When the view moves further than twice the offset reach along x or z,
/// the two views share no column: every column of the old view is evicted.
pub proof fn lemma_far_move_evicts_old_view(clip_spheres: ClipSpheres, offsets: Seq<IVec3>, d: int)
    requires
        offsets_in_range(offsets),
        forall|i: int| 0 <= i < offsets.len() ==> -d <= #[trigger] offsets[i].x <= d && -d <= offsets[i].z <= d,
        ({
            let a = column_of(clip_spheres.old_sphere.center);
            let b = column_of(clip_spheres.new_sphere.center);
            a.x - b.x > 2 * d || b.x - a.x > 2 * d || a.z - b.z > 2 * d || b.z - a.z > 2 * d
        }),
    ensures
        forall|k: ChunkKey|
            view_keys(clip_spheres.old_sphere, offsets).contains(k) ==> #[trigger] evicted(clip_spheres, offsets).contains(k),
{
    let old_view = view_keys(clip_spheres.old_sphere, offsets);
    let new_view = view_keys(clip_spheres.new_sphere, offsets);
    assert forall|k: ChunkKey| old_view.contains(k) implies #[trigger] evicted(clip_spheres, offsets).contains(k) by {
        let i = choose|i: int| 0 <= i < old_view.len() && old_view[i] == k;
        lemma_view_keys_in_range(clip_spheres.old_sphere, offsets, i);
        if new_view.contains(k) {
            let j = choose|j: int| 0 <= j < new_view.len() && new_view[j] == k;
            lemma_view_keys_in_range(clip_spheres.new_sphere, offsets, j);
            let a = column_of(clip_spheres.old_sphere.center);
            let b = column_of(clip_spheres.new_sphere.center);
            assert(-0x800_0001 <= a.x <= 0x800_0001 && -0x800_0001 <= a.z <= 0x800_0001);
            assert(-0x800_0001 <= b.x <= 0x800_0001 && -0x800_0001 <= b.z <= 0x800_0001);
            assert(-d <= offsets[i].x <= d && -d <= offsets[j].x <= d);
            assert(-d <= offsets[i].z <= d && -d <= offsets[j].z <= d);
            assert(a.x + offsets[i].x == b.x + offsets[j].x);
            assert(a.z + offsets[i].z == b.z + offsets[j].z);
        }
    }
}

} // verus!
