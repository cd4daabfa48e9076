use vstd::prelude::*;
use crate::chunk::{local_of, spec_chunk_of, vec3_to_chunk_key_any_xyz, chunk_index, ChunkKey, IVec3};
use crate::chunk::{lemma_delinearize, linearize};
use crate::chunk_map::{
    column_composite, column_inputs_agree, column_voxel, key_in_range, lemma_composite_depends_on_column_inputs,
    lemma_seam_agreement_x, lemma_seam_agreement_z, shifted, ChunkMap,
};
use crate::map_database::{chunk_bytes, encode_chunk};
use crate::mesh::{cell, covers, groups_exposed, quad_exposed, Quad, gen_mesh, gen_mesh_water, mesh_view, pick_water, terrain_mesh, water_mesh, water_volume, ColumnMesh};
use crate::mesh_generator::MeshManager;
use crate::voxel::{Voxel, EMPTY_ID, STONE_ID};
use crate::voxel_config::MaterailConfiguration;

verus! {

/// An edit of the voxel field.
#[derive(Debug, Clone, Copy)]
pub enum ChunkCommands {
    /// Set voxel `pos` of chunk `chunk_key` and rebuild its column.
    Change { chunk_key: ChunkKey, pos: [u32; 3], voxel_type: Voxel },
    /// Rebuild the column of `chunk_key`, whose apron changed.
    UpdateMesh { chunk_key: ChunkKey },
}

/// The column key of the column that holds chunk `k`.
pub open spec fn column_key(k: ChunkKey) -> ChunkKey {
    ChunkKey(IVec3 { x: k.0.x, y: 0, z: k.0.z })
}

/// `k` moved by `dx` along x and `dz` along z.
pub open spec fn moved(k: ChunkKey, dx: int, dz: int) -> ChunkKey {
    ChunkKey(IVec3 { x: (k.0.x + dx) as i32, y: k.0.y, z: (k.0.z + dz) as i32 })
}

/// The commands for setting world voxel `p` to `v`: change it, then refresh
/// each side neighbour whose apron holds it (-x, +x, -z, +z in that order).
pub open spec fn edit_commands(p: IVec3, v: Voxel) -> Seq<ChunkCommands> {
    let k = ChunkKey(spec_chunk_of(p));
    let l = local_of(p);
    seq![ChunkCommands::Change { chunk_key: k, pos: l, voxel_type: v }]
        + (if l[0] == 0 { seq![ChunkCommands::UpdateMesh { chunk_key: moved(k, -1, 0) }] } else { Seq::empty() })
        + (if l[0] == 15 { seq![ChunkCommands::UpdateMesh { chunk_key: moved(k, 1, 0) }] } else { Seq::empty() })
        + (if l[2] == 0 { seq![ChunkCommands::UpdateMesh { chunk_key: moved(k, 0, -1) }] } else { Seq::empty() })
        + (if l[2] == 15 { seq![ChunkCommands::UpdateMesh { chunk_key: moved(k, 0, 1) }] } else { Seq::empty() })
}

/// The commands for breaking world voxel `p`.
pub open spec fn break_commands(p: IVec3) -> Seq<ChunkCommands> {
    edit_commands(p, Voxel { id: EMPTY_ID })
}

/// The commands for placing a solid voxel at world voxel `p`.
pub open spec fn place_commands(p: IVec3) -> Seq<ChunkCommands> {
    edit_commands(p, Voxel { id: STONE_ID })
}

/// Appends the commands for setting world voxel `pos` to `voxel`.
fn push_edit_commands(tasks: &mut Vec<ChunkCommands>, pos: IVec3, voxel: Voxel)
    ensures
        final(tasks)@ == old(tasks)@ + edit_commands(pos, voxel),
{
    let ghost start = tasks@;
    let (chunk_key, xyz) = vec3_to_chunk_key_any_xyz(pos);
    proof {
        assert(-0x800_0001 <= chunk_key.0.x <= 0x800_0001);
        assert(-0x800_0001 <= chunk_key.0.z <= 0x800_0001);
    }
    tasks.push(ChunkCommands::Change { chunk_key, pos: xyz, voxel_type: voxel });
    if xyz[0] == 0 {
        tasks.push(ChunkCommands::UpdateMesh { chunk_key: ChunkKey(IVec3 { x: chunk_key.0.x - 1, y: chunk_key.0.y, z: chunk_key.0.z }) });
    }
    if xyz[0] == 15 {
        tasks.push(ChunkCommands::UpdateMesh { chunk_key: ChunkKey(IVec3 { x: chunk_key.0.x + 1, y: chunk_key.0.y, z: chunk_key.0.z }) });
    }
    if xyz[2] == 0 {
        tasks.push(ChunkCommands::UpdateMesh { chunk_key: ChunkKey(IVec3 { x: chunk_key.0.x, y: chunk_key.0.y, z: chunk_key.0.z - 1 }) });
    }
    if xyz[2] == 15 {
        tasks.push(ChunkCommands::UpdateMesh { chunk_key: ChunkKey(IVec3 { x: chunk_key.0.x, y: chunk_key.0.y, z: chunk_key.0.z + 1 }) });
    }
    assert(tasks@ =~= start + edit_commands(pos, voxel));
}

/// Turns the player's clicks into commands: on the left button a break of
/// the voxel under the cursor, then on the right button a placement of
/// stone in the voxel in front of it, each only when there is such a voxel.
/// Each edit is followed by a mesh refresh for every side neighbour whose
/// apron holds the edited voxel.
pub fn build_or_break(
    break_pressed: bool,
    place_pressed: bool,
    center: Option<IVec3>,
    out_center: Option<IVec3>,
) -> (r: Vec<ChunkCommands>)
    ensures
        r@ == (if break_pressed && center is Some { break_commands(center->Some_0) } else { Seq::empty() })
            + (if place_pressed && out_center is Some { place_commands(out_center->Some_0) } else { Seq::empty() }),
{
    let mut tasks: Vec<ChunkCommands> = Vec::new();
    if break_pressed {
        if let Some(pos) = center {
            push_edit_commands(&mut tasks, pos, Voxel::empty());
        }
    }
    if place_pressed {
        if let Some(pos) = out_center {
            push_edit_commands(&mut tasks, pos, Voxel::filled());
        }
    }
    assert(tasks@ =~= (if break_pressed && center is Some { break_commands(center->Some_0) } else { Seq::empty() })
        + (if place_pressed && out_center is Some { place_commands(out_center->Some_0) } else { Seq::empty() }));
    tasks
}

/// What applying a command asks of the host.
#[derive(Debug, Clone)]
pub enum CommandEffect {
    /// Nothing to do.
    Dropped,
    /// Rebuild the meshes and the collider of `column`.
    Rebuild { column: ChunkKey },
    /// Chunk `chunk_key` changed: store `stored` under it, then rebuild the
    /// meshes and the collider of `column`.
    Changed { column: ChunkKey, chunk_key: ChunkKey, stored: Vec<u8> },
}

/// Whether a change command can be applied: its position lies inside a
/// chunk and its chunk is resident.
pub open spec fn change_applies(m: Map<ChunkKey, Seq<Voxel>>, k: ChunkKey, pos: [u32; 3]) -> bool {
    pos[0] < 16 && pos[1] < 16 && pos[2] < 16 && m.contains_key(k)
}

/// The chunk store after a change command that applies.
pub open spec fn changed_map(m: Map<ChunkKey, Seq<Voxel>>, k: ChunkKey, pos: [u32; 3], v: Voxel) -> Map<ChunkKey, Seq<Voxel>> {
    m.insert(k, m[k].update(chunk_index(pos[0] as int, pos[1] as int, pos[2] as int), v))
}

/// Applies one command in the last phase of a tick. A change whose chunk
/// is resident and whose position is inside the chunk writes the voxel and
/// asks for the chunk to be stored and its column rebuilt; any other change
/// is dropped. A mesh update asks for its column to be rebuilt when the
/// column has a terrain mesh, and is dropped otherwise.
pub fn do_command_tasks(chunk_map: &mut ChunkMap, mesh_manager: &MeshManager, command: ChunkCommands) -> (r: CommandEffect)
    requires
        old(chunk_map).wf(),
    ensures
        final(chunk_map).wf(),
        match command {
            ChunkCommands::Change { chunk_key, pos, voxel_type } => if change_applies(old(chunk_map)@, chunk_key, pos) {
                &&& final(chunk_map)@ == changed_map(old(chunk_map)@, chunk_key, pos, voxel_type)
                &&& r matches CommandEffect::Changed { column, chunk_key: ck, stored }
                &&& column == column_key(chunk_key) && ck == chunk_key
                &&& stored@ == chunk_bytes(final(chunk_map)@[chunk_key])
            } else {
                &&& final(chunk_map)@ == old(chunk_map)@
                &&& r is Dropped
            },
            ChunkCommands::UpdateMesh { chunk_key } => {
                &&& final(chunk_map)@ == old(chunk_map)@
                &&& if mesh_manager.meshes().contains_key(column_key(chunk_key)) {
                    r == CommandEffect::Rebuild { column: column_key(chunk_key) }
                } else {
                    r is Dropped
                }
            },
        },
{
    match command {
        ChunkCommands::Change { chunk_key, pos, voxel_type } => {
            if pos[0] >= 16 || pos[1] >= 16 || pos[2] >= 16 {
                return CommandEffect::Dropped;
            }
            let updated = match chunk_map.get(chunk_key) {
                Some(voxels) => {
                    let mut v = voxels.clone();
                    assert(v@ == voxels@);
                    let index = crate::chunk_map::chunk_linear(pos[0], pos[1], pos[2]) as usize;
                    v.set(index, voxel_type);
                    v
                },
                None => {
                    return CommandEffect::Dropped;
                },
            };
            let stored = encode_chunk(&updated);
            chunk_map.write_chunk(chunk_key, updated);
            CommandEffect::Changed { column: ChunkKey(IVec3 { x: chunk_key.0.x, y: 0, z: chunk_key.0.z }), chunk_key, stored }
        },
        ChunkCommands::UpdateMesh { chunk_key } => {
            let column = ChunkKey(IVec3 { x: chunk_key.0.x, y: 0, z: chunk_key.0.z });
            if mesh_manager.mesh_handle(&column).is_some() {
                CommandEffect::Rebuild { column }
            } else {
                CommandEffect::Dropped
            }
        },
    }
}

/// The terrain and water meshes of a column, built from its composite
/// volume in the chunk store.
pub open spec fn column_meshes(m: Map<ChunkKey, Seq<Voxel>>, k: ChunkKey, cfg: MaterailConfiguration) -> (
    Option<(Seq<Seq<crate::mesh::Quad>>, Seq<Seq<u32>>)>,
    Option<(Seq<Seq<crate::mesh::Quad>>, Seq<Seq<u32>>)>,
) {
    (terrain_mesh(column_composite(m, k), cfg), water_mesh(water_volume(column_composite(m, k)), cfg))
}

/// Rebuilds the terrain and water meshes of a column from the chunk store.
pub fn update_mesh(chunk_map: &ChunkMap, chunk_key_y0: ChunkKey, material_config: &MaterailConfiguration) -> (r: (
    Option<ColumnMesh>,
    Option<ColumnMesh>,
))
    requires
        chunk_map.wf(),
        key_in_range(chunk_key_y0),
    ensures
        (mesh_view(r.0), mesh_view(r.1)) == column_meshes(chunk_map@, chunk_key_y0, *material_config),
{
    let volexs = chunk_map.get_with_neighbor_full_y(chunk_key_y0);
    let terrain = gen_mesh(&volexs, material_config);
    let water_voxels = pick_water(volexs);
    let water = gen_mesh_water(&water_voxels, material_config);
    (terrain, water)
}

/// What rebuilding an installed column asks of the host: the terrain mesh
/// asset to overwrite and its new contents, and the water entity with its
/// new water mesh.
pub struct RebuildPlan {
    pub mesh_handle: u64,
    pub terrain: Option<ColumnMesh>,
    pub water_entity: Option<u64>,
    pub water: Option<ColumnMesh>,
}

/// Plans the in-place rebuild of a column after an edit: nothing when the
/// column has no terrain mesh installed yet (its first build will see the
/// edit); else its mesh handle, its water entity if any, and both meshes
/// rebuilt from the chunk store.
pub fn plan_column_rebuild(
    chunk_map: &ChunkMap,
    mesh_manager: &MeshManager,
    column: ChunkKey,
    material_config: &MaterailConfiguration,
) -> (r: Option<RebuildPlan>)
    requires
        chunk_map.wf(),
        key_in_range(column),
    ensures
        r is Some <==> mesh_manager.meshes().contains_key(column),
        r is Some ==> {
            let p = r->Some_0;
            &&& p.mesh_handle == mesh_manager.meshes()[column]
            &&& (p.water_entity is Some <==> mesh_manager.water().contains_key(column))
            &&& (p.water_entity is Some ==> p.water_entity->Some_0 == mesh_manager.water()[column])
            &&& (mesh_view(p.terrain), mesh_view(p.water)) == column_meshes(chunk_map@, column, *material_config)
        },
{
    match mesh_manager.mesh_handle(&column) {
        Some(mesh_handle) => {
            let (terrain, water) = update_mesh(chunk_map, column, material_config);
            let water_entity = mesh_manager.water_entity(&column);
            Some(RebuildPlan { mesh_handle, terrain, water_entity, water })
        },
        None => None,
    }
}

/// Rebuilding a column gives the same meshes as long as the chunks that
/// its composite volume reads are unchanged; in particular a mesh update
/// issued when no voxel changed reproduces the installed meshes exactly.
pub proof fn lemma_update_mesh_idempotent(
    before: Map<ChunkKey, Seq<Voxel>>,
    after: Map<ChunkKey, Seq<Voxel>>,
    k: ChunkKey,
    cfg: MaterailConfiguration,
)
    requires
        column_inputs_agree(before, after, k),
    ensures
        column_meshes(before, k, cfg) == column_meshes(after, k, cfg),
{
    lemma_composite_depends_on_column_inputs(before, after, k);
}

/// Voxel `(x, y, z)` of a column's composite volume, read by position.
proof fn lemma_cell_of_composite(m: Map<ChunkKey, Seq<Voxel>>, k: ChunkKey, x: int, y: int, z: int)
    requires
        0 <= x < 18,
        0 <= y < 256,
        0 <= z < 18,
    ensures
        cell(column_composite(m, k), x, y, z) == column_voxel(m, k, x, y, z),
{
    lemma_delinearize(18, 256, 18, x, y, z);
    assert(0 <= linearize(18, 256, x, y, z) < 82944) by (nonlinear_arith)
        requires
            0 <= linearize(18, 256, x, y, z) < 18 * 256 * 18,
    ;
}

/// Two columns that share an x face emit no quad on it where both voxels
/// across the face are solid: no +x quad of the first column's mesh covers
/// its voxel at `x == 16`, and no -x quad of the second column's mesh
/// covers its voxel at `x == 1`. The quad groups are any that show only
/// exposed faces, as `gen_mesh` guarantees of its result.
pub proof fn lemma_shared_x_face_hidden(
    m: Map<ChunkKey, Seq<Voxel>>,
    k: ChunkKey,
    g1: Seq<Seq<Quad>>,
    g2: Seq<Seq<Quad>>,
    y: int,
    z: int,
)
    requires
        i32::MIN < k.0.x < i32::MAX - 1,
        groups_exposed(column_composite(m, k), g1),
        groups_exposed(column_composite(m, shifted(k, 1, 0)), g2),
        0 <= y < 256,
        1 <= z <= 16,
        column_voxel(m, k, 16, y, z).id != EMPTY_ID,
        column_voxel(m, shifted(k, 1, 0), 1, y, z).id != EMPTY_ID,
    ensures
        forall|j: int| 0 <= j < g1[3].len() ==> !covers(#[trigger] g1[3][j], 3, 16, y, z),
        forall|j: int| 0 <= j < g2[0].len() ==> !covers(#[trigger] g2[0][j], 0, 1, y, z),
{
    let k2 = shifted(k, 1, 0);
    lemma_seam_agreement_x(m, k, y, z);
    lemma_cell_of_composite(m, k, 17, y, z);
    lemma_cell_of_composite(m, k2, 0, y, z);
    assert forall|j: int| 0 <= j < g1[3].len() implies !covers(#[trigger] g1[3][j], 3, 16, y, z) by {
        if covers(g1[3][j], 3, 16, y, z) {
            assert(quad_exposed(column_composite(m, k), 3, g1[3][j]));
        }
    }
    assert forall|j: int| 0 <= j < g2[0].len() implies !covers(#[trigger] g2[0][j], 0, 1, y, z) by {
        if covers(g2[0][j], 0, 1, y, z) {
            assert(quad_exposed(column_composite(m, k2), 0, g2[0][j]));
        }
    }
}

/// Two columns that share a z face emit no quad on it where both voxels
/// across the face are solid.
pub proof fn lemma_shared_z_face_hidden(
    m: Map<ChunkKey, Seq<Voxel>>,
    k: ChunkKey,
    g1: Seq<Seq<Quad>>,
    g2: Seq<Seq<Quad>>,
    x: int,
    y: int,
)
    requires
        i32::MIN < k.0.z < i32::MAX - 1,
        groups_exposed(column_composite(m, k), g1),
        groups_exposed(column_composite(m, shifted(k, 0, 1)), g2),
        0 <= y < 256,
        1 <= x <= 16,
        column_voxel(m, k, x, y, 16).id != EMPTY_ID,
        column_voxel(m, shifted(k, 0, 1), x, y, 1).id != EMPTY_ID,
    ensures
        forall|j: int| 0 <= j < g1[5].len() ==> !covers(#[trigger] g1[5][j], 5, x, y, 16),
        forall|j: int| 0 <= j < g2[2].len() ==> !covers(#[trigger] g2[2][j], 2, x, y, 1),
{
    let k2 = shifted(k, 0, 1);
    lemma_seam_agreement_z(m, k, x, y);
    lemma_cell_of_composite(m, k, x, y, 17);
    lemma_cell_of_composite(m, k2, x, y, 0);
    assert forall|j: int| 0 <= j < g1[5].len() implies !covers(#[trigger] g1[5][j], 5, x, y, 16) by {
        if covers(g1[5][j], 5, x, y, 16) {
            assert(quad_exposed(column_composite(m, k), 5, g1[5][j]));
        }
    }
    assert forall|j: int| 0 <= j < g2[2].len() implies !covers(#[trigger] g2[2][j], 2, x, y, 1) by {
        if covers(g2[2][j], 2, x, y, 1) {
            assert(quad_exposed(column_composite(m, k2), 2, g2[2][j]));
        }
    }
}

} // verus!
