use std::collections::HashMap;

use voxel_terrain::chunk::{
    find_chunk_keys_array_by_shpere_y_0, find_chunk_keys_by_shpere_to_full_height, generate_offset_array_with_y_0,
    generate_offset_resoure, get_chunk_key_axis, get_chunk_key_i3_by_vec3, update_clip_shpere_system,
    vec3_to_chunk_key_any_xyz, ChunkKey, ClipSpheres, IVec3, Sphere3,
};
use voxel_terrain::chunk_command::{
    build_or_break, do_command_tasks, plan_column_rebuild, update_mesh, ChunkCommands, CommandEffect,
};
use voxel_terrain::chunk_map::{chunk_generate_system, chunk_linear, ChunkMap, COLUMN_VOLUME};
use voxel_terrain::collider_generator::{despawn_collider, spawn_collider, update_collider, ColliderManager};
use voxel_terrain::map_database::{decode_chunk, encode_chunk, stored_chunk_voxels, StoreRead};
use voxel_terrain::map_generator::{gen_chunk_data_from_fields, terrain_voxel, SurfaceLevel};
use voxel_terrain::mesh::{gen_mesh, gen_mesh_water, mesh_from_groups, pick_water, Quad};
use voxel_terrain::mesh_generator::{accept_mesh_result, drain_count, deleter_mesh_system, gen_mesh_system, record_mesh, MeshManager};
use voxel_terrain::voxel::{Voxel, VoxelMaterial, Water, GRASS_ID, SNOW_ID, SOIL_ID, STONE_ID, WATER_ID};
use voxel_terrain::voxel_config::{MaterailConfiguration, VoxelConfig, VoxelTypeConfig};
use voxel_terrain::VIEW_RADIUS;

fn key(x: i32, y: i32, z: i32) -> ChunkKey {
    ChunkKey(IVec3::new(x, y, z))
}

fn solid_chunk(id: u8) -> Vec<Voxel> {
    vec![Voxel { id }; 4096]
}

fn sphere_at(x: i32, y: i32, z: i32) -> Sphere3 {
    Sphere3 { center: IVec3::new(x, y, z), radius: VIEW_RADIUS }
}

/// Fills every layer of the columns with x in `xs` and z in `zs` with stone.
fn solid_area(xs: std::ops::RangeInclusive<i32>, zs: std::ops::RangeInclusive<i32>) -> ChunkMap {
    let mut map = ChunkMap::new();
    for x in xs {
        for z in zs.clone() {
            for y in -7..=8 {
                map.write_chunk(key(x, y, z), solid_chunk(STONE_ID));
            }
        }
    }
    map
}

fn quad_count(mesh: &voxel_terrain::mesh::ColumnMesh) -> usize {
    mesh.quads.iter().map(|g| g.len()).sum()
}

#[test]
fn test_chunk_key_axis() {
    let res = get_chunk_key_axis(24);
    assert_eq!(res, 2);

    let res2 = get_chunk_key_i3_by_vec3(IVec3::new(2, 24, 0));
    assert_eq!(res2, IVec3::new(0, 2, 0));
}

#[test]
fn test_chunk_key() {
    let (key, xyz) = vec3_to_chunk_key_any_xyz(IVec3::new(2, 24, 0));
    assert_eq!(key, ChunkKey(IVec3::new(0, 2, 0)));
    assert_eq!(xyz, [10, 0, 8]);
}

#[test]
fn chunk_axis_boundaries() {
    assert_eq!(get_chunk_key_axis(0), 0);
    assert_eq!(get_chunk_key_axis(7), 0);
    assert_eq!(get_chunk_key_axis(8), 1);
    assert_eq!(get_chunk_key_axis(23), 1);
    assert_eq!(get_chunk_key_axis(-8), 0);
    assert_eq!(get_chunk_key_axis(-9), -1);
    assert_eq!(get_chunk_key_axis(-24), -1);
    assert_eq!(get_chunk_key_axis(-25), -2);
    assert_eq!(get_chunk_key_axis(i32::MAX), 134217728);
    assert_eq!(get_chunk_key_axis(i32::MIN), -134217728);
}

#[test]
fn coordinate_round_trip_on_values() {
    let k = IVec3::new(-3, 2, 5);
    for i in [0u32, 1, 15, 16, 255, 256, 4095, 2021] {
        let (x, y, z) = (i % 16, (i / 16) % 16, i / 256);
        let p = IVec3::new(16 * k.x - 8 + x as i32, 16 * k.y - 8 + y as i32, 16 * k.z - 8 + z as i32);
        let (ck, local) = vec3_to_chunk_key_any_xyz(p);
        assert_eq!(ck, ChunkKey(k));
        assert_eq!(chunk_linear(local[0], local[1], local[2]), i);
    }
}

#[test]
fn offset_table_cold_start() {
    let offsets = generate_offset_array_with_y_0(8);
    assert_eq!(offsets.len(), 289);
    assert_eq!(offsets[0], IVec3::new(-8, 0, -8));
    assert_eq!(offsets[1], IVec3::new(-8, 0, -7));
    assert_eq!(offsets[17], IVec3::new(-7, 0, -8));
    assert_eq!(offsets[288], IVec3::new(8, 0, 8));
    let table = generate_offset_resoure(VIEW_RADIUS);
    assert_eq!(table.0.len(), 290);
    assert_eq!(table.0[289], IVec3::new(0, 0, 0));
    let keys = find_chunk_keys_array_by_shpere_y_0(sphere_at(0, 50, 0), &table.0);
    let mut distinct = keys.clone();
    distinct.sort_by_key(|k| (k.0.x, k.0.y, k.0.z));
    distinct.dedup();
    assert_eq!(distinct.len(), 289);
    assert!(keys.iter().all(|k| k.0.y == 0));
    assert!(generate_offset_array_with_y_0(-1).is_empty());
    assert_eq!(generate_offset_array_with_y_0(0), vec![IVec3::new(0, 0, 0)]);
}

#[test]
fn view_keys_follow_the_sphere() {
    let offsets = vec![IVec3::new(0, 0, 0), IVec3::new(1, 0, -1)];
    let keys = find_chunk_keys_array_by_shpere_y_0(sphere_at(40, 50, -40), &offsets);
    assert_eq!(keys, vec![key(3, 0, -2), key(4, 0, -3)]);
    let full = find_chunk_keys_by_shpere_to_full_height(sphere_at(40, 50, -40), &offsets);
    assert_eq!(full.len(), 32);
    assert_eq!(full[0], key(3, -7, -2));
    assert_eq!(full[15], key(3, 8, -2));
    assert_eq!(full[16], key(4, -7, -3));
}

#[test]
fn clip_spheres_follow_the_observer() {
    let start = sphere_at(0, 0, 0);
    let mut spheres = ClipSpheres { old_sphere: start, new_sphere: start };
    update_clip_shpere_system(&mut spheres, Some(IVec3::new(100, 50, 3)));
    assert_eq!(spheres.old_sphere, start);
    assert_eq!(spheres.new_sphere, sphere_at(100, 50, 3));
    let before = spheres;
    update_clip_shpere_system(&mut spheres, None);
    assert_eq!(spheres, before);
}

#[test]
fn chunk_key_bytes_are_stable() {
    let a = key(1, 2, 3).as_u8_array();
    assert_eq!(a, key(1, 2, 3).as_u8_array());
    assert_ne!(a, key(3, 2, 1).as_u8_array());
    assert_ne!(a, [0u8; 8]);
}

#[test]
fn chunk_map_read_write() {
    let mut map = ChunkMap::new();
    assert!(map.get(key(0, 0, 0)).is_none());
    map.write_chunk(key(0, 0, 0), solid_chunk(GRASS_ID));
    assert_eq!(map.get(key(0, 0, 0)).unwrap()[17].id, GRASS_ID);
    map.write_chunk(key(0, 0, 0), solid_chunk(SOIL_ID));
    assert_eq!(map.get(key(0, 0, 0)).unwrap()[17].id, SOIL_ID);
    assert_eq!(ChunkMap::get_by_index(None, 5).id, 0);
    assert_eq!(ChunkMap::get_by_index(map.get(key(0, 0, 0)), 5).id, SOIL_ID);
}

#[test]
fn composite_apron_matches_neighbours() {
    let mut map = ChunkMap::new();
    let mut centre = solid_chunk(STONE_ID);
    centre[0].id = GRASS_ID;
    map.write_chunk(key(0, 0, 0), centre);
    let mut west = vec![Voxel { id: 0 }; 4096];
    for y in 0..16u32 {
        for z in 0..16u32 {
            west[chunk_linear(15, y, z) as usize] = Voxel { id: SOIL_ID };
        }
    }
    map.write_chunk(key(-1, 0, 0), west);
    let c = map.get_with_neighbor_full_y(key(0, 0, 0));
    assert_eq!(c.len(), COLUMN_VOLUME);
    let at = |x: usize, y: usize, z: usize| c[x + 18 * (y + 256 * z)].id;
    // layer y = 0 is the eighth layer from the bottom
    let base = 16 * 7;
    assert_eq!(at(1, base, 1), GRASS_ID);
    assert_eq!(at(2, base, 1), STONE_ID);
    assert_eq!(at(0, base + 3, 5), SOIL_ID);
    assert_eq!(at(0, base, 0), 0);
    assert_eq!(at(17, base, 5), 0);
    assert_eq!(at(5, base + 16, 5), 0);
    let layer = map.get_layer_neighbors(key(0, 0, 0));
    assert_eq!(layer.len(), 5184);
    assert_eq!(layer[0].id, 0);
    assert_eq!(layer[1 + 18 * 16].id, GRASS_ID);
}

#[test]
fn column_readiness_and_missing_chunks() {
    let map = solid_area(-1..=1, -1..=1);
    assert!(map.column_ready(key(0, 0, 0)));
    assert!(!map.column_ready(key(1, 0, 0)));
    let spheres = ClipSpheres { old_sphere: sphere_at(0, 50, 0), new_sphere: sphere_at(0, 50, 0) };
    let table = voxel_terrain::chunk::NeighbourOffest(vec![IVec3::new(0, 0, 0), IVec3::new(2, 0, 0)]);
    let missing = chunk_generate_system(&map, &spheres, &table);
    assert_eq!(missing.len(), 16);
    assert_eq!(missing[0], key(2, -7, 0));
}

fn catalogue() -> MaterailConfiguration {
    let mut cfg = MaterailConfiguration::new();
    let mut normal = HashMap::new();
    normal.insert(1u8, VoxelConfig { index: 7, path: String::from("top.png") });
    cfg.voxels.insert(
        STONE_ID,
        VoxelTypeConfig {
            name: String::from("Stone"),
            type_ch_name: String::new(),
            default: VoxelConfig { index: 2, path: String::from("stone.png") },
            normal,
        },
    );
    cfg.voxels.insert(
        WATER_ID,
        VoxelTypeConfig {
            name: String::from("Water"),
            type_ch_name: String::new(),
            default: VoxelConfig { index: 5, path: String::from("water.png") },
            normal: HashMap::new(),
        },
    );
    cfg
}

#[test]
fn texture_lookup() {
    let cfg = catalogue();
    assert_eq!(cfg.find_volex_index(1, &STONE_ID), 7);
    assert_eq!(cfg.find_volex_index(0, &STONE_ID), 2);
    assert_eq!(cfg.find_volex_index(0, &GRASS_ID), 0);
    let loaded = cfg.load_all_voxels();
    assert_eq!(loaded.voxels.len(), 4);
    assert_eq!(loaded.find_volex_index(1, &STONE_ID), 7);
    assert_eq!(loaded.find_volex_index(3, &GRASS_ID), 0);
}

#[test]
fn single_voxel_mesh() {
    let mut v = vec![Voxel { id: 0 }; COLUMN_VOLUME];
    v[5 + 18 * (100 + 256 * 5)] = Voxel { id: STONE_ID };
    let cfg = catalogue();
    let mesh = gen_mesh(&v, &cfg).unwrap();
    assert_eq!(mesh.quads.len(), 6);
    assert_eq!(quad_count(&mesh), 6);
    for (f, group) in mesh.quads.iter().enumerate() {
        assert_eq!(group.len(), 1);
        assert_eq!(group[0].width, 1);
        assert_eq!(group[0].height, 1);
        let tex = if f == 1 { 7 } else { 2 };
        assert_eq!(mesh.data[f], vec![((f as u32) << 8) | tex]);
    }
    assert!(gen_mesh(&vec![Voxel { id: 0 }; COLUMN_VOLUME], &cfg).is_none());
}

#[test]
fn water_mesh_uses_water_texture() {
    let mut v = vec![Voxel { id: 0 }; COLUMN_VOLUME];
    v[5 + 18 * (100 + 256 * 5)] = Voxel { id: WATER_ID };
    v[6 + 18 * (100 + 256 * 5)] = Voxel { id: STONE_ID };
    let w = pick_water(v);
    assert_eq!(w[5 + 18 * (100 + 256 * 5)].id, STONE_ID);
    assert_eq!(w[6 + 18 * (100 + 256 * 5)].id, 0);
    let cfg = catalogue();
    let mesh = gen_mesh_water(&w, &cfg).unwrap();
    assert_eq!(quad_count(&mesh), 6);
    for (f, d) in mesh.data.iter().enumerate() {
        assert_eq!(d, &vec![((f as u32) << 8) | 5]);
    }
    assert_eq!(Water::id(), WATER_ID);
}

#[test]
fn chunk_codec_round_trip() {
    let mut v = solid_chunk(GRASS_ID);
    v[3].id = 0;
    let bytes = encode_chunk(&v);
    assert_eq!(bytes.len(), 8 + 4096);
    assert_eq!(&bytes[0..8], &[0, 16, 0, 0, 0, 0, 0, 0]);
    assert_eq!(bytes[8], GRASS_ID);
    assert_eq!(bytes[11], 0);
    assert_eq!(decode_chunk(&bytes), Some(v));
    assert_eq!(decode_chunk(&bytes[..100].to_vec()), None);
    assert_eq!(decode_chunk(&encode_chunk(&vec![Voxel { id: 1 }; 10])), None);
}

#[test]
fn procedural_fallback_when_store_is_empty() {
    assert_eq!(stored_chunk_voxels(&StoreRead::Missing), None);
    let empty = stored_chunk_voxels(&StoreRead::Failed).unwrap();
    assert_eq!(empty.len(), 4096);
    assert!(empty.iter().all(|v| v.id == 0));
    let garbage = stored_chunk_voxels(&StoreRead::Found(vec![1, 2, 3])).unwrap();
    assert!(garbage.iter().all(|v| v.id == 0));
    let stored = stored_chunk_voxels(&StoreRead::Found(encode_chunk(&solid_chunk(SNOW_ID)))).unwrap();
    assert!(stored.iter().all(|v| v.id == SNOW_ID));
}

#[test]
fn material_rules() {
    let s = SurfaceLevel { floor: 20, integral: false };
    assert_eq!(terrain_voxel(21, s).id, 0);
    assert_eq!(terrain_voxel(20, s).id, GRASS_ID);
    assert_eq!(terrain_voxel(19, s).id, SOIL_ID);
    assert_eq!(terrain_voxel(16, s).id, SOIL_ID);
    assert_eq!(terrain_voxel(15, s).id, STONE_ID);
    let whole = SurfaceLevel { floor: 20, integral: true };
    assert_eq!(terrain_voxel(19, whole).id, GRASS_ID);
    let high = SurfaceLevel { floor: 60, integral: false };
    assert_eq!(terrain_voxel(45, high).id, SNOW_ID);
    assert_eq!(terrain_voxel(36, high).id, STONE_ID);
}

#[test]
fn generation_is_deterministic() {
    let surface = vec![SurfaceLevel { floor: 3, integral: false }; 256];
    let mut caves = vec![false; 4096];
    caves[5] = true;
    let a = gen_chunk_data_from_fields(key(0, 0, 0), &surface, &caves);
    let b = gen_chunk_data_from_fields(key(0, 0, 0), &surface, &caves);
    assert_eq!(a, b);
    // voxel 5 is at y = 0, world height 0: carved out
    assert_eq!(a[5].id, 0);
    // voxel 6 is at world height 0: soil, three below the surface
    assert_eq!(a[6].id, SOIL_ID);
    // y = 3 is the surface voxel
    assert_eq!(a[3 * 16].id, GRASS_ID);
    assert_eq!(a[4 * 16].id, 0);
    let low = gen_chunk_data_from_fields(key(0, -1, 0), &surface, &caves);
    assert_eq!(low[6].id, STONE_ID);
}

#[test]
fn break_a_surface_block() {
    let cmds = build_or_break(true, false, Some(IVec3::new(5, 32, 5)), None);
    assert_eq!(cmds.len(), 1);
    match cmds[0] {
        ChunkCommands::Change { chunk_key, pos, voxel_type } => {
            assert_eq!(chunk_key, key(0, 2, 0));
            assert_eq!(pos, [13, 8, 13]);
            assert_eq!(voxel_type.id, 0);
        }
        _ => panic!("expected a change"),
    }
    let mut map = ChunkMap::new();
    map.write_chunk(key(0, 2, 0), solid_chunk(GRASS_ID));
    let manager = MeshManager::new();
    let effect = do_command_tasks(&mut map, &manager, cmds[0]);
    let index = chunk_linear(13, 8, 13) as usize;
    assert_eq!(map.get(key(0, 2, 0)).unwrap()[index].id, 0);
    match effect {
        CommandEffect::Changed { column, chunk_key, stored } => {
            assert_eq!(column, key(0, 0, 0));
            assert_eq!(chunk_key, key(0, 2, 0));
            assert_eq!(decode_chunk(&stored).unwrap()[index].id, 0);
        }
        _ => panic!("expected a change"),
    }
    let missing = do_command_tasks(
        &mut map,
        &manager,
        ChunkCommands::Change { chunk_key: key(9, 9, 9), pos: [0, 0, 0], voxel_type: Voxel { id: 0 } },
    );
    assert!(matches!(missing, CommandEffect::Dropped));
    let outside = do_command_tasks(
        &mut map,
        &manager,
        ChunkCommands::Change { chunk_key: key(0, 2, 0), pos: [16, 0, 0], voxel_type: Voxel { id: 0 } },
    );
    assert!(matches!(outside, CommandEffect::Dropped));
}

#[test]
fn break_at_the_x_boundary() {
    let cmds = build_or_break(true, false, Some(IVec3::new(7, 32, 0)), None);
    assert_eq!(cmds.len(), 2);
    match cmds[0] {
        ChunkCommands::Change { chunk_key, pos, .. } => {
            assert_eq!(chunk_key, key(0, 2, 0));
            assert_eq!(pos, [15, 8, 8]);
        }
        _ => panic!("expected a change"),
    }
    match cmds[1] {
        ChunkCommands::UpdateMesh { chunk_key } => assert_eq!(chunk_key, key(1, 2, 0)),
        _ => panic!("expected a mesh update"),
    }

    let mut map = solid_area(-1..=2, -1..=1);
    let cfg = catalogue();
    let (before, _) = update_mesh(&map, key(1, 0, 0), &cfg);
    assert!(before.is_none());

    let mut manager = MeshManager::new();
    let mut sched = manager_with_scheduled(&mut manager, key(1, 0, 0));
    record_mesh(&mut sched, key(1, 0, 0), Some((10, 11)), None);
    do_command_tasks(&mut map, &sched, cmds[0]);
    let effect = do_command_tasks(&mut map, &sched, cmds[1]);
    assert!(matches!(effect, CommandEffect::Rebuild { column } if column == key(1, 0, 0)));
    let (after, water) = update_mesh(&map, key(1, 0, 0), &cfg);
    let after = after.unwrap();
    assert!(water.is_none());
    assert_eq!(quad_count(&after), 1);
    let (f, group) = after.quads.iter().enumerate().find(|(_, g)| !g.is_empty()).unwrap();
    assert_eq!(group[0].minimum, [1, 16 * 9 + 8, 9]);
    assert_eq!(after.data[f][0] >> 8, f as u32);
    let none = do_command_tasks(&mut map, &MeshManager::new(), cmds[1]);
    assert!(matches!(none, CommandEffect::Dropped));
}

fn manager_with_scheduled(manager: &mut MeshManager, k: ChunkKey) -> MeshManager {
    let map = solid_area(-3..=3, -3..=3);
    let spheres = ClipSpheres { old_sphere: sphere_at(0, 50, 0), new_sphere: sphere_at(0, 50, 0) };
    let table = voxel_terrain::chunk::NeighbourOffest(vec![IVec3::new(k.0.x, 0, k.0.z)]);
    let tasks = gen_mesh_system(&map, manager, &spheres, &table);
    assert_eq!(tasks.len(), 1);
    std::mem::replace(manager, MeshManager::new())
}

#[test]
fn place_a_block() {
    let cmds = build_or_break(false, true, Some(IVec3::new(0, 0, 0)), Some(IVec3::new(-9, 0, 0)));
    assert_eq!(cmds.len(), 2);
    match cmds[0] {
        ChunkCommands::Change { chunk_key, pos, voxel_type } => {
            assert_eq!(chunk_key, key(-1, 0, 0));
            assert_eq!(pos, [15, 8, 8]);
            assert_eq!(voxel_type.id, STONE_ID);
        }
        _ => panic!("expected a change"),
    }
    match cmds[1] {
        ChunkCommands::UpdateMesh { chunk_key } => assert_eq!(chunk_key, key(0, 0, 0)),
        _ => panic!("expected a mesh update"),
    }
    let edge = build_or_break(false, true, None, Some(IVec3::new(-8, 0, 7)));
    assert_eq!(edge.len(), 3);
    match (edge[1], edge[2]) {
        (ChunkCommands::UpdateMesh { chunk_key: a }, ChunkCommands::UpdateMesh { chunk_key: b }) => {
            assert_eq!(a, key(-1, 0, 0));
            assert_eq!(b, key(0, 0, 1));
        }
        _ => panic!("expected two mesh updates"),
    }
    let inner = build_or_break(false, true, None, Some(IVec3::new(0, 0, 0)));
    assert_eq!(inner.len(), 1);
    assert!(build_or_break(false, false, Some(IVec3::new(0, 0, 0)), None).is_empty());
    assert!(build_or_break(true, true, None, None).is_empty());
    let corner = build_or_break(true, false, Some(IVec3::new(-8, 0, -8)), None);
    assert_eq!(corner.len(), 3);
}

#[test]
fn dispatch_and_drain() {
    let map = solid_area(-1..=1, -1..=1);
    let spheres = ClipSpheres { old_sphere: sphere_at(0, 50, 0), new_sphere: sphere_at(0, 50, 0) };
    let table = voxel_terrain::chunk::NeighbourOffest(vec![
        IVec3::new(0, 0, 0),
        IVec3::new(1, 0, 0),
        IVec3::new(0, 0, 0),
    ]);
    let mut manager = MeshManager::new();
    let tasks = gen_mesh_system(&map, &mut manager, &spheres, &table);
    assert_eq!(tasks.len(), 1);
    assert_eq!(tasks[0].chunk_key, key(0, 0, 0));
    assert_eq!(tasks[0].voxels, map.get_with_neighbor_full_y(key(0, 0, 0)));
    assert!(gen_mesh_system(&map, &mut manager, &spheres, &table).is_empty());
    assert!(accept_mesh_result(&manager, &spheres, &table, &key(0, 0, 0)));
    assert!(!accept_mesh_result(&manager, &spheres, &table, &key(1, 0, 0)));
    record_mesh(&mut manager, key(0, 0, 0), Some((1, 2)), Some(3));
    assert!(!accept_mesh_result(&manager, &spheres, &table, &key(0, 0, 0)));
    assert_eq!(manager.mesh_handle(&key(0, 0, 0)), Some(1));
    assert_eq!(manager.water_entity(&key(0, 0, 0)), Some(3));
}

#[test]
fn move_out_of_view() {
    let map = solid_area(-1..=1, -1..=1);
    let table = generate_offset_resoure(VIEW_RADIUS);
    let mut spheres = ClipSpheres { old_sphere: sphere_at(0, 50, 0), new_sphere: sphere_at(0, 50, 0) };
    let mut manager = MeshManager::new();
    let tasks = gen_mesh_system(&map, &mut manager, &spheres, &table);
    assert_eq!(tasks.len(), 1);
    record_mesh(&mut manager, key(0, 0, 0), Some((1, 2)), Some(3));
    let mut colliders = ColliderManager::new();
    let wanted = update_collider(&manager, &colliders, &spheres, &table);
    assert_eq!(wanted.len(), 1);
    assert_eq!(wanted[0].chunk_key, key(0, 0, 0));
    assert_eq!(wanted[0].mesh_handle, 1);
    assert_eq!(spawn_collider(&mut colliders, key(0, 0, 0), 4), None);
    assert_eq!(spawn_collider(&mut colliders, key(0, 0, 0), 5), Some(4));
    assert!(update_collider(&manager, &colliders, &spheres, &table).is_empty());

    assert!(deleter_mesh_system(&mut manager, &spheres, &table).is_empty());
    update_clip_shpere_system(&mut spheres, Some(IVec3::new(10000, 50, 10000)));
    let mut gone = deleter_mesh_system(&mut manager, &spheres, &table);
    gone.sort();
    assert_eq!(gone, vec![2, 3]);
    assert_eq!(manager.mesh_handle(&key(0, 0, 0)), None);
    assert_eq!(manager.water_entity(&key(0, 0, 0)), None);
    assert!(accept_mesh_result(&manager, &spheres, &table, &key(0, 0, 0)) == false);
    assert_eq!(despawn_collider(&spheres, &mut colliders, &table), vec![5]);
    let far = gen_mesh_system(&map, &mut manager, &spheres, &table);
    assert!(far.is_empty());
}

#[test]
fn restart_persistence() {
    let mut map = ChunkMap::new();
    map.write_chunk(key(0, 2, 0), solid_chunk(GRASS_ID));
    let cmds = build_or_break(true, false, Some(IVec3::new(5, 32, 5)), None);
    let stored = match do_command_tasks(&mut map, &MeshManager::new(), cmds[0]) {
        CommandEffect::Changed { stored, .. } => stored,
        _ => panic!("expected a change"),
    };
    // a fresh store after restart reads the edited chunk back
    let reloaded = stored_chunk_voxels(&StoreRead::Found(stored)).unwrap();
    assert_eq!(&reloaded, map.get(key(0, 2, 0)).unwrap());
    assert_eq!(reloaded[chunk_linear(13, 8, 13) as usize].id, 0);
    assert_eq!(reloaded[0].id, GRASS_ID);
}

#[test]
fn drain_budget() {
    assert_eq!(drain_count(0), 0);
    assert_eq!(drain_count(2), 2);
    assert_eq!(drain_count(3), 3);
    assert_eq!(drain_count(50), 3);
}

#[test]
fn adjacent_columns_agree_on_their_seam() {
    let mut map = ChunkMap::new();
    let mut a = vec![Voxel { id: 0 }; 4096];
    let mut b = vec![Voxel { id: 0 }; 4096];
    a[chunk_linear(15, 4, 9) as usize] = Voxel { id: GRASS_ID };
    b[chunk_linear(0, 4, 9) as usize] = Voxel { id: SOIL_ID };
    map.write_chunk(key(0, 1, 0), a);
    map.write_chunk(key(1, 1, 0), b);
    let ca = map.get_with_neighbor_full_y(key(0, 0, 0));
    let cb = map.get_with_neighbor_full_y(key(1, 0, 0));
    let at = |c: &Vec<Voxel>, x: usize, y: usize, z: usize| c[x + 18 * (y + 256 * z)].id;
    let y = 16 * 8 + 4;
    for z in 1..17 {
        for yy in 0..256 {
            assert_eq!(at(&ca, 17, yy, z), at(&cb, 1, yy, z));
            assert_eq!(at(&ca, 16, yy, z), at(&cb, 0, yy, z));
        }
    }
    assert_eq!(at(&ca, 16, y, 10), GRASS_ID);
    assert_eq!(at(&cb, 1, y, 10), SOIL_ID);
}

#[test]
fn mesh_from_given_groups() {
    let cfg = catalogue();
    let mut v = vec![Voxel { id: 0 }; COLUMN_VOLUME];
    v[3 + 18 * (10 + 256 * 4)] = Voxel { id: STONE_ID };
    let quad = Quad { minimum: [3, 10, 4], width: 2, height: 1 };
    let mut groups: Vec<Vec<Quad>> = vec![Vec::new(); 6];
    groups[1].push(quad);
    groups[4].push(quad);
    let mesh = mesh_from_groups(groups.clone(), &v, &cfg, None).unwrap();
    assert_eq!(mesh.quads, groups);
    assert_eq!(mesh.data[1], vec![(1 << 8) | 7]);
    assert_eq!(mesh.data[4], vec![(4 << 8) | 2]);
    assert!(mesh.data[0].is_empty());
    let water = mesh_from_groups(groups.clone(), &v, &cfg, Some(WATER_ID)).unwrap();
    assert_eq!(water.data[1], vec![(1 << 8) | 5]);
    assert!(mesh_from_groups(vec![Vec::new(); 6], &v, &cfg, None).is_none());
}

#[test]
fn rebuild_plan_for_installed_column() {
    let mut map = solid_area(-1..=2, -1..=1);
    let cfg = catalogue();
    assert!(plan_column_rebuild(&map, &MeshManager::new(), key(1, 0, 0), &cfg).is_none());
    let mut manager = MeshManager::new();
    let mut sched = manager_with_scheduled(&mut manager, key(1, 0, 0));
    record_mesh(&mut sched, key(1, 0, 0), Some((10, 11)), Some(12));
    let cmds = build_or_break(true, false, Some(IVec3::new(7, 32, 0)), None);
    do_command_tasks(&mut map, &sched, cmds[0]);
    let plan = plan_column_rebuild(&map, &sched, key(1, 0, 0), &cfg).unwrap();
    assert_eq!(plan.mesh_handle, 10);
    assert_eq!(plan.water_entity, Some(12));
    assert!(plan.water.is_none());
    assert_eq!(quad_count(plan.terrain.as_ref().unwrap()), 1);
}

#[test]
fn shared_face_between_solid_columns_has_no_quads() {
    let mut map = solid_area(-1..=2, -1..=1);
    let hole = ChunkCommands::Change { chunk_key: key(0, 2, 0), pos: [5, 8, 5], voxel_type: Voxel { id: 0 } };
    do_command_tasks(&mut map, &MeshManager::new(), hole);
    let cfg = catalogue();
    let (mesh, _) = update_mesh(&map, key(0, 0, 0), &cfg);
    let mesh = mesh.unwrap();
    assert_eq!(quad_count(&mesh), 6);
    assert!(mesh.quads[3].iter().all(|q| q.minimum[0] != 16));
    let (next, _) = update_mesh(&map, key(1, 0, 0), &cfg);
    assert!(next.is_none());
}
