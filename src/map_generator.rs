use vstd::prelude::*;
use crate::chunk::ChunkKey;
use crate::chunk_map::{empty_voxel, CHUNK_VOLUME};
use crate::voxel::{Voxel, GRASS_ID, SNOW_ID, SOIL_ID, STONE_ID};

verus! {

/// Seed of the procedural generator.
pub const PROC_SEED: i32 = 1512354854;

/// Lowest world height at which solid ground is snow.
pub const SNOW_LINE: i32 = 40;

/// Lowest world height at which solid ground is bare stone.
pub const STONE_LINE: i32 = 35;

/// Depth of the soil band below the surface voxel.
pub const SOIL_DEPTH: i32 = 5;

/// Number of columns of one chunk: `16 x 16`.
pub const CHUNK_AREA: usize = 256;

/// The terrain surface height over one voxel column, as its integer part
/// and whether it is a whole number.
#[derive(Debug, Clone, Copy, PartialEq, Eq, Structural)]
pub struct SurfaceLevel {
    pub floor: i32,
    pub integral: bool,
}

/// The smallest integer not below the surface height.
pub open spec fn surface_ceil(s: SurfaceLevel) -> int {
    if s.integral {
        s.floor as int
    } else {
        s.floor + 1
    }
}

/// The material at world height `y` under surface `s`: empty above the
/// surface; snow from the snow line up; stone from the stone line up;
/// otherwise grass within one voxel of the surface, soil within five, stone
/// below.
pub open spec fn material_at(y: int, s: SurfaceLevel) -> Voxel {
    if y > s.floor {
        empty_voxel()
    } else if y >= SNOW_LINE {
        Voxel { id: SNOW_ID }
    } else if y >= STONE_LINE {
        Voxel { id: STONE_ID }
    } else if y + 1 >= surface_ceil(s) {
        Voxel { id: GRASS_ID }
    } else if y + SOIL_DEPTH > s.floor {
        Voxel { id: SOIL_ID }
    } else {
        Voxel { id: STONE_ID }
    }
}

/// The material at world height `y` under surface `s`.
pub fn terrain_voxel(y: i32, s: SurfaceLevel) -> (r: Voxel)
    ensures
        r == material_at(y as int, s),
{
    if y > s.floor {
        return Voxel::empty();
    }
    if y >= SNOW_LINE {
        return Voxel { id: SNOW_ID };
    }
    if y >= STONE_LINE {
        return Voxel { id: STONE_ID };
    }
    let ceil: i64 = if s.integral {
        s.floor as i64
    } else {
        s.floor as i64 + 1
    };
    if y as i64 + 1 >= ceil {
        Voxel { id: GRASS_ID }
    } else if y as i64 + 5 > s.floor as i64 {
        Voxel { id: SOIL_ID }
    } else {
        Voxel { id: STONE_ID }
    }
}

/// Whether the world heights of chunk `k` fit in an `i32`.
pub open spec fn heights_in_range(k: ChunkKey) -> bool {
    -0x800_0000 <= k.0.y < 0x800_0000
}

/// The generated voxels of chunk `k`: voxel `i` sits at `(x, y, z) =
/// (i % 16, (i / 16) % 16, i / 256)`; it is empty where the cave mask is
/// set, else the material at its world height under the surface of column
/// `x + 16 z`.
pub open spec fn generated_chunk(k: ChunkKey, surface: Seq<SurfaceLevel>, caves: Seq<bool>) -> Seq<Voxel> {
    Seq::new(
        CHUNK_VOLUME as nat,
        |i: int|
            if caves[i] {
                empty_voxel()
            } else {
                material_at(16 * k.0.y + (i / 16) % 16, surface[i % 16 + 16 * (i / 256)])
            },
    )
}

/// Generates the voxels of a chunk from the surface height of each of its
/// columns and its cave mask.
pub fn gen_chunk_data_from_fields(chunk_key: ChunkKey, surface: &Vec<SurfaceLevel>, caves: &Vec<bool>) -> (r: Vec<Voxel>)
    requires
        surface.len() == CHUNK_AREA,
        caves.len() == CHUNK_VOLUME,
        heights_in_range(chunk_key),
    ensures
        r@ == generated_chunk(chunk_key, surface@, caves@),
{
    let base_y: i32 = chunk_key.0.y * 16;
    let mut voxels: Vec<Voxel> = Vec::new();
    let mut i: usize = 0;
    while i < CHUNK_VOLUME
        invariant
            surface.len() == CHUNK_AREA,
            caves.len() == CHUNK_VOLUME,
            base_y == 16 * chunk_key.0.y,
            heights_in_range(chunk_key),
            i <= CHUNK_VOLUME,
            voxels@ =~= generated_chunk(chunk_key, surface@, caves@).take(i as int),
        decreases CHUNK_VOLUME - i,
    {
        let x = i % 16;
        let y = (i / 16) % 16;
        let z = i / 256;
        if caves[i] {
            voxels.push(Voxel::empty());
        } else {
            voxels.push(terrain_voxel(base_y + y as i32, surface[x + 16 * z]));
        }
        i += 1;
    }
    assert(voxels@ =~= generated_chunk(chunk_key, surface@, caves@));
    voxels
}

/// The generated voxels depend on the chunk key, the surface heights and
/// the cave mask alone: equal fields give byte-identical chunks.
pub proof fn lemma_generation_deterministic(
    k1: ChunkKey,
    s1: Seq<SurfaceLevel>,
    c1: Seq<bool>,
    k2: ChunkKey,
    s2: Seq<SurfaceLevel>,
    c2: Seq<bool>,
)
    requires
        k1 == k2,
        s1 == s2,
        c1 == c2,
    ensures
        generated_chunk(k1, s1, c1) == generated_chunk(k2, s2, c2),
{
}

} // verus!
