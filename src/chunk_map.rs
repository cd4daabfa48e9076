use vstd::prelude::*;
use ahash::AHashMap;
use crate::chunk::{
    chunk_index, find_chunk_keys_by_shpere_to_full_height, full_height_keys, lemma_delinearize, linearize,
    offsets_in_range, ChunkKey, ClipSpheres, IVec3, NeighbourOffest, LAYER_MIN,
};
use crate::collections::{chunk_table_get, chunk_table_insert, chunk_table_new, stored_chunks};
use crate::voxel::{Voxel, EMPTY_ID};

verus! {

/// Voxels in one chunk.
pub const CHUNK_VOLUME: usize = 4096;

/// Voxels in one chunk layer with its side apron: `18 x 16 x 18`.
pub const LAYER_VOLUME: usize = 5184;

/// Voxels in a whole column with its side apron: `18 x 256 x 18`.
pub const COLUMN_VOLUME: usize = 82944;

/// The empty voxel.
pub open spec fn empty_voxel() -> Voxel {
    Voxel { id: EMPTY_ID }
}

/// Voxel `(x, y, z)` of chunk `k`, or empty when the chunk is not resident.
pub open spec fn chunk_voxel(m: Map<ChunkKey, Seq<Voxel>>, k: ChunkKey, x: int, y: int, z: int) -> Voxel {
    if m.contains_key(k) {
        m[k][chunk_index(x, y, z)]
    } else {
        empty_voxel()
    }
}

/// Chunk `k` moved by `dx` along x and `dz` along z.
pub open spec fn shifted(k: ChunkKey, dx: int, dz: int) -> ChunkKey {
    ChunkKey(IVec3 { x: (k.0.x + dx) as i32, y: k.0.y, z: (k.0.z + dz) as i32 })
}

/// Layer `layer` (counted from the bottom) of the column of `k`.
pub open spec fn layer_at(k: ChunkKey, layer: int) -> ChunkKey {
    ChunkKey(IVec3 { x: k.0.x, y: (layer + LAYER_MIN) as i32, z: k.0.z })
}

/// Voxel `(x, y, z)` of the `18 x 16 x 18` volume around chunk `k`: the
/// chunk itself inside, one face of each side neighbour on the four side
/// slabs, empty in the four corner columns.
pub open spec fn layer_voxel(m: Map<ChunkKey, Seq<Voxel>>, k: ChunkKey, x: int, y: int, z: int) -> Voxel {
    if z != 0 && z != 17 && x == 17 {
        chunk_voxel(m, shifted(k, 1, 0), 0, y, z - 1)
    } else if z != 0 && z != 17 && x == 0 {
        chunk_voxel(m, shifted(k, -1, 0), 15, y, z - 1)
    } else if x != 0 && x != 17 && z == 17 {
        chunk_voxel(m, shifted(k, 0, 1), x - 1, y, 0)
    } else if x != 0 && x != 17 && z == 0 {
        chunk_voxel(m, shifted(k, 0, -1), x - 1, y, 15)
    } else if 0 < x < 17 && 0 < z < 17 {
        chunk_voxel(m, k, x - 1, y, z - 1)
    } else {
        empty_voxel()
    }
}

/// Voxel `(x, y, z)` of the `18 x 256 x 18` volume around the column of
/// `k`: the layers stacked bottom to top.
pub open spec fn column_voxel(m: Map<ChunkKey, Seq<Voxel>>, k: ChunkKey, x: int, y: int, z: int) -> Voxel {
    layer_voxel(m, layer_at(k, y / 16), x, y % 16, z)
}

/// `c` is the layer volume around chunk `k`, in flat order.
pub open spec fn is_layer_volume(m: Map<ChunkKey, Seq<Voxel>>, k: ChunkKey, c: Seq<Voxel>) -> bool {
    &&& c.len() == LAYER_VOLUME
    &&& forall|i: int|
        0 <= i < LAYER_VOLUME ==> #[trigger] c[i] == layer_voxel(m, k, i % 18, (i / 18) % 16, i / 18 / 16)
}

/// `c` is the composite volume of the column of `k`, in flat order.
pub open spec fn is_composite(m: Map<ChunkKey, Seq<Voxel>>, k: ChunkKey, c: Seq<Voxel>) -> bool {
    &&& c.len() == COLUMN_VOLUME
    &&& forall|i: int|
        0 <= i < COLUMN_VOLUME ==> #[trigger] c[i] == column_voxel(m, k, i % 18, (i / 18) % 256, i / 18 / 256)
}

/// The composite volume of the column of `k`, in flat order: voxel `i` is
/// at `(i % 18, (i / 18) % 256, i / 18 / 256)`.
pub open spec fn column_composite(m: Map<ChunkKey, Seq<Voxel>>, k: ChunkKey) -> Seq<Voxel> {
    Seq::new(COLUMN_VOLUME as nat, |i: int| column_voxel(m, k, i % 18, (i / 18) % 256, i / 18 / 256))
}

/// Whether the side neighbours of `k` can be named without overflow.
pub open spec fn key_in_range(k: ChunkKey) -> bool {
    &&& i32::MIN < k.0.x < i32::MAX
    &&& i32::MIN < k.0.z < i32::MAX
}

/// Whether chunk `k` and its four side neighbours are resident in every
/// layer of the column.
pub open spec fn column_ready(m: Map<ChunkKey, Seq<Voxel>>, k: ChunkKey) -> bool {
    forall|l: int|
        0 <= l < 16 ==> {
            &&& m.contains_key(#[trigger] layer_at(k, l))
            &&& m.contains_key(shifted(layer_at(k, l), 1, 0))
            &&& m.contains_key(shifted(layer_at(k, l), -1, 0))
            &&& m.contains_key(shifted(layer_at(k, l), 0, 1))
            &&& m.contains_key(shifted(layer_at(k, l), 0, -1))
        }
}

/// The in-memory voxel store: the voxels of each resident chunk.
pub struct ChunkMap {
    pub map_data: AHashMap<ChunkKey, Vec<Voxel>>,
}

impl View for ChunkMap {
    type V = Map<ChunkKey, Seq<Voxel>>;

    open spec fn view(&self) -> Map<ChunkKey, Seq<Voxel>> {
        stored_chunks(self.map_data)
    }
}

/// Flat index of `(x, y, z)` in a chunk.
pub fn chunk_linear(x: u32, y: u32, z: u32) -> (r: u32)
    requires
        x < 16,
        y < 16,
        z < 16,
    ensures
        r == chunk_index(x as int, y as int, z as int),
        r < CHUNK_VOLUME,
{
    proof {
        lemma_delinearize(16, 16, 16, x as int, y as int, z as int);
    }
    x + 16 * (y + 16 * z)
}

fn neighbour_key(k: ChunkKey, dx: i32, dz: i32) -> (r: ChunkKey)
    requires
        key_in_range(k),
        -1 <= dx <= 1,
        -1 <= dz <= 1,
    ensures
        r == shifted(k, dx as int, dz as int),
{
    ChunkKey(IVec3 { x: k.0.x + dx, y: k.0.y, z: k.0.z + dz })
}

impl ChunkMap {
    /// Every resident chunk holds exactly one chunk's worth of voxels.
    pub open spec fn wf(&self) -> bool {
        forall|k: ChunkKey| #[trigger] self@.contains_key(k) ==> self@[k].len() == CHUNK_VOLUME
    }

    /// An empty store.
    pub fn new() -> (r: ChunkMap)
        ensures
            r@.is_empty(),
            r.wf(),
    {
        ChunkMap { map_data: chunk_table_new() }
    }

    /// The voxels of chunk `key`, if resident.
    pub fn get(&self, key: ChunkKey) -> (r: Option<&Vec<Voxel>>)
        ensures
            r is Some <==> self@.contains_key(key),
            r is Some ==> r->Some_0@ == self@[key],
    {
        chunk_table_get(&self.map_data, &key)
    }

    /// Whether chunk `key` is resident.
    pub fn contains_key(&self, key: ChunkKey) -> (r: bool)
        ensures
            r == self@.contains_key(key),
    {
        chunk_table_get(&self.map_data, &key).is_some()
    }

    /// Stores the voxels of chunk `chunk_key`, replacing what was there.
    pub fn write_chunk(&mut self, chunk_key: ChunkKey, item: Vec<Voxel>)
        requires
            old(self).wf(),
            item.len() == CHUNK_VOLUME,
        ensures
            final(self)@ == old(self)@.insert(chunk_key, item@),
            final(self).wf(),
    {
        let ghost before = self@;
        chunk_table_insert(&mut self.map_data, chunk_key, item);
        proof {
            assert forall|k: ChunkKey| #[trigger] self@.contains_key(k) implies self@[k].len() == CHUNK_VOLUME by {
                if k != chunk_key {
                    assert(before.contains_key(k));
                }
            }
        }
    }

    /// Voxel `index` of a chunk, or empty when there is no chunk.
    pub fn get_by_index(volex: Option<&Vec<Voxel>>, index: u32) -> (r: Voxel)
        requires
            volex is Some ==> index < volex->Some_0.len(),
        ensures
            volex is Some ==> r == volex->Some_0[index as int],
            volex is None ==> r == empty_voxel(),
    {
        match volex {
            Some(list) => list[index as usize],
            None => Voxel::empty(),
        }
    }

    /// Whether chunk `key` and its four side neighbours are resident in
    /// every layer of its column.
    pub fn column_ready(&self, key: ChunkKey) -> (r: bool)
        requires
            key_in_range(key),
        ensures
            r == column_ready(self@, key),
    {
        let mut l: i32 = 0;
        while l < 16
            invariant
                0 <= l <= 16,
                key_in_range(key),
                forall|j: int| 0 <= j < l ==> {
                    &&& self@.contains_key(#[trigger] layer_at(key, j))
                    &&& self@.contains_key(shifted(layer_at(key, j), 1, 0))
                    &&& self@.contains_key(shifted(layer_at(key, j), -1, 0))
                    &&& self@.contains_key(shifted(layer_at(key, j), 0, 1))
                    &&& self@.contains_key(shifted(layer_at(key, j), 0, -1))
                },
            decreases 16 - l,
        {
            let k = ChunkKey(IVec3 { x: key.0.x, y: l + LAYER_MIN, z: key.0.z });
            if !self.contains_key(k) || !self.contains_key(neighbour_key(k, 1, 0))
                || !self.contains_key(neighbour_key(k, -1, 0)) || !self.contains_key(neighbour_key(k, 0, 1))
                || !self.contains_key(neighbour_key(k, 0, -1)) {
                assert(layer_at(key, l as int) == k);
                return false;
            }
            l += 1;
        }
        true
    }

    /// The `18 x 16 x 18` volume around chunk `chunk_key`: the chunk inside,
    /// the facing slab of each side neighbour around it, empty corners.
    pub fn get_layer_neighbors(&self, chunk_key: ChunkKey) -> (r: Vec<Voxel>)
        requires
            self.wf(),
            key_in_range(chunk_key),
        ensures
            is_layer_volume(self@, chunk_key, r@),
    {
        let voxels = self.get(chunk_key);
        let px = self.get(neighbour_key(chunk_key, 1, 0));
        let nx = self.get(neighbour_key(chunk_key, -1, 0));
        let pz = self.get(neighbour_key(chunk_key, 0, 1));
        let nz = self.get(neighbour_key(chunk_key, 0, -1));
        let ghost m = self@;
        let mut result: Vec<Voxel> = Vec::new();
        let mut i: u32 = 0;
        while i < 5184
            invariant
                self.wf(),
                m == self@,
                key_in_range(chunk_key),
                voxels is Some <==> m.contains_key(chunk_key),
                voxels is Some ==> voxels->Some_0@ == m[chunk_key],
                px is Some <==> m.contains_key(shifted(chunk_key, 1, 0)),
                px is Some ==> px->Some_0@ == m[shifted(chunk_key, 1, 0)],
                nx is Some <==> m.contains_key(shifted(chunk_key, -1, 0)),
                nx is Some ==> nx->Some_0@ == m[shifted(chunk_key, -1, 0)],
                pz is Some <==> m.contains_key(shifted(chunk_key, 0, 1)),
                pz is Some ==> pz->Some_0@ == m[shifted(chunk_key, 0, 1)],
                nz is Some <==> m.contains_key(shifted(chunk_key, 0, -1)),
                nz is Some ==> nz->Some_0@ == m[shifted(chunk_key, 0, -1)],
                i <= 5184,
                result.len() == i,
                forall|j: int|
                    0 <= j < i ==> #[trigger] result[j] == layer_voxel(m, chunk_key, j % 18, (j / 18) % 16, j / 18 / 16),
            decreases 5184 - i,
        {
            let x = i % 18;
            let y = (i / 18) % 16;
            let z = i / 18 / 16;
            assert(z < 18);
            let v = if z != 0 && z != 17 && x == 17 {
                Self::get_by_index(px, chunk_linear(0, y, z - 1))
            } else if z != 0 && z != 17 && x == 0 {
                Self::get_by_index(nx, chunk_linear(15, y, z - 1))
            } else if x != 0 && x != 17 && z == 17 {
                Self::get_by_index(pz, chunk_linear(x - 1, y, 0))
            } else if x != 0 && x != 17 && z == 0 {
                Self::get_by_index(nz, chunk_linear(x - 1, y, 15))
            } else if x > 0 && x < 17 && z > 0 && z < 17 {
                Self::get_by_index(voxels, chunk_linear(x - 1, y, z - 1))
            } else {
                Voxel::empty()
            };
            result.push(v);
            i += 1;
        }
        result
    }

    /// The composite volume of the column of `chunk_key`: for each layer
    /// from the bottom, the layer volume of that layer's chunk, stacked
    /// along y into an `18 x 256 x 18` volume.
    pub fn get_with_neighbor_full_y(&self, chunk_key: ChunkKey) -> (r: Vec<Voxel>)
        requires
            self.wf(),
            key_in_range(chunk_key),
        ensures
            is_composite(self@, chunk_key, r@),
            r@ == column_composite(self@, chunk_key),
    {
        let ghost m = self@;
        let mut layers: Vec<Vec<Voxel>> = Vec::new();
        let mut l: i32 = 0;
        while l < 16
            invariant
                self.wf(),
                m == self@,
                key_in_range(chunk_key),
                0 <= l <= 16,
                layers.len() == l,
                forall|j: int| 0 <= j < l ==> is_layer_volume(m, layer_at(chunk_key, j), #[trigger] layers[j]@),
            decreases 16 - l,
        {
            let k = ChunkKey(IVec3 { x: chunk_key.0.x, y: l + LAYER_MIN, z: chunk_key.0.z });
            assert(k == layer_at(chunk_key, l as int));
            layers.push(self.get_layer_neighbors(k));
            l += 1;
        }
        let mut result: Vec<Voxel> = Vec::new();
        let mut i: u32 = 0;
        while i < 82944
            invariant
                layers.len() == 16,
                forall|j: int| 0 <= j < 16 ==> is_layer_volume(m, layer_at(chunk_key, j), #[trigger] layers[j]@),
                i <= 82944,
                result.len() == i,
                forall|j: int|
                    0 <= j < i ==> #[trigger] result[j] == column_voxel(m, chunk_key, j % 18, (j / 18) % 256, j / 18 / 256),
            decreases 82944 - i,
        {
            let x = i % 18;
            let y = (i / 18) % 256;
            let z = i / 18 / 256;
            assert(z < 18);
            let layer = y / 16;
            let ly = y % 16;
            proof {
                lemma_delinearize(18, 16, 18, x as int, ly as int, z as int);
            }
            let index = x + 18 * (ly + 16 * z);
            assert(index == linearize(18, 16, x as int, ly as int, z as int));
            let v = layers[layer as usize][index as usize];
            assert(layers[layer as int]@[index as int] == layer_voxel(
                m,
                layer_at(chunk_key, layer as int),
                (index % 18) as int,
                ((index / 18) % 16) as int,
                (index / 18 / 16) as int,
            ));
            result.push(v);
            i += 1;
        }
        assert(result@ =~= column_composite(m, chunk_key));
        result
    }
}

/// The apron slab at `x == 0` of the composite volume of column `k` holds,
/// in layer `ly`, the `x == 15` slab of the chunk on the -x side in that
/// layer (empty where that chunk is not resident).
pub proof fn lemma_apron_matches_neighbour(
    m: Map<ChunkKey, Seq<Voxel>>,
    k: ChunkKey,
    c: Seq<Voxel>,
    ly: int,
    y: int,
    z: int,
)
    requires
        is_composite(m, k, c),
        0 <= ly < 16,
        0 <= y < 16,
        1 <= z <= 16,
    ensures
        c[linearize(18, 256, 0, 16 * ly + y, z)] == chunk_voxel(
            m,
            ChunkKey(IVec3 { x: (k.0.x - 1) as i32, y: (ly + LAYER_MIN) as i32, z: k.0.z }),
            15,
            y,
            z - 1,
        ),
{
    lemma_delinearize(18, 256, 18, 0, 16 * ly + y, z);
    let i = linearize(18, 256, 0, 16 * ly + y, z);
    assert((16 * ly + y) / 16 == ly);
    assert((16 * ly + y) % 16 == y);
    assert(c[i] == column_voxel(m, k, 0, 16 * ly + y, z));
}

/// Streaming phase: the chunks of the columns in view that are not
/// resident yet, each once, in the order of the offsets and from the lowest
/// layer up. The host loads or generates each and writes it.
pub fn chunk_generate_system(
    chunk_map: &ChunkMap,
    clip_spheres: &ClipSpheres,
    neighbour_offest: &NeighbourOffest,
) -> (r: Vec<ChunkKey>)
    requires
        offsets_in_range(neighbour_offest.0@),
        neighbour_offest.0.len() * 16 <= usize::MAX,
    ensures
        ({
            let wanted = full_height_keys(clip_spheres.new_sphere, neighbour_offest.0@);
            &&& forall|j: int| 0 <= j < r.len() ==> wanted.contains(#[trigger] r[j]) && !chunk_map@.contains_key(r[j])
            &&& forall|k: ChunkKey| wanted.contains(k) && !chunk_map@.contains_key(k) ==> #[trigger] r@.contains(k)
            &&& r@.no_duplicates()
        }),
{
    let keys = find_chunk_keys_by_shpere_to_full_height(clip_spheres.new_sphere, &neighbour_offest.0);
    let ghost wanted = keys@;
    let mut missing: Vec<ChunkKey> = Vec::new();
    let mut i: usize = 0;
    while i < keys.len()
        invariant
            wanted == keys@,
            i <= keys.len(),
            forall|j: int| 0 <= j < missing.len() ==> wanted.contains(#[trigger] missing@[j]) && !chunk_map@.contains_key(missing@[j]),
            forall|j: int| 0 <= j < i && !chunk_map@.contains_key(#[trigger] keys@[j]) ==> missing@.contains(keys@[j]),
            missing@.no_duplicates(),
        decreases keys.len() - i,
    {
        let key = keys[i];
        proof {
            assert(wanted[i as int] == key);
        }
        if !chunk_map.contains_key(key) && !crate::mesh_generator::keys_contain(&missing, &key) {
            let ghost before = missing@;
            missing.push(key);
            proof {
                assert forall|j: int| 0 <= j < i + 1 && !chunk_map@.contains_key(#[trigger] keys@[j]) implies missing@.contains(keys@[j]) by {
                    if j < i {
                        let t = choose|t: int| 0 <= t < before.len() && before[t] == keys@[j];
                        assert(missing@[t] == keys@[j]);
                    } else {
                        assert(missing@[before.len() as int] == keys@[j]);
                    }
                }
            }
        }
        i += 1;
    }
    missing
}

/// Adjacent columns see the same pair of voxels across their shared x
/// face: the +x apron of column `k` is the first inner slab of the column
/// on its +x side, and the last inner slab of `k` is that column's -x
/// apron.
pub proof fn lemma_seam_agreement_x(m: Map<ChunkKey, Seq<Voxel>>, k: ChunkKey, y: int, z: int)
    requires
        i32::MIN < k.0.x < i32::MAX - 1,
        0 <= y < 256,
        1 <= z <= 16,
    ensures
        column_voxel(m, k, 17, y, z) == column_voxel(m, shifted(k, 1, 0), 1, y, z),
        column_voxel(m, k, 16, y, z) == column_voxel(m, shifted(k, 1, 0), 0, y, z),
{
    let l = y / 16;
    assert(0 <= l < 16);
    assert(layer_at(shifted(k, 1, 0), l) == shifted(layer_at(k, l), 1, 0));
    assert(shifted(layer_at(shifted(k, 1, 0), l), -1, 0) == layer_at(k, l));
}

/// Adjacent columns see the same pair of voxels across their shared z
/// face.
pub proof fn lemma_seam_agreement_z(m: Map<ChunkKey, Seq<Voxel>>, k: ChunkKey, x: int, y: int)
    requires
        i32::MIN < k.0.z < i32::MAX - 1,
        0 <= y < 256,
        1 <= x <= 16,
    ensures
        column_voxel(m, k, x, y, 17) == column_voxel(m, shifted(k, 0, 1), x, y, 1),
        column_voxel(m, k, x, y, 16) == column_voxel(m, shifted(k, 0, 1), x, y, 0),
{
    let l = y / 16;
    assert(0 <= l < 16);
    assert(layer_at(shifted(k, 0, 1), l) == shifted(layer_at(k, l), 0, 1));
    assert(shifted(layer_at(shifted(k, 0, 1), l), 0, -1) == layer_at(k, l));
}

/// Whether two stores hold the same chunk `key` (or both lack it).
pub open spec fn same_chunk(m1: Map<ChunkKey, Seq<Voxel>>, m2: Map<ChunkKey, Seq<Voxel>>, key: ChunkKey) -> bool {
    &&& m1.contains_key(key) == m2.contains_key(key)
    &&& m1.contains_key(key) ==> m1[key] == m2[key]
}

/// Whether two stores agree on every chunk that the composite volume of
/// column `k` reads: each layer's chunk and its four side neighbours.
pub open spec fn column_inputs_agree(m1: Map<ChunkKey, Seq<Voxel>>, m2: Map<ChunkKey, Seq<Voxel>>, k: ChunkKey) -> bool {
    forall|l: int|
        0 <= l < 16 ==> {
            &&& same_chunk(m1, m2, #[trigger] layer_at(k, l))
            &&& same_chunk(m1, m2, shifted(layer_at(k, l), 1, 0))
            &&& same_chunk(m1, m2, shifted(layer_at(k, l), -1, 0))
            &&& same_chunk(m1, m2, shifted(layer_at(k, l), 0, 1))
            &&& same_chunk(m1, m2, shifted(layer_at(k, l), 0, -1))
        }
}

/// The composite volume of a column depends only on the chunks it reads.
pub proof fn lemma_composite_depends_on_column_inputs(m1: Map<ChunkKey, Seq<Voxel>>, m2: Map<ChunkKey, Seq<Voxel>>, k: ChunkKey)
    requires
        column_inputs_agree(m1, m2, k),
    ensures
        column_composite(m1, k) == column_composite(m2, k),
{
    assert forall|i: int| 0 <= i < COLUMN_VOLUME implies #[trigger] column_composite(m1, k)[i] == column_composite(m2, k)[i] by {
        let y = (i / 18) % 256;
        let l = y / 16;
        assert(0 <= l < 16);
        assert(same_chunk(m1, m2, layer_at(k, l)));
    }
    assert(column_composite(m1, k) =~= column_composite(m2, k));
}

} // verus!
