use vstd::prelude::*;
use std::collections::hash_map::DefaultHasher;
use std::hash::Hasher;
use vstd::std_specs::hash::DefaultHasherAdditionalSpecFns;
use vstd::arithmetic::div_mod::{lemma_fundamental_div_mod, lemma_fundamental_div_mod_converse};
use crate::{CHUNK_SIZE, VIEW_RADIUS};
use crate::bytes::{le_bytes, u32_le_bytes, u64_le_bytes};

verus! {

/// Half of a chunk's edge: chunk `k` covers world voxels `16k - 8 ..= 16k + 7`.
pub const HALF_CHUNK: i32 = 8;

/// Lowest chunk layer of a column.
pub const LAYER_MIN: i32 = -7;

/// Number of chunk layers in a column.
pub const LAYER_COUNT: i32 = 16;

/// Largest chunk distance that an offset table is built for.
pub const MAX_CHUNK_DISTANCE: i32 = 16383;

/// Bound on each component of an offset applied to a chunk key.
pub const MAX_OFFSET: i32 = 0x400_0000;

/// An integer triple: a voxel position in world space, a chunk key, or an
/// offset between chunk keys.
#[derive(Debug, Clone, Copy, PartialEq, Eq, Hash, Structural)]
pub struct IVec3 {
    pub x: i32,
    pub y: i32,
    pub z: i32,
}

impl IVec3 {
    pub fn new(x: i32, y: i32, z: i32) -> (r: IVec3)
        ensures
            r == (IVec3 { x, y, z }),
    {
        IVec3 { x, y, z }
    }

    pub fn zero() -> (r: IVec3)
        ensures
            r == (IVec3 { x: 0, y: 0, z: 0 }),
    {
        IVec3 { x: 0, y: 0, z: 0 }
    }
}

/// Identifies one `16 x 16 x 16` chunk of the voxel field. A column key has
/// `y == 0`.
#[derive(Debug, Clone, Copy, PartialEq, Eq, Hash, Structural)]
pub struct ChunkKey(pub IVec3);

/// Chunk coordinate of world voxel coordinate `w` along one axis.
pub open spec fn key_axis(w: int) -> int {
    (w + HALF_CHUNK) / CHUNK_SIZE as int
}

/// Coordinate of world voxel coordinate `w` inside its chunk along one axis.
pub open spec fn local_axis(w: int) -> int {
    (w + HALF_CHUNK) % CHUNK_SIZE as int
}

/// Chunk coordinates of the chunk that holds world voxel `p`.
pub open spec fn spec_chunk_of(p: IVec3) -> IVec3 {
    IVec3 { x: key_axis(p.x as int) as i32, y: key_axis(p.y as int) as i32, z: key_axis(p.z as int) as i32 }
}

/// The column key (`y == 0`) of the column that holds world voxel `p`.
pub open spec fn column_of(p: IVec3) -> IVec3 {
    IVec3 { x: key_axis(p.x as int) as i32, y: 0, z: key_axis(p.z as int) as i32 }
}

/// Position `(x, y, z)` in a `sx` by `sy` by any box, as a flat index; x varies fastest.
pub open spec fn linearize(sx: int, sy: int, x: int, y: int, z: int) -> int {
    x + sx * (y + sy * z)
}

/// Flat index `i` in a `16 x 16 x 16` chunk.
pub open spec fn chunk_index(x: int, y: int, z: int) -> int {
    linearize(16, 16, x, y, z)
}

/// Linearizing a position inside a box and splitting the index again gives
/// the position back.
pub proof fn lemma_delinearize(sx: int, sy: int, sz: int, x: int, y: int, z: int)
    requires
        sx > 0,
        sy > 0,
        0 <= x < sx,
        0 <= y < sy,
        0 <= z < sz,
    ensures
        0 <= linearize(sx, sy, x, y, z) < sx * sy * sz,
        linearize(sx, sy, x, y, z) % sx == x,
        (linearize(sx, sy, x, y, z) / sx) % sy == y,
        linearize(sx, sy, x, y, z) / sx / sy == z,
{
    let i = linearize(sx, sy, x, y, z);
    assert(i == (y + sy * z) * sx + x) by (nonlinear_arith)
        requires
            i == x + sx * (y + sy * z),
    ;
    assert(y + sy * z == z * sy + y) by (nonlinear_arith);
    lemma_fundamental_div_mod_converse(i, sx, y + sy * z, x);
    lemma_fundamental_div_mod_converse(y + sy * z, sy, z, y);
    assert(0 <= y + sy * z) by (nonlinear_arith)
        requires
            0 <= y,
            0 <= z,
            sy > 0,
    ;
    assert(y + sy * z < sy * sz) by (nonlinear_arith)
        requires
            0 <= y < sy,
            0 <= z < sz,
    ;
    assert(0 <= i < sx * sy * sz) by (nonlinear_arith)
        requires
            i == x + sx * (y + sy * z),
            0 <= x < sx,
            0 <= y + sy * z < sy * sz,
            sx > 0,
    ;
}

/// Chunk coordinate along one axis of world voxel coordinate `w`.
pub fn get_chunk_key_axis(w: i32) -> (r: i32)
    ensures
        r == key_axis(w as int),
{
    let v: i64 = w as i64 + 8;
    if v >= 0 {
        let q: u64 = (v as u64) / 16;
        q as i32
    } else {
        let n: u64 = (-v) as u64;
        let q: u64 = (n + 15) / 16;
        proof {
            lemma_fundamental_div_mod(n + 15, 16);
            let s = (n + 15) % 16;
            lemma_fundamental_div_mod_converse(v as int, 16, -(q as int), 15 - s);
        }
        -(q as i64) as i32
    }
}

/// Chunk coordinates of the chunk that holds world voxel `point`.
pub fn get_chunk_key_i3_by_vec3(point: IVec3) -> (r: IVec3)
    ensures
        r == spec_chunk_of(point),
{
    IVec3 {
        x: get_chunk_key_axis(point.x),
        y: get_chunk_key_axis(point.y),
        z: get_chunk_key_axis(point.z),
    }
}

/// Coordinate inside its chunk of world voxel coordinate `w`, given the
/// chunk coordinate `k` that holds it.
fn local_coordinate(w: i32, k: i32) -> (r: u32)
    requires
        k == key_axis(w as int),
    ensures
        r == local_axis(w as int),
        r < 16,
{
    proof {
        lemma_fundamental_div_mod(w + 8, 16);
    }
    (w as i64 + 8 - 16 * (k as i64)) as u32
}

/// The place of world voxel `p` inside its chunk.
pub open spec fn local_of(p: IVec3) -> [u32; 3] {
    [local_axis(p.x as int) as u32, local_axis(p.y as int) as u32, local_axis(p.z as int) as u32]
}

/// The chunk that holds world voxel `pos`, and the voxel's place inside it.
pub fn vec3_to_chunk_key_any_xyz(pos: IVec3) -> (r: (ChunkKey, [u32; 3]))
    ensures
        (r.0).0 == spec_chunk_of(pos),
        r.1 == local_of(pos),
        r.1[0] == local_axis(pos.x as int),
        r.1[1] == local_axis(pos.y as int),
        r.1[2] == local_axis(pos.z as int),
        r.1[0] < 16 && r.1[1] < 16 && r.1[2] < 16,
{
    let chunk_key = ChunkKey(get_chunk_key_i3_by_vec3(pos));
    let x = local_coordinate(pos.x, chunk_key.0.x);
    let y = local_coordinate(pos.y, chunk_key.0.y);
    let z = local_coordinate(pos.z, chunk_key.0.z);
    (chunk_key, [x, y, z])
}

/// A world voxel inside chunk `k` at flat index `i` maps back to chunk `k`,
/// and its place inside the chunk linearizes to `i`.
pub proof fn lemma_coordinate_round_trip(k: IVec3, i: int)
    requires
        0 <= i < 4096,
        -0x800_0000 < k.x < 0x800_0000,
        -0x800_0000 < k.y < 0x800_0000,
        -0x800_0000 < k.z < 0x800_0000,
    ensures
        ({
            let x = i % 16;
            let y = (i / 16) % 16;
            let z = i / 16 / 16;
            let p = IVec3 {
                x: (16 * k.x - 8 + x) as i32,
                y: (16 * k.y - 8 + y) as i32,
                z: (16 * k.z - 8 + z) as i32,
            };
            &&& spec_chunk_of(p) == k
            &&& chunk_index(
                local_axis(p.x as int),
                local_axis(p.y as int),
                local_axis(p.z as int),
            ) == i
        }),
{
    let x = i % 16;
    let y = (i / 16) % 16;
    let z = i / 16 / 16;
    lemma_fundamental_div_mod(i, 16);
    lemma_fundamental_div_mod(i / 16, 16);
    assert(0 <= x < 16);
    assert(0 <= y < 16);
    assert(0 <= z < 16);
    let px = 16 * k.x - 8 + x;
    let py = 16 * k.y - 8 + y;
    let pz = 16 * k.z - 8 + z;
    let p = IVec3 { x: px as i32, y: py as i32, z: pz as i32 };
    assert(p.x == px && p.y == py && p.z == pz);
    lemma_fundamental_div_mod_converse(px + 8, 16, k.x as int, x);
    lemma_fundamental_div_mod_converse(py + 8, 16, k.y as int, y);
    lemma_fundamental_div_mod_converse(pz + 8, 16, k.z as int, z);
    assert(spec_chunk_of(p) == k);
    assert(i == x + 16 * (y + 16 * z));
}

/// Offset number `i` of the table for chunk distance `d`: x runs over
/// `-d ..= d` in the outer order, z in the inner order.
pub open spec fn offset_at(d: int, i: int) -> IVec3 {
    IVec3 { x: (-d + i / (2 * d + 1)) as i32, y: 0, z: (-d + i % (2 * d + 1)) as i32 }
}

/// The offsets `(x, 0, z)` with `|x|, |z| <= chunk_distance`, x in the outer
/// order.
pub fn generate_offset_array_with_y_0(chunk_distance: i32) -> (r: Vec<IVec3>)
    requires
        chunk_distance <= MAX_CHUNK_DISTANCE,
    ensures
        chunk_distance < 0 ==> r.len() == 0,
        chunk_distance >= 0 ==> r.len() == (2 * chunk_distance + 1) * (2 * chunk_distance + 1),
        forall|i: int| 0 <= i < r.len() ==> #[trigger] r[i] == offset_at(chunk_distance as int, i),
{
    let mut offsets: Vec<IVec3> = Vec::new();
    if chunk_distance < 0 {
        return offsets;
    }
    let d = chunk_distance;
    let n: i32 = 2 * d + 1;
    let mut x: i32 = -d;
    while x <= d
        invariant
            0 <= d <= MAX_CHUNK_DISTANCE,
            n == 2 * d + 1,
            -d <= x <= d + 1,
            offsets.len() == (x + d) * n,
            forall|i: int| 0 <= i < offsets.len() ==> #[trigger] offsets[i] == offset_at(d as int, i),
        decreases d + 1 - x,
    {
        let mut z: i32 = -d;
        while z <= d
            invariant
                0 <= d <= MAX_CHUNK_DISTANCE,
                n == 2 * d + 1,
                -d <= x <= d,
                -d <= z <= d + 1,
                offsets.len() == (x + d) * n + (z + d),
                forall|i: int| 0 <= i < offsets.len() ==> #[trigger] offsets[i] == offset_at(d as int, i),
            decreases d + 1 - z,
        {
            proof {
                lemma_fundamental_div_mod_converse(offsets.len() as int, n as int, x + d, z + d);
                assert((x + d) * n + (z + d) < n * n) by (nonlinear_arith)
                    requires
                        0 <= x + d < n,
                        0 <= z + d < n,
                ;
                assert(n * n <= 32767 * 32767) by (nonlinear_arith)
                    requires
                        0 < n <= 32767,
                ;
            }
            offsets.push(IVec3 { x, y: 0, z });
            z += 1;
        }
        proof {
            assert((x + d) * n + n == (x + 1 + d) * n) by (nonlinear_arith);
        }
        x += 1;
    }
    offsets
}

/// The offset table of a view: the square of column offsets within
/// `radius / 16` chunks, then `(0, 0, 0)`.
#[derive(Debug, Clone)]
pub struct NeighbourOffest(pub Vec<IVec3>);

/// Builds the offset table for a view radius given in voxels.
pub fn generate_offset_resoure(radius: u32) -> (r: NeighbourOffest)
    requires
        radius / 16 <= MAX_CHUNK_DISTANCE,
    ensures
        ({
            let d = (radius / 16) as int;
            let n = (2 * d + 1) * (2 * d + 1);
            &&& r.0.len() == n + 1
            &&& forall|i: int| 0 <= i < n ==> #[trigger] r.0[i] == offset_at(d, i)
            &&& r.0[n] == IVec3 { x: 0, y: 0, z: 0 }
        }),
{
    let chunk_distance = (radius / 16) as i32;
    let mut offsets = generate_offset_array_with_y_0(chunk_distance);
    offsets.push(IVec3::zero());
    NeighbourOffest(offsets)
}

/// A position in world voxels and a radius around it.
#[derive(Debug, Clone, Copy, PartialEq, Eq, Structural)]
pub struct Sphere3 {
    pub center: IVec3,
    pub radius: u32,
}

/// Whether every component of every offset stays within `MAX_OFFSET`.
pub open spec fn offsets_in_range(offsets: Seq<IVec3>) -> bool {
    forall|i: int|
        0 <= i < offsets.len() ==> {
            &&& -MAX_OFFSET <= #[trigger] offsets[i].x <= MAX_OFFSET
            &&& -MAX_OFFSET <= offsets[i].y <= MAX_OFFSET
            &&& -MAX_OFFSET <= offsets[i].z <= MAX_OFFSET
        }
}

/// `center` moved by `o`.
pub open spec fn offset_key(center: IVec3, o: IVec3) -> ChunkKey {
    ChunkKey(
        IVec3 {
            x: (center.x + o.x) as i32,
            y: (center.y + o.y) as i32,
            z: (center.z + o.z) as i32,
        },
    )
}

/// The column keys around the sphere's centre, one for each offset, in the
/// offsets' order.
pub open spec fn view_keys(sphere: Sphere3, offsets: Seq<IVec3>) -> Seq<ChunkKey> {
    offsets.map_values(|o: IVec3| offset_key(column_of(sphere.center), o))
}

/// Every chunk key of the columns around the sphere's centre: for each
/// offset, the layers from `LAYER_MIN` upward.
pub open spec fn full_height_keys(sphere: Sphere3, offsets: Seq<IVec3>) -> Seq<ChunkKey> {
    Seq::new(
        (LAYER_COUNT * offsets.len()) as nat,
        |i: int|
            {
                let c = offset_key(column_of(sphere.center), offsets[i / LAYER_COUNT as int]);
                ChunkKey(IVec3 { x: c.0.x, y: (c.0.y + LAYER_MIN + i % LAYER_COUNT as int) as i32, z: c.0.z })
            },
    )
}

fn add_offset(center: IVec3, o: IVec3) -> (r: ChunkKey)
    requires
        -0x800_0001 <= center.x <= 0x800_0001,
        -0x800_0001 <= center.y <= 0x800_0001,
        -0x800_0001 <= center.z <= 0x800_0001,
        -MAX_OFFSET <= o.x <= MAX_OFFSET,
        -MAX_OFFSET <= o.y <= MAX_OFFSET,
        -MAX_OFFSET <= o.z <= MAX_OFFSET,
    ensures
        r == offset_key(center, o),
{
    ChunkKey(IVec3 { x: center.x + o.x, y: center.y + o.y, z: center.z + o.z })
}

/// The column key of the sphere's centre.
pub fn column_center(sphere: Sphere3) -> (r: IVec3)
    ensures
        r == column_of(sphere.center),
        -0x800_0001 <= r.x <= 0x800_0001,
        r.y == 0,
        -0x800_0001 <= r.z <= 0x800_0001,
{
    let mut c = get_chunk_key_i3_by_vec3(sphere.center);
    c.y = 0;
    c
}

/// The column keys around the sphere's centre, one for each offset.
pub fn find_chunk_keys_array_by_shpere_y_0(sphere: Sphere3, offsets: &Vec<IVec3>) -> (r: Vec<ChunkKey>)
    requires
        offsets_in_range(offsets@),
    ensures
        r@ == view_keys(sphere, offsets@),
{
    let center = column_center(sphere);
    let mut keys: Vec<ChunkKey> = Vec::new();
    let mut i: usize = 0;
    while i < offsets.len()
        invariant
            offsets_in_range(offsets@),
            center == column_of(sphere.center),
            -0x800_0001 <= center.x <= 0x800_0001,
            center.y == 0,
            -0x800_0001 <= center.z <= 0x800_0001,
            i <= offsets.len(),
            keys@ =~= view_keys(sphere, offsets@).take(i as int),
        decreases offsets.len() - i,
    {
        keys.push(add_offset(center, offsets[i]));
        i += 1;
    }
    assert(view_keys(sphere, offsets@).take(i as int) =~= view_keys(sphere, offsets@));
    keys
}

/// Every chunk key of the columns around the sphere's centre, each column
/// from its lowest layer up.
pub fn find_chunk_keys_by_shpere_to_full_height(sphere: Sphere3, offsets: &Vec<IVec3>) -> (r: Vec<ChunkKey>)
    requires
        offsets_in_range(offsets@),
        offsets.len() * 16 <= usize::MAX,
    ensures
        r@ == full_height_keys(sphere, offsets@),
{
    let center = column_center(sphere);
    let mut keys: Vec<ChunkKey> = Vec::new();
    let mut i: usize = 0;
    while i < offsets.len()
        invariant
            offsets_in_range(offsets@),
            offsets.len() * 16 <= usize::MAX,
            center == column_of(sphere.center),
            -0x800_0001 <= center.x <= 0x800_0001,
            center.y == 0,
            -0x800_0001 <= center.z <= 0x800_0001,
            i <= offsets.len(),
            keys.len() == 16 * i,
            forall|j: int| 0 <= j < keys.len() ==> #[trigger] keys[j] == full_height_keys(sphere, offsets@)[j],
        decreases offsets.len() - i,
    {
        let c = add_offset(center, offsets[i]);
        let mut layer: i32 = 0;
        while layer < LAYER_COUNT
            invariant
                offsets_in_range(offsets@),
                offsets.len() * 16 <= usize::MAX,
                i < offsets.len(),
                c == offset_key(column_of(sphere.center), offsets@[i as int]),
                -MAX_OFFSET - 0x800_0001 <= c.0.y <= MAX_OFFSET + 0x800_0001,
                0 <= layer <= LAYER_COUNT,
                keys.len() == 16 * i + layer,
                forall|j: int| 0 <= j < keys.len() ==> #[trigger] keys[j] == full_height_keys(sphere, offsets@)[j],
            decreases LAYER_COUNT - layer,
        {
            proof {
                let j = 16 * i + layer;
                lemma_fundamental_div_mod_converse(j, 16, i as int, layer as int);
            }
            keys.push(ChunkKey(IVec3 { x: c.0.x, y: c.0.y + LAYER_MIN + layer, z: c.0.z }));
            layer += 1;
        }
        i += 1;
    }
    assert(keys@ =~= full_height_keys(sphere, offsets@));
    keys
}

/// The two spheres of consecutive ticks: last tick's and this tick's.
#[derive(Debug, Clone, Copy, PartialEq, Eq, Structural)]
pub struct ClipSpheres {
    pub old_sphere: Sphere3,
    pub new_sphere: Sphere3,
}

/// Every key in view of a sphere can name its side neighbours.
pub proof fn lemma_view_keys_in_range(sphere: Sphere3, offsets: Seq<IVec3>, i: int)
    requires
        offsets_in_range(offsets),
        0 <= i < offsets.len(),
    ensures
        view_keys(sphere, offsets)[i] == offset_key(column_of(sphere.center), offsets[i]),
        i32::MIN < view_keys(sphere, offsets)[i].0.x < i32::MAX,
        i32::MIN < view_keys(sphere, offsets)[i].0.z < i32::MAX,
        view_keys(sphere, offsets)[i].0.y == offsets[i].y,
{
    let c = column_of(sphere.center);
    assert(-0x800_0001 <= key_axis(sphere.center.x as int) <= 0x800_0001);
    assert(-0x800_0001 <= key_axis(sphere.center.z as int) <= 0x800_0001);
    assert(-MAX_OFFSET <= offsets[i].x <= MAX_OFFSET);
}

/// Moves the view to the observer's position, when there is an observer.
pub fn update_clip_shpere_system(clip_spheres: &mut ClipSpheres, position: Option<IVec3>)
    ensures
        position is None ==> *final(clip_spheres) == *old(clip_spheres),
        position is Some ==> *final(clip_spheres) == (ClipSpheres {
            old_sphere: old(clip_spheres).new_sphere,
            new_sphere: Sphere3 { center: position->Some_0, radius: VIEW_RADIUS },
        }),
{
    match position {
        Some(p) => {
            clip_spheres.old_sphere = clip_spheres.new_sphere;
            clip_spheres.new_sphere = Sphere3 { center: p, radius: VIEW_RADIUS };
        },
        None => {},
    }
}

/// The little-endian bytes of a signed 32-bit value.
pub open spec fn i32_bytes(v: i32) -> Seq<u8> {
    le_bytes((v as u32) as nat, 4)
}

/// The hash of a chunk key: std's default hasher fed the key's three
/// components in order.
pub open spec fn key_hash(k: ChunkKey) -> u64 {
    DefaultHasher::spec_finish(seq![i32_bytes(k.0.x), i32_bytes(k.0.y), i32_bytes(k.0.z)])
}

impl ChunkKey {
    /// The eight-byte name of this key in the chunk store: its hash, least
    /// significant byte first.
    pub fn as_u8_array(&self) -> (r: [u8; 8])
        ensures
            r@ == le_bytes(key_hash(*self) as nat, 8),
    {
        let mut hasher = DefaultHasher::new();
        let bx = u32_le_bytes(self.0.x as u32);
        let by = u32_le_bytes(self.0.y as u32);
        let bz = u32_le_bytes(self.0.z as u32);
        hasher.write(&bx);
        hasher.write(&by);
        hasher.write(&bz);
        let h = hasher.finish();
        proof {
            assert(hasher@ =~= seq![i32_bytes(self.0.x), i32_bytes(self.0.y), i32_bytes(self.0.z)]);
        }
        u64_le_bytes(h)
    }
}

} // verus!
