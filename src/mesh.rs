use vstd::prelude::*;
use block_mesh::ndshape::ConstShape3u32;
use block_mesh::{greedy_quads, GreedyQuadsBuffer, RIGHT_HANDED_Y_UP_CONFIG};
use crate::chunk::{lemma_delinearize, linearize};
use crate::chunk_map::COLUMN_VOLUME;
use crate::voxel::{Voxel, EMPTY_ID, STONE_ID, WATER_ID};
use crate::voxel_config::{texture_index, MaterailConfiguration};

verus! {

/// A rectangle of faces produced by the greedy mesher, without its
/// orientation: its minimum voxel in the composite volume and its size.
#[derive(Debug, Clone, Copy, PartialEq, Eq)]
pub struct Quad {
    pub minimum: [u32; 3],
    pub width: u32,
    pub height: u32,
}

/// What block_mesh's greedy mesher returns for a composite column volume:
/// the quads of each of the six faces, in face order.
pub uninterp spec fn greedy_quad_groups(voxels: Seq<Voxel>) -> Seq<Seq<Quad>>;

/// Whether a quad's minimum lies inside the interior of the column volume.
pub open spec fn quad_in_interior(q: Quad) -> bool {
    &&& 1 <= q.minimum[0] <= 16
    &&& 1 <= q.minimum[1] <= 254
    &&& 1 <= q.minimum[2] <= 16
}

/// Axis of the normal of face `f` (0 = x, 1 = y, 2 = z): the faces are
/// -x, -y, -z, +x, +y, +z in that order.
pub open spec fn face_axis(f: int) -> int {
    f % 3
}

/// Direction of the normal of face `f` along its axis.
pub open spec fn face_sign(f: int) -> int {
    if f < 3 {
        -1
    } else {
        1
    }
}

/// Axis along which a quad of face `f` has its width.
pub open spec fn face_u(f: int) -> int {
    if f % 3 == 2 {
        0
    } else {
        2
    }
}

/// Axis along which a quad of face `f` has its height.
pub open spec fn face_v(f: int) -> int {
    if f % 3 == 1 {
        0
    } else {
        1
    }
}

/// Component `a` of `(x, y, z)`.
pub open spec fn on_axis(x: int, y: int, z: int, a: int) -> int {
    if a == 0 {
        x
    } else if a == 1 {
        y
    } else {
        z
    }
}

/// Component `a` of a quad's minimum.
pub open spec fn min_on(q: Quad, a: int) -> int {
    on_axis(q.minimum[0] as int, q.minimum[1] as int, q.minimum[2] as int, a)
}

/// Whether quad `q` of face `f` covers the face of voxel `(x, y, z)`.
pub open spec fn covers(q: Quad, f: int, x: int, y: int, z: int) -> bool {
    let n = face_axis(f);
    let u = face_u(f);
    let v = face_v(f);
    &&& on_axis(x, y, z, n) == min_on(q, n)
    &&& min_on(q, u) <= on_axis(x, y, z, u) < min_on(q, u) + q.width
    &&& min_on(q, v) <= on_axis(x, y, z, v) < min_on(q, v) + q.height
}

/// Voxel `(x, y, z)` of a composite volume.
pub open spec fn cell(voxels: Seq<Voxel>, x: int, y: int, z: int) -> Voxel {
    voxels[linearize(18, 256, x, y, z)]
}

/// Whether quad `q` of face `f` shows only faces that are really exposed:
/// every voxel it covers lies inside the interior, is solid, and has empty
/// space across the face.
pub open spec fn quad_exposed(voxels: Seq<Voxel>, f: int, q: Quad) -> bool {
    forall|x: int, y: int, z: int|
        #[trigger] covers(q, f, x, y, z) ==> {
            &&& 1 <= x <= 16 && 1 <= y <= 254 && 1 <= z <= 16
            &&& cell(voxels, x, y, z).id != EMPTY_ID
            &&& cell(
                voxels,
                x + if face_axis(f) == 0 { face_sign(f) } else { 0 },
                y + if face_axis(f) == 1 { face_sign(f) } else { 0 },
                z + if face_axis(f) == 2 { face_sign(f) } else { 0 },
            ).id == EMPTY_ID
        }
}

/// Whether every quad of every face group shows only exposed faces.
pub open spec fn groups_exposed(voxels: Seq<Voxel>, g: Seq<Seq<Quad>>) -> bool {
    forall|f: int, j: int| 0 <= f < 6 && 0 <= j < g[f].len() ==> quad_exposed(voxels, f, #[trigger] g[f][j])
}

/// Relies on block_mesh::greedy_quads over the whole `18 x 256 x 18` column
/// box with the right-handed y-up faces: one group of quads per face, every
/// quad's minimum inside the box shrunk by one voxel on each side, and no
/// quad at all when every voxel is empty. Every voxel a quad covers
/// passed `face_needs_mesh`: with this crate's visibility (empty exactly for
/// id 0, else opaque) it is solid and the voxel across the face is empty;
/// and a quad stays inside the interior slice it started in.
#[verifier::external_body]
fn greedy_quads_of(voxels: &Vec<Voxel>) -> (r: Vec<Vec<Quad>>)
    requires
        voxels.len() == COLUMN_VOLUME,
    ensures
        r@.len() == 6,
        r@.len() == greedy_quad_groups(voxels@).len(),
        forall|f: int| 0 <= f < 6 ==> #[trigger] r@[f]@ == greedy_quad_groups(voxels@)[f],
        forall|f: int|
            #![trigger r@[f]]
            0 <= f < 6 ==> (forall|j: int| 0 <= j < r@[f]@.len() ==> quad_in_interior(#[trigger] r@[f]@[j])),
        (forall|i: int| 0 <= i < voxels@.len() ==> #[trigger] voxels@[i].id == 0) ==> (forall|f: int| 0 <= f < 6 ==> #[trigger] r@[f]@.len() == 0),
        forall|f: int|
            #![trigger r@[f]]
            0 <= f < 6 ==> (forall|j: int| 0 <= j < r@[f]@.len() ==> quad_exposed(voxels@, f, #[trigger] r@[f]@[j])),
{
    let mut buffer = GreedyQuadsBuffer::new(voxels.len());
    greedy_quads(
        voxels.as_slice(),
        &ConstShape3u32::<18, 256, 18> {},
        [0; 3],
        [17, 255, 17],
        &RIGHT_HANDED_Y_UP_CONFIG.faces,
        &mut buffer,
    );
    buffer.quads.groups.iter().map(
        |g| g.iter().map(|q| Quad { minimum: q.minimum, width: q.width, height: q.height }).collect(),
    ).collect()
}

/// Flat index in the composite volume of a quad's minimum voxel.
pub open spec fn quad_index(q: Quad) -> int {
    linearize(18, 256, q.minimum[0] as int, q.minimum[1] as int, q.minimum[2] as int)
}

/// The per-vertex data word of a quad: face direction in the second byte,
/// texture index below.
pub open spec fn quad_word(face: int, tex: u32) -> u32 {
    ((face as u32) << 8u32) | tex
}

/// Texture of a quad of face `f`: looked up for `fixed` when given, else
/// for the quad's minimum voxel.
pub open spec fn quad_texture(voxels: Seq<Voxel>, cfg: MaterailConfiguration, f: int, q: Quad, fixed: Option<u8>) -> u32 {
    match fixed {
        Some(id) => texture_index(cfg, f as u8, id),
        None => texture_index(cfg, f as u8, voxels[quad_index(q)].id),
    }
}

/// Number of quads over the six faces.
pub open spec fn total_quads(g: Seq<Seq<Quad>>) -> int {
    (g[0].len() + g[1].len() + g[2].len() + g[3].len() + g[4].len() + g[5].len()) as int
}

/// The data words of every quad, grouped by face like the quads.
pub open spec fn mesh_words(g: Seq<Seq<Quad>>, voxels: Seq<Voxel>, cfg: MaterailConfiguration, fixed: Option<u8>) -> Seq<Seq<u32>> {
    Seq::new(6, |f: int| g[f].map_values(|q: Quad| quad_word(f, quad_texture(voxels, cfg, f, q, fixed))))
}

/// The mesh of a composite volume: no mesh when the mesher found no quad,
/// else its quads and their data words.
pub open spec fn mesh_of(voxels: Seq<Voxel>, cfg: MaterailConfiguration, fixed: Option<u8>) -> Option<(Seq<Seq<Quad>>, Seq<Seq<u32>>)> {
    mesh_of_groups(greedy_quad_groups(voxels), voxels, cfg, fixed)
}

/// The mesh made of quad groups `g` over a composite volume: no mesh when
/// there is no quad, else the quads and their data words.
pub open spec fn mesh_of_groups(
    g: Seq<Seq<Quad>>,
    voxels: Seq<Voxel>,
    cfg: MaterailConfiguration,
    fixed: Option<u8>,
) -> Option<(Seq<Seq<Quad>>, Seq<Seq<u32>>)> {
    if total_quads(g) == 0 {
        None
    } else {
        Some((g, mesh_words(g, voxels, cfg, fixed)))
    }
}

/// The quads of each face group.
pub open spec fn group_view(groups: Seq<Vec<Quad>>) -> Seq<Seq<Quad>> {
    groups.map_values(|v: Vec<Quad>| v@)
}

/// The terrain mesh of a composite volume.
pub open spec fn terrain_mesh(voxels: Seq<Voxel>, cfg: MaterailConfiguration) -> Option<(Seq<Seq<Quad>>, Seq<Seq<u32>>)> {
    mesh_of(voxels, cfg, None)
}

/// The water mesh of a water volume: every quad wears the water texture.
pub open spec fn water_mesh(voxels: Seq<Voxel>, cfg: MaterailConfiguration) -> Option<(Seq<Seq<Quad>>, Seq<Seq<u32>>)> {
    mesh_of(voxels, cfg, Some(WATER_ID))
}

/// The mesh of one column: its quads by face and the data word of each.
#[derive(Debug, Clone)]
pub struct ColumnMesh {
    pub quads: Vec<Vec<Quad>>,
    pub data: Vec<Vec<u32>>,
}

impl View for ColumnMesh {
    type V = (Seq<Seq<Quad>>, Seq<Seq<u32>>);

    open spec fn view(&self) -> (Seq<Seq<Quad>>, Seq<Seq<u32>>) {
        (self.quads@.map_values(|g: Vec<Quad>| g@), self.data@.map_values(|d: Vec<u32>| d@))
    }
}

/// The view of an optional mesh.
pub open spec fn mesh_view(m: Option<ColumnMesh>) -> Option<(Seq<Seq<Quad>>, Seq<Seq<u32>>)> {
    match m {
        Some(c) => Some(c@),
        None => None,
    }
}

fn column_linear(m: [u32; 3]) -> (r: usize)
    requires
        1 <= m[0] <= 16,
        1 <= m[1] <= 254,
        1 <= m[2] <= 16,
    ensures
        r == linearize(18, 256, m[0] as int, m[1] as int, m[2] as int),
        r < COLUMN_VOLUME,
{
    proof {
        lemma_delinearize(18, 256, 18, m[0] as int, m[1] as int, m[2] as int);
    }
    (m[0] + 18 * (m[1] + 256 * m[2])) as usize
}

/// Builds a column mesh from the mesher's quad groups: each quad's data
/// word holds its face and the texture of `fixed` when given, else of its
/// minimum voxel. No mesh when there is no quad.
pub fn mesh_from_groups(
    groups: Vec<Vec<Quad>>,
    voxels: &Vec<Voxel>,
    material_config: &MaterailConfiguration,
    fixed: Option<u8>,
) -> (r: Option<ColumnMesh>)
    requires
        voxels.len() == COLUMN_VOLUME,
        groups.len() == 6,
        forall|h: int|
            #![trigger groups@[h]]
            0 <= h < 6 ==> (forall|j: int| 0 <= j < groups@[h]@.len() ==> quad_in_interior(#[trigger] groups@[h]@[j])),
    ensures
        mesh_view(r) == mesh_of_groups(group_view(groups@), voxels@, *material_config, fixed),
        r is Some ==> r->Some_0.quads.len() == 6 && r->Some_0.data.len() == 6,
{
    let ghost g = group_view(groups@);
    let mut data: Vec<Vec<u32>> = Vec::new();
    let mut any = false;
    let mut f: usize = 0;
    while f < 6
        invariant
            voxels.len() == COLUMN_VOLUME,
            groups@.len() == 6,
            forall|h: int| 0 <= h < 6 ==> #[trigger] groups@[h]@ == g[h],
            forall|h: int|
                #![trigger groups@[h]]
                0 <= h < 6 ==> (forall|j: int| 0 <= j < groups@[h]@.len() ==> quad_in_interior(#[trigger] groups@[h]@[j])),
            f <= 6,
            data.len() == f,
            forall|h: int| 0 <= h < f ==> #[trigger] data@[h]@ == mesh_words(g, voxels@, *material_config, fixed)[h],
            any <==> exists|h: int| 0 <= h < f && #[trigger] g[h].len() > 0,
        decreases 6 - f,
    {
        let group = &groups[f];
        let mut words: Vec<u32> = Vec::new();
        let mut j: usize = 0;
        while j < group.len()
            invariant
                voxels.len() == COLUMN_VOLUME,
                f < 6,
                group@ == g[f as int],
                forall|k: int| 0 <= k < group@.len() ==> quad_in_interior(#[trigger] group@[k]),
                j <= group.len(),
                words.len() == j,
                forall|k: int| 0 <= k < j ==> #[trigger] words@[k] == quad_word(
                    f as int,
                    quad_texture(voxels@, *material_config, f as int, g[f as int][k], fixed),
                ),
            decreases group.len() - j,
        {
            let q = group[j];
            let id = match fixed {
                Some(id) => id,
                None => voxels[column_linear(q.minimum)].id,
            };
            let tex = material_config.find_volex_index(f as u8, &id);
            words.push(((f as u32) << 8u32) | tex);
            j += 1;
        }
        assert(words@ =~= mesh_words(g, voxels@, *material_config, fixed)[f as int]);
        if group.len() > 0 {
            any = true;
        }
        data.push(words);
        f += 1;
    }
    if !any {
        assert(total_quads(g) == 0) by {
            assert(g[0].len() == 0 && g[1].len() == 0 && g[2].len() == 0);
            assert(g[3].len() == 0 && g[4].len() == 0 && g[5].len() == 0);
        }
        None
    } else {
        assert(total_quads(g) != 0) by {
            let h = choose|h: int| 0 <= h < 6 && #[trigger] g[h].len() > 0;
            assert(g[h].len() > 0);
        }
        let mesh = ColumnMesh { quads: groups, data };
        assert(mesh@.0 =~= g);
        assert(total_quads(g) != 0);
        assert(mesh@.1 =~= mesh_words(g, voxels@, *material_config, fixed));
        Some(mesh)
    }
}

fn build_mesh(voxels: &Vec<Voxel>, material_config: &MaterailConfiguration, fixed: Option<u8>) -> (r: Option<ColumnMesh>)
    requires
        voxels.len() == COLUMN_VOLUME,
    ensures
        mesh_view(r) == mesh_of(voxels@, *material_config, fixed),
        r is Some ==> r->Some_0.quads.len() == 6 && r->Some_0.data.len() == 6,
        (forall|i: int| 0 <= i < voxels@.len() ==> #[trigger] voxels@[i].id == 0) ==> r is None,
        r is Some ==> groups_exposed(voxels@, r->Some_0@.0),
{
    let groups = greedy_quads_of(voxels);
    assert(group_view(groups@) =~= greedy_quad_groups(voxels@));
    assert(groups_exposed(voxels@, group_view(groups@))) by {
        assert forall|f: int, j: int| 0 <= f < 6 && 0 <= j < group_view(groups@)[f].len()
            implies quad_exposed(voxels@, f, #[trigger] group_view(groups@)[f][j]) by {
            assert(group_view(groups@)[f] == groups@[f]@);
        }
    }
    mesh_from_groups(groups, voxels, material_config, fixed)
}

/// The terrain mesh of a composite column volume: every solid voxel face
/// that borders empty space, merged greedily, each quad textured for its
/// minimum voxel and face. No mesh when there is no quad.
pub fn gen_mesh(voxels: &Vec<Voxel>, material_config: &MaterailConfiguration) -> (r: Option<ColumnMesh>)
    requires
        voxels.len() == COLUMN_VOLUME,
    ensures
        mesh_view(r) == terrain_mesh(voxels@, *material_config),
        r is Some ==> r->Some_0.quads.len() == 6 && r->Some_0.data.len() == 6,
        r is Some ==> groups_exposed(voxels@, r->Some_0@.0),
        (forall|i: int| 0 <= i < voxels@.len() ==> #[trigger] voxels@[i].id == 0) ==> r is None,
{
    build_mesh(voxels, material_config, None)
}

/// The water mesh of a water volume (see `pick_water`): like the terrain
/// mesh, but every quad wears the water texture.
pub fn gen_mesh_water(voxels: &Vec<Voxel>, material_config: &MaterailConfiguration) -> (r: Option<ColumnMesh>)
    requires
        voxels.len() == COLUMN_VOLUME,
    ensures
        mesh_view(r) == water_mesh(voxels@, *material_config),
        r is Some ==> r->Some_0.quads.len() == 6 && r->Some_0.data.len() == 6,
        r is Some ==> groups_exposed(voxels@, r->Some_0@.0),
        (forall|i: int| 0 <= i < voxels@.len() ==> #[trigger] voxels@[i].id == 0) ==> r is None,
{
    build_mesh(voxels, material_config, Some(WATER_ID))
}

/// The water volume of a volume: water becomes solid, everything else
/// empty.
pub open spec fn water_volume(voxels: Seq<Voxel>) -> Seq<Voxel> {
    voxels.map_values(|v: Voxel| if v.id == WATER_ID { Voxel { id: STONE_ID } } else { Voxel { id: EMPTY_ID } })
}

/// Turns every water voxel solid and every other voxel empty.
pub fn pick_water(voxels: Vec<Voxel>) -> (r: Vec<Voxel>)
    ensures
        r@ == water_volume(voxels@),
{
    let mut ret: Vec<Voxel> = Vec::new();
    let mut i: usize = 0;
    while i < voxels.len()
        invariant
            i <= voxels.len(),
            ret@ =~= water_volume(voxels@).take(i as int),
        decreases voxels.len() - i,
    {
        if voxels[i].id == WATER_ID {
            ret.push(Voxel::filled());
        } else {
            ret.push(Voxel::empty());
        }
        i += 1;
    }
    assert(water_volume(voxels@).take(i as int) =~= water_volume(voxels@));
    ret
}

} // verus!
