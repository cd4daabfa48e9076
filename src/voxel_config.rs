use vstd::prelude::*;
use std::collections::HashMap;
use crate::voxel::{GRASS_ID, SOIL_ID, STONE_ID};

verus! {

broadcast use vstd::std_specs::hash::group_hash_axioms;

/// One texture: its place in the texture array and its file.
#[derive(Debug, Clone)]
pub struct VoxelConfig {
    pub index: u32,
    pub path: String,
}

/// The textures of one voxel type: a default, and overrides per face.
#[derive(Debug, Clone)]
pub struct VoxelTypeConfig {
    pub name: String,
    pub type_ch_name: String,
    pub default: VoxelConfig,
    pub normal: HashMap<u8, VoxelConfig>,
}

/// The material catalogue: the textures of each voxel type, and the
/// texture files in array order.
#[derive(Debug, Clone)]
pub struct MaterailConfiguration {
    pub voxels: HashMap<u8, VoxelTypeConfig>,
    pub files: Vec<String>,
}

/// Texture index for face `normal` of voxel type `t`: the face's override,
/// else the type's default, else `0` for an unknown type.
pub open spec fn texture_index(cfg: MaterailConfiguration, normal: u8, t: u8) -> u32 {
    if cfg.voxels@.contains_key(t) {
        let c = cfg.voxels@[t];
        if c.normal@.contains_key(normal) {
            c.normal@[normal].index
        } else {
            c.default.index
        }
    } else {
        0
    }
}

/// Whether the catalogue knows type `id`.
pub open spec fn knows(cfg: MaterailConfiguration, id: u8) -> bool {
    cfg.voxels@.contains_key(id)
}

fn type_entry(name: &str, ch_name: &str) -> (r: VoxelTypeConfig)
    ensures
        r.default.index == 0,
        r.normal@.is_empty(),
{
    VoxelTypeConfig {
        name: name.to_string(),
        type_ch_name: ch_name.to_string(),
        default: VoxelConfig { index: 0, path: String::new() },
        normal: HashMap::new(),
    }
}

impl MaterailConfiguration {
    /// An empty catalogue.
    pub fn new() -> (r: MaterailConfiguration)
        ensures
            r.voxels@.is_empty(),
            r.files@.len() == 0,
    {
        MaterailConfiguration { voxels: HashMap::new(), files: Vec::new() }
    }

    /// Adds stone, soil and grass, each with texture 0 and no overrides,
    /// where the catalogue does not know them yet.
    pub fn load_all_voxels(self) -> (r: MaterailConfiguration)
        ensures
            r.files@ == self.files@,
            r.voxels@.dom() == self.voxels@.dom().insert(STONE_ID).insert(SOIL_ID).insert(GRASS_ID),
            forall|id: u8| #[trigger] knows(self, id) ==> r.voxels@[id] == self.voxels@[id],
            forall|id: u8, f: u8|
                !knows(self, id) && (id == STONE_ID || id == SOIL_ID || id == GRASS_ID)
                    ==> #[trigger] texture_index(r, f, id) == 0,
    {
        let mut s = self;
        if !s.voxels.contains_key(&STONE_ID) {
            s.voxels.insert(STONE_ID, type_entry("Stone", "岩石块"));
        }
        if !s.voxels.contains_key(&SOIL_ID) {
            s.voxels.insert(SOIL_ID, type_entry("Soli", "土壤"));
        }
        if !s.voxels.contains_key(&GRASS_ID) {
            s.voxels.insert(GRASS_ID, type_entry("Grass", "草方块"));
        }
        assert(s.voxels@.dom() =~= self.voxels@.dom().insert(STONE_ID).insert(SOIL_ID).insert(GRASS_ID));
        s
    }

    /// Texture index for face `normal` of voxel type `volex_type`.
    pub fn find_volex_index(&self, normal: u8, volex_type: &u8) -> (r: u32)
        ensures
            r == texture_index(*self, normal, *volex_type),
    {
        match self.voxels.get(volex_type) {
            Some(config) => match config.normal.get(&normal) {
                Some(vconfig) => vconfig.index,
                None => config.default.index,
            },
            None => 0,
        }
    }
}

} // verus!
