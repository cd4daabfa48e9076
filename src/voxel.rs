use vstd::prelude::*;
use block_mesh::{MergeVoxel, VoxelVisibility};

verus! {

/// How block_mesh treats a voxel when it decides which faces are visible.
#[verifier::external_type_specification]
pub struct ExVoxelVisibility(VoxelVisibility);

/// Id of empty space.
pub const EMPTY_ID: u8 = 0;

/// Id of stone; also the voxel placed by the player.
pub const STONE_ID: u8 = 1;

/// Id of soil.
pub const SOIL_ID: u8 = 2;

/// Id of grass.
pub const GRASS_ID: u8 = 3;

/// Id of snow.
pub const SNOW_ID: u8 = 4;

/// Id of water.
pub const WATER_ID: u8 = 5;

/// One cell of the voxel field; `id == 0` is empty space, every other id
/// names a solid material.
#[derive(Debug, Clone, Copy, PartialEq, Eq, Structural)]
pub struct Voxel {
    pub id: u8,
}

impl Voxel {
    /// Whether this voxel is solid for the terrain mesh.
    pub open spec fn spec_is_opaque(self) -> bool {
        self.id != EMPTY_ID
    }

    /// Empty space.
    pub fn empty() -> (r: Voxel)
        ensures
            r.id == EMPTY_ID,
    {
        Voxel { id: EMPTY_ID }
    }

    /// The generic solid voxel (stone).
    pub fn filled() -> (r: Voxel)
        ensures
            r.id == STONE_ID,
    {
        Voxel { id: STONE_ID }
    }

    /// Whether this voxel is solid for the terrain mesh.
    pub fn is_opaque(&self) -> (r: bool)
        ensures
            r == self.spec_is_opaque(),
    {
        self.id != EMPTY_ID
    }
}

impl Default for Voxel {
    fn default() -> (r: Voxel)
        ensures
            r.id == EMPTY_ID,
    {
        Voxel { id: EMPTY_ID }
    }
}

impl block_mesh::Voxel for Voxel {
    fn get_visibility(&self) -> VoxelVisibility {
        if self.id > 0 {
            return VoxelVisibility::Opaque;
        }
        VoxelVisibility::Empty
    }
}

impl MergeVoxel for Voxel {
    type MergeValue = u8;

    fn merge_value(&self) -> u8 {
        self.id
    }
}

/// A named material with a fixed voxel id.
pub trait VoxelMaterial {
    /// The voxel id of this material.
    spec fn spec_id() -> u8;

    /// The voxel id of this material.
    fn id() -> (r: u8)
        ensures
            r == Self::spec_id(),
    ;

    /// The voxel that holds this material.
    fn into_voxel() -> (r: Voxel)
        ensures
            r.id == Self::spec_id(),
    ;
}

/// Empty space.
pub struct Empty;

/// Stone.
pub struct Stone;

/// Soil.
pub struct Soli;

/// Grass.
pub struct Grass;

/// Snow.
pub struct Sown;

/// Water.
pub struct Water;

impl VoxelMaterial for Empty {
    open spec fn spec_id() -> u8 {
        EMPTY_ID
    }

    fn id() -> (r: u8) {
        EMPTY_ID
    }

    fn into_voxel() -> (r: Voxel) {
        Voxel { id: EMPTY_ID }
    }
}

impl VoxelMaterial for Stone {
    open spec fn spec_id() -> u8 {
        STONE_ID
    }

    fn id() -> (r: u8) {
        STONE_ID
    }

    fn into_voxel() -> (r: Voxel) {
        Voxel { id: STONE_ID }
    }
}

impl VoxelMaterial for Soli {
    open spec fn spec_id() -> u8 {
        SOIL_ID
    }

    fn id() -> (r: u8) {
        SOIL_ID
    }

    fn into_voxel() -> (r: Voxel) {
        Voxel { id: SOIL_ID }
    }
}

impl VoxelMaterial for Grass {
    open spec fn spec_id() -> u8 {
        GRASS_ID
    }

    fn id() -> (r: u8) {
        GRASS_ID
    }

    fn into_voxel() -> (r: Voxel) {
        Voxel { id: GRASS_ID }
    }
}

impl VoxelMaterial for Sown {
    open spec fn spec_id() -> u8 {
        SNOW_ID
    }

    fn id() -> (r: u8) {
        SNOW_ID
    }

    fn into_voxel() -> (r: Voxel) {
        Voxel { id: SNOW_ID }
    }
}

impl VoxelMaterial for Water {
    open spec fn spec_id() -> u8 {
        WATER_ID
    }

    fn id() -> (r: u8) {
        WATER_ID
    }

    fn into_voxel() -> (r: Voxel) {
        Voxel { id: WATER_ID }
    }
}

} // verus!
