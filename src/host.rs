//! Names under which a host engine wires the terrain core into its frame
//! schedule and its scene.
use vstd::prelude::*;

verus! {

/// Frame phase of the mesh pipeline: draining finished mesh tasks.
#[allow(non_camel_case_types)]
#[derive(Debug, Clone, Copy, PartialEq, Eq, Hash, Structural)]
pub enum MeshSystem {
    UPDATE_MESH,
}

/// Frame phases of the collider pipeline, in the order they run: dispatch
/// collider tasks, install finished colliders, evict colliders out of view.
#[allow(non_camel_case_types)]
#[derive(Debug, Clone, Copy, PartialEq, Eq, Hash, Structural)]
pub enum ColliderSystem {
    COLLIDER_TASK,
    COLLIDER_SPAWN,
    COLLIDER_DESPAWN,
}

/// Frame phases of the observer's controller, in the order they run.
#[allow(non_camel_case_types)]
#[derive(Debug, Clone, Copy, PartialEq, Eq, Hash, Structural)]
pub enum ControllerSet {
    INPUT_TO_EVENT,
    INPUT_TO_LOOK,
    FORWARD_UP,
}

/// Marks the static collider entity of a terrain column.
#[derive(Debug, Clone, Copy, PartialEq, Eq, Structural)]
pub struct TerrainPhysics;

/// The collider pipeline as a unit of host wiring: its three phases run
/// after the mesh drain phase.
#[derive(Debug, Clone, Copy, PartialEq, Eq, Structural)]
pub struct TerrainPhysicsPlugin;

/// The edit-command pipeline as a unit of host wiring: clicks become
/// commands during the frame, commands are applied in its last phase.
#[derive(Debug, Clone, Copy, PartialEq, Eq, Structural)]
pub struct ChunkCommandsPlugin;

/// The ray-cast collaborator as a unit of host wiring: it supplies the
/// voxel under the cursor and the voxel in front of it.
#[derive(Debug, Clone, Copy, PartialEq, Eq, Structural)]
pub struct MyRayCastPlugin;

/// Marks the observer whose position drives the clip spheres.
#[derive(Debug, Clone, Copy, PartialEq, Eq, Structural)]
pub struct PlayerMe;

/// Marks the observer's controller.
#[derive(Debug, Clone, Copy, PartialEq, Eq, Structural)]
pub struct PlayerController;

/// Marks the wireframe cube drawn around the voxel under the cursor.
#[derive(Debug, Clone, Copy, PartialEq, Eq, Structural)]
pub struct HelpCube;

/// Marks the observer's body.
#[derive(Debug, Clone, Copy, PartialEq, Eq, Structural)]
pub struct BodyTag;

/// Marks the part of the observer that turns left and right.
#[derive(Debug, Clone, Copy, PartialEq, Eq, Structural)]
pub struct YawTag;

/// Marks the observer's head.
#[derive(Debug, Clone, Copy, PartialEq, Eq, Structural)]
pub struct HeadTag;

/// Marks the observer's camera, from which clicks are ray-cast.
#[derive(Debug, Clone, Copy, PartialEq, Eq, Structural)]
pub struct CameraTag;

} // verus!
