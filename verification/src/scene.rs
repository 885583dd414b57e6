//! Entities: the camera, the lights and the meshes of a scene.
//!
//! An entity is an index into the scene's list; what it carries decides which
//! render node looks at it.

use crate::material::{MaterialHandle, Rgb};
use crate::pipeline::PipelineHandle;
use vstd::prelude::*;

verus! {

/// A point in space. Each coordinate holds the bit pattern of a 32-bit float.
#[derive(Clone, Copy, Debug, PartialEq, Eq)]
pub struct Point3 {
    pub x: u32,
    pub y: u32,
    pub z: u32,
}

/// A light source: where it is and how it shines. `intensity` holds the bit
/// pattern of a 32-bit float.
#[derive(Clone, Copy, Debug, PartialEq, Eq)]
pub struct LightDescriptor {
    pub position: Point3,
    pub color: Rgb,
    pub intensity: u32,
}

/// A drawable: a mesh asset placed in space, drawn with a pipeline and the
/// material instance behind a handle.
#[derive(Clone, Copy, Debug, PartialEq, Eq)]
pub struct MeshInstance {
    /// The mesh asset, as the asset store numbers it.
    pub mesh: u32,
    pub position: Point3,
    pub pipeline: PipelineHandle,
    pub material: MaterialHandle,
}

/// A camera: where it stands and what it looks at.
#[derive(Clone, Copy, Debug, PartialEq, Eq)]
pub struct Camera {
    pub eye: Point3,
    pub target: Point3,
}

/// What an entity carries.
#[derive(Clone, Copy, Debug, PartialEq, Eq)]
pub enum Entity {
    Camera(Camera),
    Light(LightDescriptor),
    Mesh(MeshInstance),
}

/// The light descriptors among `entities`, in entity order.
pub open spec fn lights_of(entities: Seq<Entity>) -> Seq<LightDescriptor>
    decreases entities.len(),
{
    if entities.len() == 0 {
        Seq::empty()
    } else {
        let before = lights_of(entities.drop_last());
        match entities.last() {
            Entity::Light(light) => before.push(light),
            _ => before,
        }
    }
}

/// Looking at one more entity appends its light, if it is one.
pub proof fn lemma_lights_of_step(entities: Seq<Entity>, i: int)
    requires
        0 <= i < entities.len(),
    ensures
        lights_of(entities.take(i + 1)) == match entities[i] {
            Entity::Light(light) => lights_of(entities.take(i)).push(light),
            _ => lights_of(entities.take(i)),
        },
{
    assert(entities.take(i + 1).drop_last() =~= entities.take(i));
}

/// There are no more lights than entities.
pub proof fn lemma_lights_of_len(entities: Seq<Entity>)
    ensures
        lights_of(entities).len() <= entities.len(),
    decreases entities.len(),
{
    if entities.len() > 0 {
        lemma_lights_of_len(entities.drop_last());
    }
}

} // verus!
