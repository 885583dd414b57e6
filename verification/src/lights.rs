//! The light aggregation node: all lights of the scene, packed into one
//! bounded uniform block.
//!
//! The block has room for a fixed number of records. Lights are taken in
//! entity order until the block is full; the rest are dropped, which is the
//! documented behaviour and not an error.

use crate::material::Rgb;
use crate::pipeline::{pipeline_declares, PipelineHandle, PipelineTable};
use crate::scene::{lemma_lights_of_step, lights_of, Entity, LightDescriptor, Point3};
use crate::shader::ShaderStageLoader;
use vstd::prelude::*;

verus! {

/// Room for lights in the uniform block of the cel-shading pipeline.
pub const MAX_LIGHTS: usize = 10;

/// One light as the fragment stage reads it.
#[derive(Clone, Copy, Debug, PartialEq, Eq)]
pub struct LightRecord {
    pub position: Point3,
    pub color: Rgb,
    pub intensity: u32,
}

/// The uniform record of a light.
pub open spec fn packed(light: LightDescriptor) -> LightRecord {
    LightRecord { position: light.position, color: light.color, intensity: light.intensity }
}

/// The record of an unused place in the block: all bits zero.
pub open spec fn blank_record() -> LightRecord {
    LightRecord {
        position: Point3 { x: 0, y: 0, z: 0 },
        color: Rgb { r: 0, g: 0, b: 0 },
        intensity: 0,
    }
}

/// How many of `lights` fit a block of `capacity` records.
pub open spec fn active_count(lights: Seq<LightDescriptor>, capacity: nat) -> nat {
    if lights.len() <= capacity {
        lights.len()
    } else {
        capacity
    }
}

/// The record array of a block of `capacity` records that aggregates
/// `lights`: the first lights in order, then blanks.
pub open spec fn aggregated(lights: Seq<LightDescriptor>, capacity: nat) -> Seq<LightRecord> {
    Seq::new(
        capacity,
        |i: int|
            if i < lights.len() {
                packed(lights[i])
            } else {
                blank_record()
            },
    )
}

/// However many lights are active, the block's count never exceeds its
/// capacity, and with more lights than places it is exactly the capacity.
pub proof fn lemma_count_is_capped(lights: Seq<LightDescriptor>, capacity: nat)
    ensures
        active_count(lights, capacity) <= capacity,
        aggregated(lights, capacity).len() == capacity,
        lights.len() > capacity ==> active_count(lights, capacity) == capacity,
        lights.len() <= capacity ==> active_count(lights, capacity) == lights.len(),
{
}

/// Packs a light into its uniform record.
pub fn pack(light: &LightDescriptor) -> (r: LightRecord)
    ensures
        r == packed(*light),
{
    LightRecord { position: light.position, color: light.color, intensity: light.intensity }
}

/// The light aggregation node with its uniform block.
pub struct LightAggregationNode {
    slot: u32,
    count: usize,
    records: Vec<LightRecord>,
}

impl LightAggregationNode {
    /// The binding slot under which shaders find the block.
    pub closed spec fn slot(&self) -> u32 {
        self.slot
    }

    /// Number of records the block has room for.
    pub closed spec fn capacity(&self) -> nat {
        self.records@.len()
    }

    /// The block's active-count field.
    pub closed spec fn count(&self) -> nat {
        self.count as nat
    }

    /// The block's record array.
    pub closed spec fn records(&self) -> Seq<LightRecord> {
        self.records@
    }

    /// The block holds the aggregate of `lights`.
    pub open spec fn holds(&self, lights: Seq<LightDescriptor>) -> bool {
        &&& self.count() == active_count(lights, self.capacity())
        &&& self.records() == aggregated(lights, self.capacity())
    }

    /// A node whose block is found under `slot`, has room for `capacity`
    /// lights and holds none.
    pub fn new(slot: u32, capacity: usize) -> (n: Self)
        ensures
            n.slot() == slot,
            n.capacity() == capacity,
            n.holds(Seq::empty()),
    {
        let blank = LightRecord {
            position: Point3 { x: 0, y: 0, z: 0 },
            color: Rgb { r: 0, g: 0, b: 0 },
            intensity: 0,
        };
        let mut records: Vec<LightRecord> = Vec::new();
        let mut i: usize = 0;
        while i < capacity
            invariant
                i <= capacity,
                records.len() == i,
                blank == blank_record(),
                forall|j: int| 0 <= j < i ==> records[j] == blank_record(),
            decreases capacity - i,
        {
            records.push(blank);
            i += 1;
        }
        assert(records@ =~= aggregated(Seq::empty(), capacity as nat));
        LightAggregationNode { slot, count: 0, records }
    }

    /// The binding slot under which shaders find the block.
    pub fn binding_slot(&self) -> (s: u32)
        ensures
            s == self.slot(),
    {
        self.slot
    }

    /// Whether the block is available to the pipeline behind `h`: it is to
    /// every pipeline that declares the block's binding slot.
    pub fn serves(&self, pipelines: &PipelineTable, loader: &ShaderStageLoader, h: PipelineHandle) -> (r:
        bool)
        ensures
            r == pipeline_declares(loader@, pipelines@, h, self.slot()),
    {
        pipelines.declares(loader, h, self.slot)
    }

    /// Number of records the block has room for.
    pub fn max_lights(&self) -> (n: usize)
        ensures
            n == self.capacity(),
    {
        self.records.len()
    }

    /// The block's active-count field.
    pub fn light_count(&self) -> (n: usize)
        ensures
            n == self.count(),
    {
        self.count
    }

    /// Record `i` of the block; `None` past the block's end.
    pub fn record(&self, i: usize) -> (r: Option<LightRecord>)
        ensures
            r == if i < self.capacity() {
                Some(self.records()[i as int])
            } else {
                None
            },
    {
        if i < self.records.len() {
            Some(self.records[i])
        } else {
            None
        }
    }

    /// Collects the lights among `entities` into the block, in entity order,
    /// and answers the active count. Lights beyond the capacity are dropped;
    /// places no light fills are blanked. The block keeps its size.
    pub fn execute(&mut self, entities: &Vec<Entity>) -> (active: usize)
        ensures
            final(self).slot() == old(self).slot(),
            final(self).capacity() == old(self).capacity(),
            final(self).holds(lights_of(entities@)),
            active == final(self).count(),
    {
        let capacity = self.records.len();
        let mut stored: usize = 0;
        let mut i: usize = 0;
        while i < entities.len()
            invariant
                i <= entities.len(),
                self.slot == old(self).slot,
                self.records.len() == capacity,
                stored == active_count(lights_of(entities@.take(i as int)), capacity as nat),
                forall|j: int|
                    0 <= j < stored ==> self.records[j] == packed(
                        lights_of(entities@.take(i as int))[j],
                    ),
            decreases entities.len() - i,
        {
            proof {
                lemma_lights_of_step(entities@, i as int);
            }
            match entities[i] {
                Entity::Light(light) => {
                    if stored < capacity {
                        self.records.set(stored, pack(&light));
                        stored += 1;
                    }
                },
                _ => {},
            }
            i += 1;
        }
        assert(entities@.take(entities.len() as int) =~= entities@);
        let ghost lights = lights_of(entities@);
        let mut j: usize = stored;
        while j < capacity
            invariant
                stored <= j <= capacity,
                self.slot == old(self).slot,
                self.records.len() == capacity,
                stored == active_count(lights, capacity as nat),
                forall|k: int| 0 <= k < stored ==> self.records[k] == packed(lights[k]),
                forall|k: int| stored <= k < j ==> self.records[k] == blank_record(),
            decreases capacity - j,
        {
            self.records.set(
                j,
                LightRecord {
                    position: Point3 { x: 0, y: 0, z: 0 },
                    color: Rgb { r: 0, g: 0, b: 0 },
                    intensity: 0,
                },
            );
            j += 1;
        }
        self.count = stored;
        assert(self.records@ =~= aggregated(lights, capacity as nat));
        stored
    }
}

} // verus!
