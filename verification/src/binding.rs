//! The material binding node: once per frame, the fields of every material
//! instance that an entity has not seen yet are written to the entity's
//! binding slot.
//!
//! An upload is owed to an entity when its handle resolves, its pipeline
//! declares the node's slot, and either the entity was last given another
//! instance or the instance was mutated since the last pass. Entities that
//! share an instance each get their own upload. An entity whose upload cannot
//! be made is skipped, and the reason is reported the first time only.

use crate::error::RenderError;
use crate::material::{MaterialHandle, MaterialInstance, MaterialTable, TableModel};
use crate::pipeline::{pipeline_declares, Pipeline, PipelineTable};
use crate::scene::Entity;
use crate::shader::{LoaderModel, ShaderStageLoader};
use vstd::prelude::*;

verus! {

/// One write of a material's fields into an entity's binding slot.
#[derive(Clone, Copy, Debug, PartialEq, Eq)]
pub struct Upload {
    pub entity: usize,
    pub slot: u32,
    pub fields: MaterialInstance,
}

/// Why an entity was skipped.
#[derive(Clone, Debug, PartialEq, Eq)]
pub struct Diagnostic {
    pub entity: usize,
    pub error: RenderError,
}

/// What the node remembers of one entity.
#[derive(Clone, Copy, Debug, PartialEq, Eq)]
pub struct EntityBinding {
    /// The handle whose fields the entity's slot was last given.
    pub bound: Option<MaterialHandle>,
    /// Whether a skip of this entity has been reported already.
    pub reported: bool,
}

/// What one pass produced.
#[derive(Clone, Debug, PartialEq, Eq)]
pub struct BindingPass {
    pub uploads: Vec<Upload>,
    pub diagnostics: Vec<Diagnostic>,
}

/// What a binding pass reads besides the entities.
pub struct BindingEnv {
    pub materials: TableModel,
    pub pipelines: Seq<Pipeline>,
    pub loader: LoaderModel,
}

/// How an entity stands towards the node in one frame.
pub enum Situation {
    /// The entity carries no material.
    Idle,
    /// The upload cannot be made.
    Failed(RenderError),
    /// The handle resolves and the slot is declared.
    Ready { handle: MaterialHandle, fields: MaterialInstance, dirty: bool },
}

/// An entity the node has never looked at.
pub open spec fn untracked() -> EntityBinding {
    EntityBinding { bound: None, reported: false }
}

/// What the node remembers of entity `e`.
pub open spec fn track_of(tracks: Seq<EntityBinding>, e: int) -> EntityBinding {
    if 0 <= e < tracks.len() {
        tracks[e]
    } else {
        untracked()
    }
}

/// How `entity` stands towards a node that fills `slot`.
pub open spec fn situation(env: BindingEnv, slot: u32, entity: Entity) -> Situation {
    match entity {
        Entity::Mesh(m) => {
            if !env.materials.live(m.material) {
                Situation::Failed(RenderError::StaleHandle)
            } else if !pipeline_declares(env.loader, env.pipelines, m.pipeline, slot) {
                Situation::Failed(RenderError::BindingSlotMissing)
            } else {
                Situation::Ready {
                    handle: m.material,
                    fields: env.materials.slots[m.material.index as int].instance->Some_0,
                    dirty: env.materials.slots[m.material.index as int].dirty,
                }
            }
        },
        _ => Situation::Idle,
    }
}

/// An upload is owed: the entity is ready, and its slot was last given
/// another instance or the instance is dirty.
pub open spec fn uploads_now(track: EntityBinding, sit: Situation) -> bool {
    sit matches Situation::Ready { handle, dirty, .. } && (track.bound != Some(handle) || dirty)
}

/// A skip is reported: the upload cannot be made and no skip of this entity
/// was reported before.
pub open spec fn reports_now(track: EntityBinding, sit: Situation) -> bool {
    sit is Failed && !track.reported
}

/// What the node remembers of an entity after looking at it.
pub open spec fn track_after(track: EntityBinding, sit: Situation) -> EntityBinding {
    match sit {
        Situation::Idle => track,
        Situation::Failed(_) => EntityBinding { bound: track.bound, reported: true },
        Situation::Ready { handle, .. } => EntityBinding {
            bound: Some(handle),
            reported: track.reported,
        },
    }
}

/// The uploads of one pass over `entities`, in entity order.
pub open spec fn pass_uploads(
    tracks: Seq<EntityBinding>,
    env: BindingEnv,
    slot: u32,
    entities: Seq<Entity>,
) -> Seq<Upload>
    decreases entities.len(),
{
    if entities.len() == 0 {
        Seq::empty()
    } else {
        let before = pass_uploads(tracks, env, slot, entities.drop_last());
        let e = entities.len() - 1;
        let sit = situation(env, slot, entities.last());
        if uploads_now(track_of(tracks, e), sit) {
            before.push(Upload { entity: e as usize, slot, fields: sit->fields })
        } else {
            before
        }
    }
}

/// The diagnostics of one pass over `entities`, in entity order.
pub open spec fn pass_diagnostics(
    tracks: Seq<EntityBinding>,
    env: BindingEnv,
    slot: u32,
    entities: Seq<Entity>,
) -> Seq<Diagnostic>
    decreases entities.len(),
{
    if entities.len() == 0 {
        Seq::empty()
    } else {
        let before = pass_diagnostics(tracks, env, slot, entities.drop_last());
        let e = entities.len() - 1;
        let sit = situation(env, slot, entities.last());
        if reports_now(track_of(tracks, e), sit) {
            before.push(Diagnostic { entity: e as usize, error: sit->Failed_0 })
        } else {
            before
        }
    }
}

/// What the node remembers after one pass over `entities`.
pub open spec fn pass_tracks(
    tracks: Seq<EntityBinding>,
    env: BindingEnv,
    slot: u32,
    entities: Seq<Entity>,
) -> Seq<EntityBinding> {
    Seq::new(
        if tracks.len() >= entities.len() {
            tracks.len()
        } else {
            entities.len()
        },
        |e: int|
            if e < entities.len() {
                track_after(track_of(tracks, e), situation(env, slot, entities[e]))
            } else {
                tracks[e]
            },
    )
}

/// Looking at one more entity appends what that entity is owed.
pub proof fn lemma_pass_step(
    tracks: Seq<EntityBinding>,
    env: BindingEnv,
    slot: u32,
    entities: Seq<Entity>,
    i: int,
)
    requires
        0 <= i < entities.len(),
    ensures
        pass_uploads(tracks, env, slot, entities.take(i + 1)) == {
            let before = pass_uploads(tracks, env, slot, entities.take(i));
            let sit = situation(env, slot, entities[i]);
            if uploads_now(track_of(tracks, i), sit) {
                before.push(Upload { entity: i as usize, slot, fields: sit->fields })
            } else {
                before
            }
        },
        pass_diagnostics(tracks, env, slot, entities.take(i + 1)) == {
            let before = pass_diagnostics(tracks, env, slot, entities.take(i));
            let sit = situation(env, slot, entities[i]);
            if reports_now(track_of(tracks, i), sit) {
                before.push(Diagnostic { entity: i as usize, error: sit->Failed_0 })
            } else {
                before
            }
        },
{
    assert(entities.take(i + 1).drop_last() =~= entities.take(i));
}

/// Every entity that is owed an upload gets it in the pass, with the fields
/// the table holds at that moment.
pub proof fn lemma_owed_upload_is_made(
    tracks: Seq<EntityBinding>,
    env: BindingEnv,
    slot: u32,
    entities: Seq<Entity>,
    e: int,
)
    requires
        0 <= e < entities.len(),
        uploads_now(track_of(tracks, e), situation(env, slot, entities[e])),
    ensures
        pass_uploads(tracks, env, slot, entities).contains(
            Upload { entity: e as usize, slot, fields: situation(env, slot, entities[e])->fields },
        ),
    decreases entities.len(),
{
    let all = pass_uploads(tracks, env, slot, entities);
    let wanted = Upload {
        entity: e as usize,
        slot,
        fields: situation(env, slot, entities[e])->fields,
    };
    if e == entities.len() - 1 {
        assert(all.last() == wanted);
    } else {
        let shorter = entities.drop_last();
        assert(shorter[e] == entities[e]);
        lemma_owed_upload_is_made(tracks, env, slot, shorter, e);
        let before = pass_uploads(tracks, env, slot, shorter);
        let k = choose|k: int| 0 <= k < before.len() && before[k] == wanted;
        assert(all[k] == wanted);
    }
}

/// After an instance is mutated, the next pass uploads the new fields for
/// every entity that holds its handle and whose pipeline declares the slot,
/// however many entities share the instance and whatever each was given
/// before: no holder keeps a stale copy past that frame.
pub proof fn lemma_mutation_reaches_every_holder(
    tracks: Seq<EntityBinding>,
    env: BindingEnv,
    slot: u32,
    entities: Seq<Entity>,
    h: MaterialHandle,
    fields: MaterialInstance,
    e: int,
)
    requires
        env.materials.live(h),
        0 <= e < entities.len(),
        entities[e] matches Entity::Mesh(m) && m.material == h && pipeline_declares(
            env.loader,
            env.pipelines,
            m.pipeline,
            slot,
        ),
    ensures
        ({
            let mutated = BindingEnv {
                materials: env.materials.after_update(h, fields),
                pipelines: env.pipelines,
                loader: env.loader,
            };
            &&& pass_uploads(tracks, mutated, slot, entities).contains(
                Upload { entity: e as usize, slot, fields },
            )
            &&& pass_tracks(tracks, mutated, slot, entities)[e].bound == Some(h)
        }),
{
    let mutated = BindingEnv {
        materials: env.materials.after_update(h, fields),
        pipelines: env.pipelines,
        loader: env.loader,
    };
    lemma_owed_upload_is_made(tracks, mutated, slot, entities, e);
}

/// The material binding node.
pub struct MaterialBindingNode {
    slot: u32,
    tracks: Vec<EntityBinding>,
}

impl MaterialBindingNode {
    /// The binding slot this node fills.
    pub closed spec fn slot(&self) -> u32 {
        self.slot
    }

    /// What the node remembers, by entity.
    pub closed spec fn tracks(&self) -> Seq<EntityBinding> {
        self.tracks@
    }

    /// A node that fills `slot` and has looked at no entity yet.
    pub fn new(slot: u32) -> (n: Self)
        ensures
            n.slot() == slot,
            n.tracks() == Seq::<EntityBinding>::empty(),
    {
        MaterialBindingNode { slot, tracks: Vec::new() }
    }

    /// The binding slot this node fills.
    pub fn binding_slot(&self) -> (s: u32)
        ensures
            s == self.slot(),
    {
        self.slot
    }

    /// What the node remembers of `entity`.
    pub fn track(&self, entity: usize) -> (t: EntityBinding)
        ensures
            t == track_of(self.tracks(), entity as int),
    {
        if entity < self.tracks.len() {
            self.tracks[entity]
        } else {
            EntityBinding { bound: None, reported: false }
        }
    }

    /// How `entity` stands towards this node.
    fn assess(
        &self,
        entity: &Entity,
        materials: &MaterialTable,
        pipelines: &PipelineTable,
        loader: &ShaderStageLoader,
    ) -> (sit: Situation)
        ensures
            sit == situation(
                BindingEnv { materials: materials@, pipelines: pipelines@, loader: loader@ },
                self.slot(),
                *entity,
            ),
    {
        match entity {
            Entity::Mesh(m) => {
                match materials.get(m.material) {
                    Err(_) => Situation::Failed(RenderError::StaleHandle),
                    Ok(fields) => {
                        if !pipelines.declares(loader, m.pipeline, self.slot) {
                            Situation::Failed(RenderError::BindingSlotMissing)
                        } else {
                            Situation::Ready {
                                handle: m.material,
                                fields,
                                dirty: materials.is_dirty(m.material),
                            }
                        }
                    },
                }
            },
            _ => Situation::Idle,
        }
    }

    /// Runs one binding pass over `entities`.
    ///
    /// Answers the uploads and the diagnostics of the pass, both in entity
    /// order, and remembers for every entity what it was given and whether a
    /// skip of it has been reported. The tables are only read.
    pub fn execute(
        &mut self,
        entities: &Vec<Entity>,
        materials: &MaterialTable,
        pipelines: &PipelineTable,
        loader: &ShaderStageLoader,
    ) -> (pass: BindingPass)
        ensures
            final(self).slot() == old(self).slot(),
            ({
                let env = BindingEnv {
                    materials: materials@,
                    pipelines: pipelines@,
                    loader: loader@,
                };
                &&& pass.uploads@ == pass_uploads(old(self).tracks(), env, old(self).slot(), entities@)
                &&& pass.diagnostics@ == pass_diagnostics(
                    old(self).tracks(),
                    env,
                    old(self).slot(),
                    entities@,
                )
                &&& final(self).tracks() == pass_tracks(
                    old(self).tracks(),
                    env,
                    old(self).slot(),
                    entities@,
                )
            }),
    {
        let ghost env = BindingEnv { materials: materials@, pipelines: pipelines@, loader: loader@ };
        let ghost before = self.tracks@;
        while self.tracks.len() < entities.len()
            invariant
                self.slot == old(self).slot,
                self.tracks.len() >= before.len(),
                self.tracks.len() == before.len() || self.tracks.len() <= entities.len(),
                forall|e: int| 0 <= e < self.tracks.len() ==> self.tracks[e] == track_of(before, e),
            decreases entities.len() - self.tracks.len(),
        {
            self.tracks.push(EntityBinding { bound: None, reported: false });
        }
        let mut uploads: Vec<Upload> = Vec::new();
        let mut diagnostics: Vec<Diagnostic> = Vec::new();
        let mut i: usize = 0;
        while i < entities.len()
            invariant
                i <= entities.len(),
                self.slot == old(self).slot,
                env == (BindingEnv { materials: materials@, pipelines: pipelines@, loader: loader@ }),
                before == old(self).tracks@,
                self.tracks.len() >= entities.len(),
                self.tracks.len() >= before.len(),
                self.tracks.len() == before.len() || self.tracks.len() == entities.len(),
                forall|e: int|
                    0 <= e < i ==> self.tracks[e] == track_after(
                        track_of(before, e),
                        situation(env, self.slot, entities[e]),
                    ),
                forall|e: int| i <= e < self.tracks.len() ==> self.tracks[e] == track_of(before, e),
                uploads@ == pass_uploads(before, env, self.slot, entities@.take(i as int)),
                diagnostics@ == pass_diagnostics(before, env, self.slot, entities@.take(i as int)),
            decreases entities.len() - i,
        {
            proof {
                lemma_pass_step(before, env, self.slot, entities@, i as int);
            }
            let track = self.tracks[i];
            match self.assess(&entities[i], materials, pipelines, loader) {
                Situation::Idle => {},
                Situation::Failed(error) => {
                    if !track.reported {
                        diagnostics.push(Diagnostic { entity: i, error });
                    }
                    self.tracks.set(i, EntityBinding { bound: track.bound, reported: true });
                },
                Situation::Ready { handle, fields, dirty } => {
                    let same = match track.bound {
                        Some(b) => b.index == handle.index && b.generation == handle.generation,
                        None => false,
                    };
                    if !same || dirty {
                        uploads.push(Upload { entity: i, slot: self.slot, fields });
                    }
                    self.tracks.set(
                        i,
                        EntityBinding { bound: Some(handle), reported: track.reported },
                    );
                },
            }
            i += 1;
        }
        proof {
            assert(entities@.take(entities.len() as int) =~= entities@);
            assert(self.tracks@ =~= pass_tracks(before, env, self.slot, entities@));
        }
        BindingPass { uploads, diagnostics }
    }
}

} // verus!
