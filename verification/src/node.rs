//! The closed set of render-graph nodes and their per-frame work.

use crate::binding::{
    pass_diagnostics, pass_tracks, pass_uploads, BindingEnv, BindingPass, MaterialBindingNode,
};
use crate::lights::LightAggregationNode;
use crate::material::MaterialTable;
use crate::pipeline::{resolve_result, Pipeline, PipelineHandle, PipelineTable};
use crate::scene::{lights_of, Entity};
use crate::shader::ShaderStageLoader;
use vstd::prelude::*;

verus! {

/// One draw of the main pass: an entity and the pipeline it is drawn with.
#[derive(Clone, Copy, Debug, PartialEq, Eq)]
pub struct DrawCall {
    pub entity: usize,
    pub pipeline: PipelineHandle,
}

/// A node of the render graph.
pub enum RenderNode {
    /// The main draw pass.
    MainPass,
    /// Uploads material fields to binding slots.
    MaterialBinding(MaterialBindingNode),
    /// Collects the lights into a uniform block.
    LightAggregation(LightAggregationNode),
}

/// What a node produced in one frame.
#[derive(Clone, Debug, PartialEq, Eq)]
pub enum NodeOutput {
    /// The draws of the main pass, in entity order.
    Drawn(Vec<DrawCall>),
    /// The uploads and diagnostics of a binding pass.
    Bound(BindingPass),
    /// The active count of the light block.
    Lit(usize),
}

/// The draws of the main pass: every mesh whose pipeline resolves, in entity
/// order.
pub open spec fn draws_of(pipelines: Seq<Pipeline>, entities: Seq<Entity>) -> Seq<DrawCall>
    decreases entities.len(),
{
    if entities.len() == 0 {
        Seq::empty()
    } else {
        let before = draws_of(pipelines, entities.drop_last());
        match entities.last() {
            Entity::Mesh(m) => if resolve_result(pipelines, m.pipeline) is Some {
                before.push(
                    DrawCall { entity: (entities.len() - 1) as usize, pipeline: m.pipeline },
                )
            } else {
                before
            },
            _ => before,
        }
    }
}

/// Looking at one more entity appends its draw, if it has one.
pub proof fn lemma_draws_of_step(pipelines: Seq<Pipeline>, entities: Seq<Entity>, i: int)
    requires
        0 <= i < entities.len(),
    ensures
        draws_of(pipelines, entities.take(i + 1)) == match entities[i] {
            Entity::Mesh(m) => if resolve_result(pipelines, m.pipeline) is Some {
                draws_of(pipelines, entities.take(i)).push(
                    DrawCall { entity: i as usize, pipeline: m.pipeline },
                )
            } else {
                draws_of(pipelines, entities.take(i))
            },
            _ => draws_of(pipelines, entities.take(i)),
        },
{
    assert(entities.take(i + 1).drop_last() =~= entities.take(i));
}

/// `after` and `output` are what `before` leaves behind and produces when it
/// runs over `entities` in the environment `env`.
pub open spec fn node_ran(
    before: RenderNode,
    env: BindingEnv,
    entities: Seq<Entity>,
    after: RenderNode,
    output: NodeOutput,
) -> bool {
    match before {
        RenderNode::MainPass => {
            &&& after is MainPass
            &&& output matches NodeOutput::Drawn(draws)
            &&& draws@ == draws_of(env.pipelines, entities)
        },
        RenderNode::MaterialBinding(b) => {
            &&& after matches RenderNode::MaterialBinding(a)
            &&& a.slot() == b.slot()
            &&& a.tracks() == pass_tracks(b.tracks(), env, b.slot(), entities)
            &&& output matches NodeOutput::Bound(pass)
            &&& pass.uploads@ == pass_uploads(b.tracks(), env, b.slot(), entities)
            &&& pass.diagnostics@ == pass_diagnostics(b.tracks(), env, b.slot(), entities)
        },
        RenderNode::LightAggregation(l) => {
            &&& after matches RenderNode::LightAggregation(a)
            &&& a.slot() == l.slot()
            &&& a.capacity() == l.capacity()
            &&& a.holds(lights_of(entities))
            &&& output matches NodeOutput::Lit(active)
            &&& active == a.count()
        },
    }
}

/// The draws of the main pass.
pub fn collect_draws(entities: &Vec<Entity>, pipelines: &PipelineTable) -> (draws: Vec<DrawCall>)
    ensures
        draws@ == draws_of(pipelines@, entities@),
{
    let mut draws: Vec<DrawCall> = Vec::new();
    let mut i: usize = 0;
    while i < entities.len()
        invariant
            i <= entities.len(),
            draws@ == draws_of(pipelines@, entities@.take(i as int)),
        decreases entities.len() - i,
    {
        proof {
            lemma_draws_of_step(pipelines@, entities@, i as int);
        }
        match entities[i] {
            Entity::Mesh(m) => {
                if pipelines.resolve(m.pipeline).is_some() {
                    draws.push(DrawCall { entity: i, pipeline: m.pipeline });
                }
            },
            _ => {},
        }
        i += 1;
    }
    assert(entities@.take(entities.len() as int) =~= entities@);
    draws
}

impl RenderNode {
    /// Does the node's work for one frame and answers what it produced.
    pub fn per_frame_execute(
        &mut self,
        entities: &Vec<Entity>,
        materials: &MaterialTable,
        pipelines: &PipelineTable,
        loader: &ShaderStageLoader,
    ) -> (output: NodeOutput)
        ensures
            node_ran(
                *old(self),
                BindingEnv { materials: materials@, pipelines: pipelines@, loader: loader@ },
                entities@,
                *final(self),
                output,
            ),
    {
        match self {
            RenderNode::MainPass => NodeOutput::Drawn(collect_draws(entities, pipelines)),
            RenderNode::MaterialBinding(node) => NodeOutput::Bound(
                node.execute(entities, materials, pipelines, loader),
            ),
            RenderNode::LightAggregation(node) => NodeOutput::Lit(node.execute(entities)),
        }
    }
}

} // verus!
