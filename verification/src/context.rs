//! The render context: one owner for the graph, the tables and the scene,
//! and the frame that runs over them.

use crate::binding::BindingEnv;
use crate::error::RenderError;
use crate::graph::model::{lemma_fresh_node_unreachable, GraphModel};
use crate::graph::RenderGraph;
use crate::material::MaterialTable;
use crate::node::{node_ran, NodeOutput, RenderNode};
use crate::pipeline::PipelineTable;
use crate::scene::Entity;
use crate::shader::ShaderStageLoader;
use vstd::prelude::*;

verus! {

/// Name of the main draw pass, which every context starts with.
pub const MAIN_PASS: &'static str = "main_pass";

/// One node's turn in a frame.
#[derive(Clone, Debug, PartialEq, Eq)]
pub struct FrameStep {
    /// Index of the node in the render graph.
    pub node: usize,
    pub output: NodeOutput,
}

/// What a frame did, node by node in execution order.
#[derive(Clone, Debug, PartialEq, Eq)]
pub struct FrameReport {
    pub steps: Vec<FrameStep>,
}

/// The nodes of `steps`, in order.
pub open spec fn step_nodes(steps: Seq<FrameStep>) -> Seq<usize> {
    Seq::new(steps.len(), |k: int| steps[k].node)
}

/// Owner of everything a frame reads and writes.
pub struct RenderContext {
    pub graph: RenderGraph<RenderNode>,
    pub shaders: ShaderStageLoader,
    pub pipelines: PipelineTable,
    pub materials: MaterialTable,
    pub entities: Vec<Entity>,
}

impl RenderContext {
    /// Every part is well-formed and node 0 is the main pass.
    pub open spec fn wf(&self) -> bool {
        &&& self.graph.wf()
        &&& self.shaders.wf()
        &&& self.materials.wf()
        &&& self.graph@.names.len() > 0
        &&& self.graph@.names[0] == MAIN_PASS@
    }

    /// What the nodes of a frame read.
    pub open spec fn env(&self) -> BindingEnv {
        BindingEnv {
            materials: self.materials@,
            pipelines: self.pipelines@,
            loader: self.shaders@,
        }
    }

    /// A context whose graph holds the main pass and nothing else, with empty
    /// tables and an empty scene.
    pub fn new() -> (c: Self)
        ensures
            c.wf(),
            c.graph@ == GraphModel::empty().with_node(MAIN_PASS@),
            c.graph.payloads() == seq![RenderNode::MainPass],
            c.shaders@ == crate::shader::LoaderModel::empty(),
            c.pipelines@ == Seq::<crate::pipeline::Pipeline>::empty(),
            c.materials@ == crate::material::TableModel::empty(),
            c.entities@ == Seq::<Entity>::empty(),
    {
        let mut graph: RenderGraph<RenderNode> = RenderGraph::new();
        let _ = graph.add_node(MAIN_PASS, RenderNode::MainPass);
        RenderContext {
            graph,
            shaders: ShaderStageLoader::new(),
            pipelines: PipelineTable::new(),
            materials: MaterialTable::new(),
            entities: Vec::new(),
        }
    }

    /// Registers `node` under `name` and makes it execute before the main
    /// pass. Fails with `DuplicateNode` when the name is taken, and then
    /// changes nothing.
    pub fn insert_before_main_pass(&mut self, name: &str, node: RenderNode) -> (r: Result<
        usize,
        RenderError,
    >)
        requires
            old(self).wf(),
        ensures
            final(self).wf(),
            r == old(self).graph@.add_node_result(name@),
            final(self).graph@ == if r is Ok {
                old(self).graph@.with_node(name@).with_edge(
                    old(self).graph@.names.len() as int,
                    0,
                )
            } else {
                old(self).graph@
            },
            final(self).graph.payloads() == if r is Ok {
                old(self).graph.payloads().push(node)
            } else {
                old(self).graph.payloads()
            },
            final(self).shaders == old(self).shaders,
            final(self).pipelines == old(self).pipelines,
            final(self).materials == old(self).materials,
            final(self).entities == old(self).entities,
    {
        let id = match self.graph.add_node(name, node) {
            Ok(id) => id,
            Err(e) => {
                return Err(e);
            },
        };
        proof {
            let g = old(self).graph@;
            lemma_fresh_node_unreachable(g, name@, 0);
            crate::names::lemma_position_unique(self.graph@.names, name@, id as int);
            crate::names::lemma_position_unique(self.graph@.names, MAIN_PASS@, 0);
        }
        match self.graph.add_edge(name, MAIN_PASS) {
            Ok(()) => Ok(id),
            Err(e) => Err(e),
        }
    }

    /// Adds an entity to the scene and answers its index.
    pub fn spawn(&mut self, entity: Entity) -> (id: usize)
        requires
            old(self).wf(),
        ensures
            final(self).wf(),
            id == old(self).entities@.len(),
            final(self).entities@ == old(self).entities@.push(entity),
            final(self).graph == old(self).graph,
            final(self).shaders == old(self).shaders,
            final(self).pipelines == old(self).pipelines,
            final(self).materials == old(self).materials,
    {
        let id = self.entities.len();
        self.entities.push(entity);
        id
    }

    /// Runs one frame: every node of the graph executes once, in an order
    /// that honours every edge, over the scene and the tables as they stand.
    /// When all nodes have run the binding pass is over and no material is
    /// dirty any more.
    pub fn run_frame(&mut self) -> (report: FrameReport)
        requires
            old(self).wf(),
        ensures
            final(self).wf(),
            final(self).graph@ == old(self).graph@,
            final(self).shaders == old(self).shaders,
            final(self).pipelines == old(self).pipelines,
            final(self).entities == old(self).entities,
            final(self).materials@ == old(self).materials@.after_clear_dirty(),
            final(self).graph.payloads().len() == old(self).graph.payloads().len(),
            old(self).graph@.is_execution_order(step_nodes(report.steps@)),
            forall|k: int|
                0 <= k < report.steps.len() ==> node_ran(
                    old(self).graph.payloads()[(#[trigger] report.steps[k]).node as int],
                    old(self).env(),
                    old(self).entities@,
                    final(self).graph.payloads()[report.steps[k].node as int],
                    report.steps[k].output,
                ),
    {
        let order = self.graph.execution_order();
        let ghost env = self.env();
        let ghost start = self.graph.payloads();
        let mut steps: Vec<FrameStep> = Vec::new();
        let mut k: usize = 0;
        while k < order.len()
            invariant
                self.wf(),
                self.graph@ == old(self).graph@,
                self.shaders == old(self).shaders,
                self.pipelines == old(self).pipelines,
                self.entities == old(self).entities,
                self.materials == old(self).materials,
                env == old(self).env(),
                start == old(self).graph.payloads(),
                self.graph@.is_execution_order(order@),
                k <= order.len(),
                steps.len() == k,
                self.graph.payloads().len() == start.len(),
                forall|j: int| 0 <= j < k ==> (#[trigger] steps[j]).node == order[j],
                forall|j: int|
                    0 <= j < k ==> node_ran(
                        start[(#[trigger] steps[j]).node as int],
                        env,
                        self.entities@,
                        self.graph.payloads()[steps[j].node as int],
                        steps[j].output,
                    ),
                forall|v: int|
                    0 <= v < start.len() && (forall|j: int| 0 <= j < k ==> order[j] != v)
                        ==> self.graph.payloads()[v] == start[v],
            decreases order.len() - k,
        {
            let id = order[k];
            let ghost held = self.graph.payloads();
            let ghost done = steps@;
            assert(held[id as int] == start[id as int]);
            let mut node = RenderNode::MainPass;
            let taken = self.graph.swap_node(id, &mut node);
            let output = node.per_frame_execute(
                &self.entities,
                &self.materials,
                &self.pipelines,
                &self.shaders,
            );
            let ghost ran = node;
            let restored = self.graph.swap_node(id, &mut node);
            steps.push(FrameStep { node: id, output });
            proof {
                assert(self.graph.payloads() == held.update(id as int, ran));
                assert forall|j: int| 0 <= j < k + 1 implies node_ran(
                    start[(#[trigger] steps[j]).node as int],
                    env,
                    self.entities@,
                    self.graph.payloads()[steps[j].node as int],
                    steps[j].output,
                ) by {
                    if j < k {
                        assert(steps[j] == done[j]);
                        assert(order[j] != order[k as int]);
                    }
                }
                assert forall|j: int| 0 <= j < k + 1 implies (#[trigger] steps[j]).node
                    == order[j] by {
                    if j < k {
                        assert(steps[j] == done[j]);
                    }
                }
            }
            k += 1;
        }
        self.materials.clear_dirty();
        proof {
            assert(step_nodes(steps@) =~= order@);
        }
        FrameReport { steps }
    }
}

} // verus!
