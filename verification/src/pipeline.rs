//! The pipeline descriptor builder: two compiled stages plus fixed-function
//! state, assembled once and addressed by a stable handle.

use crate::error::RenderError;
use crate::shader::{CompiledStage, LoaderModel, ShaderStageHandle, ShaderStageLoader, StageKind, StageVar};
use vstd::prelude::*;

verus! {

/// Depth comparison applied to every fragment.
#[derive(Clone, Copy, Debug, PartialEq, Eq)]
pub enum DepthTest {
    Disabled,
    Less,
    LessEqual,
    Greater,
    Always,
}

/// Which triangle faces the rasterizer discards.
#[derive(Clone, Copy, Debug, PartialEq, Eq)]
pub enum CullMode {
    Disabled,
    Front,
    Back,
}

/// How a fragment combines with what the target holds.
#[derive(Clone, Copy, Debug, PartialEq, Eq)]
pub enum BlendMode {
    Opaque,
    Alpha,
    Additive,
}

/// The fixed-function state of a pipeline.
#[derive(Clone, Copy, Debug, PartialEq, Eq)]
pub struct FixedFunctionState {
    pub depth_test: DepthTest,
    pub cull_mode: CullMode,
    pub blend: BlendMode,
}

/// The caller's wishes for the fixed-function state: a field left `None`
/// takes the engine default.
#[derive(Clone, Copy, Debug, PartialEq, Eq)]
pub struct StateOverrides {
    pub depth_test: Option<DepthTest>,
    pub cull_mode: Option<CullMode>,
    pub blend: Option<BlendMode>,
}

/// An assembled pipeline.
#[derive(Clone, Copy, Debug, PartialEq, Eq)]
pub struct Pipeline {
    pub vertex: ShaderStageHandle,
    pub fragment: ShaderStageHandle,
    pub state: FixedFunctionState,
}

/// Reference to a pipeline held by a [`PipelineTable`].
#[derive(Clone, Copy, Debug, PartialEq, Eq)]
pub struct PipelineHandle {
    pub index: usize,
}

/// The engine defaults: standard depth test, back-face culling, opaque
/// blending.
pub open spec fn engine_defaults() -> FixedFunctionState {
    FixedFunctionState {
        depth_test: DepthTest::Less,
        cull_mode: CullMode::Back,
        blend: BlendMode::Opaque,
    }
}

/// The engine defaults with the caller's overrides applied on top.
pub open spec fn resolved_state(overrides: StateOverrides) -> FixedFunctionState {
    FixedFunctionState {
        depth_test: match overrides.depth_test {
            Some(d) => d,
            None => engine_defaults().depth_test,
        },
        cull_mode: match overrides.cull_mode {
            Some(c) => c,
            None => engine_defaults().cull_mode,
        },
        blend: match overrides.blend {
            Some(b) => b,
            None => engine_defaults().blend,
        },
    }
}

/// `var` is among `vars`.
pub open spec fn provides(vars: Seq<StageVar>, var: StageVar) -> bool {
    exists|j: int| 0 <= j < vars.len() && #[trigger] vars[j] == var
}

/// The stages fit together: the first is a vertex stage, the second a
/// fragment stage, and every variable the fragment stage reads is written by
/// the vertex stage at the same location in the same format.
pub open spec fn stages_link(vertex: CompiledStage, fragment: CompiledStage) -> bool {
    &&& vertex.kind == StageKind::Vertex
    &&& fragment.kind == StageKind::Fragment
    &&& forall|i: int|
        0 <= i < fragment.inputs@.len() ==> provides(vertex.outputs@, #[trigger] fragment.inputs@[i])
}

/// `slot` is among `slots`.
pub open spec fn lists_slot(slots: Seq<u32>, slot: u32) -> bool {
    exists|j: int| 0 <= j < slots.len() && #[trigger] slots[j] == slot
}

/// What building a pipeline from `vertex` and `fragment` answers when the
/// table already holds `count` pipelines.
pub open spec fn build_result(
    loader: LoaderModel,
    count: nat,
    vertex: ShaderStageHandle,
    fragment: ShaderStageHandle,
) -> Result<PipelineHandle, RenderError> {
    if !loader.resolves(vertex) || !loader.resolves(fragment) {
        Err(RenderError::AssetNotFound)
    } else if !stages_link(
        loader.stages[vertex.index as int],
        loader.stages[fragment.index as int],
    ) {
        Err(RenderError::StageLinkError)
    } else {
        Ok(PipelineHandle { index: count as usize })
    }
}

/// The table after an attempt to build a pipeline: one entry longer on
/// success, untouched on failure.
pub open spec fn after_build(
    loader: LoaderModel,
    table: Seq<Pipeline>,
    vertex: ShaderStageHandle,
    fragment: ShaderStageHandle,
    overrides: StateOverrides,
) -> Seq<Pipeline> {
    if build_result(loader, table.len(), vertex, fragment) is Ok {
        table.push(Pipeline { vertex, fragment, state: resolved_state(overrides) })
    } else {
        table
    }
}

/// What resolving `h` answers.
pub open spec fn resolve_result(table: Seq<Pipeline>, h: PipelineHandle) -> Option<Pipeline> {
    if h.index < table.len() {
        Some(table[h.index as int])
    } else {
        None
    }
}

/// The pipeline behind `h` declares the binding slot `slot`: the pipeline and
/// both its stages resolve, and one of the stages lists the slot.
pub open spec fn pipeline_declares(
    loader: LoaderModel,
    table: Seq<Pipeline>,
    h: PipelineHandle,
    slot: u32,
) -> bool {
    &&& h.index < table.len()
    &&& loader.resolves(table[h.index as int].vertex)
    &&& loader.resolves(table[h.index as int].fragment)
    &&& {
        ||| lists_slot(loader.stages[table[h.index as int].vertex.index as int].bindings@, slot)
        ||| lists_slot(loader.stages[table[h.index as int].fragment.index as int].bindings@, slot)
    }
}

/// Building a pipeline and resolving the handle right away gives back exactly
/// the two stages that went in, with the engine defaults wherever the caller
/// overrode nothing and the caller's choice wherever they did. Pipelines built
/// earlier are not disturbed.
pub proof fn lemma_build_then_resolve(
    loader: LoaderModel,
    table: Seq<Pipeline>,
    vertex: ShaderStageHandle,
    fragment: ShaderStageHandle,
    overrides: StateOverrides,
)
    requires
        table.len() <= usize::MAX,
        build_result(loader, table.len(), vertex, fragment) is Ok,
    ensures
        ({
            let h = build_result(loader, table.len(), vertex, fragment)->Ok_0;
            let built = resolve_result(after_build(loader, table, vertex, fragment, overrides), h);
            &&& built is Some
            &&& built->Some_0.vertex == vertex
            &&& built->Some_0.fragment == fragment
            &&& overrides.depth_test is None ==> built->Some_0.state.depth_test == DepthTest::Less
            &&& overrides.cull_mode is None ==> built->Some_0.state.cull_mode == CullMode::Back
            &&& overrides.blend is None ==> built->Some_0.state.blend == BlendMode::Opaque
            &&& overrides.depth_test matches Some(d) ==> built->Some_0.state.depth_test == d
            &&& overrides.cull_mode matches Some(c) ==> built->Some_0.state.cull_mode == c
            &&& overrides.blend matches Some(b) ==> built->Some_0.state.blend == b
        }),
        forall|earlier: PipelineHandle|
            earlier.index < table.len() ==> resolve_result(
                after_build(loader, table, vertex, fragment, overrides),
                earlier,
            ) == resolve_result(table, earlier),
{
}

impl FixedFunctionState {
    /// The engine defaults.
    pub fn engine_default() -> (s: Self)
        ensures
            s == engine_defaults(),
    {
        FixedFunctionState {
            depth_test: DepthTest::Less,
            cull_mode: CullMode::Back,
            blend: BlendMode::Opaque,
        }
    }
}

impl StateOverrides {
    /// No override: every field takes the engine default.
    pub fn none() -> (o: Self)
        ensures
            o == (StateOverrides { depth_test: None, cull_mode: None, blend: None }),
            resolved_state(o) == engine_defaults(),
    {
        StateOverrides { depth_test: None, cull_mode: None, blend: None }
    }

    /// The engine defaults with these overrides applied on top.
    pub fn resolve(&self) -> (s: FixedFunctionState)
        ensures
            s == resolved_state(*self),
    {
        let defaults = FixedFunctionState::engine_default();
        FixedFunctionState {
            depth_test: match self.depth_test {
                Some(d) => d,
                None => defaults.depth_test,
            },
            cull_mode: match self.cull_mode {
                Some(c) => c,
                None => defaults.cull_mode,
            },
            blend: match self.blend {
                Some(b) => b,
                None => defaults.blend,
            },
        }
    }
}

/// Whether `var` is among `vars`.
fn var_provided(vars: &Vec<StageVar>, var: StageVar) -> (r: bool)
    ensures
        r == provides(vars@, var),
{
    let mut j: usize = 0;
    while j < vars.len()
        invariant
            j <= vars.len(),
            forall|k: int| 0 <= k < j ==> vars[k] != var,
        decreases vars.len() - j,
    {
        if vars[j].location == var.location && vars[j].format == var.format {
            assert(vars@[j as int] == var);
            return true;
        }
        j += 1;
    }
    false
}

/// Whether `slot` is among `slots`.
pub fn slot_listed(slots: &Vec<u32>, slot: u32) -> (r: bool)
    ensures
        r == lists_slot(slots@, slot),
{
    let mut j: usize = 0;
    while j < slots.len()
        invariant
            j <= slots.len(),
            forall|k: int| 0 <= k < j ==> slots[k] != slot,
        decreases slots.len() - j,
    {
        if slots[j] == slot {
            assert(slots@[j as int] == slot);
            return true;
        }
        j += 1;
    }
    false
}

/// Whether a vertex and a fragment stage fit together.
pub fn check_link(vertex: &CompiledStage, fragment: &CompiledStage) -> (r: bool)
    ensures
        r == stages_link(*vertex, *fragment),
{
    match vertex.kind {
        StageKind::Vertex => {},
        StageKind::Fragment => {
            return false;
        },
    }
    match fragment.kind {
        StageKind::Fragment => {},
        StageKind::Vertex => {
            return false;
        },
    }
    let mut i: usize = 0;
    while i < fragment.inputs.len()
        invariant
            i <= fragment.inputs.len(),
            vertex.kind == StageKind::Vertex,
            fragment.kind == StageKind::Fragment,
            forall|k: int|
                0 <= k < i ==> provides(vertex.outputs@, #[trigger] fragment.inputs@[k]),
        decreases fragment.inputs.len() - i,
    {
        if !var_provided(&vertex.outputs, fragment.inputs[i]) {
            return false;
        }
        i += 1;
    }
    true
}

/// The table of assembled pipelines.
pub struct PipelineTable {
    pipelines: Vec<Pipeline>,
}

impl View for PipelineTable {
    type V = Seq<Pipeline>;

    closed spec fn view(&self) -> Seq<Pipeline> {
        self.pipelines@
    }
}

impl PipelineTable {
    /// A table without pipelines.
    pub fn new() -> (t: Self)
        ensures
            t@ == Seq::<Pipeline>::empty(),
    {
        PipelineTable { pipelines: Vec::new() }
    }

    /// Number of pipelines built so far.
    pub fn count(&self) -> (n: usize)
        ensures
            n == self@.len(),
    {
        self.pipelines.len()
    }

    /// Assembles a pipeline from two loaded stages and the fixed-function
    /// state: the engine defaults, then the caller's overrides.
    ///
    /// Fails with `AssetNotFound` when a handle refers to no stage of
    /// `loader`, and with `StageLinkError` when the stages do not fit
    /// together; the mismatch is found here, not at the first draw. A failed
    /// build leaves the table as it was.
    pub fn build(
        &mut self,
        loader: &ShaderStageLoader,
        vertex: ShaderStageHandle,
        fragment: ShaderStageHandle,
        overrides: StateOverrides,
    ) -> (r: Result<PipelineHandle, RenderError>)
        ensures
            r == build_result(loader@, old(self)@.len(), vertex, fragment),
            final(self)@ == after_build(loader@, old(self)@, vertex, fragment, overrides),
    {
        let v = match loader.stage(vertex) {
            Some(v) => v,
            None => {
                return Err(RenderError::AssetNotFound);
            },
        };
        let f = match loader.stage(fragment) {
            Some(f) => f,
            None => {
                return Err(RenderError::AssetNotFound);
            },
        };
        if !check_link(v, f) {
            return Err(RenderError::StageLinkError);
        }
        let index = self.pipelines.len();
        self.pipelines.push(Pipeline { vertex, fragment, state: overrides.resolve() });
        Ok(PipelineHandle { index })
    }

    /// The pipeline behind `h`; `None` when `h` was not handed out by this
    /// table.
    pub fn resolve(&self, h: PipelineHandle) -> (r: Option<Pipeline>)
        ensures
            r == resolve_result(self@, h),
    {
        if h.index < self.pipelines.len() {
            Some(self.pipelines[h.index])
        } else {
            None
        }
    }

    /// Whether the pipeline behind `h` declares the binding slot `slot`, as
    /// its stages stand in `loader` now.
    pub fn declares(&self, loader: &ShaderStageLoader, h: PipelineHandle, slot: u32) -> (r: bool)
        ensures
            r == pipeline_declares(loader@, self@, h, slot),
    {
        let pipeline = match self.resolve(h) {
            Some(p) => p,
            None => {
                return false;
            },
        };
        let v = match loader.stage(pipeline.vertex) {
            Some(v) => v,
            None => {
                return false;
            },
        };
        let f = match loader.stage(pipeline.fragment) {
            Some(f) => f,
            None => {
                return false;
            },
        };
        slot_listed(&v.bindings, slot) || slot_listed(&f.bindings, slot)
    }
}

} // verus!
