use cel_pipeline::binding::{MaterialBindingNode, Upload};
use cel_pipeline::context::{FrameReport, RenderContext, MAIN_PASS};
use cel_pipeline::error::RenderError;
use cel_pipeline::lights::{LightAggregationNode, MAX_LIGHTS};
use cel_pipeline::material::{MaterialHandle, MaterialInstance, Rgb};
use cel_pipeline::node::{DrawCall, NodeOutput, RenderNode};
use cel_pipeline::pipeline::{PipelineHandle, StateOverrides};
use cel_pipeline::scene::{Camera, Entity, LightDescriptor, MeshInstance, Point3};
use cel_pipeline::shader::{CompiledStage, SourceOutcome, StageKind, StageVar};

const ALBEDO_SLOT: u32 = 1;

const LIGHTS_SLOT: u32 = 2;

fn point(x: f32, y: f32, z: f32) -> Point3 {
    Point3 { x: x.to_bits(), y: y.to_bits(), z: z.to_bits() }
}

fn rgb(r: f32, g: f32, b: f32) -> MaterialInstance {
    MaterialInstance { albedo: Rgb { r: r.to_bits(), g: g.to_bits(), b: b.to_bits() } }
}

fn cel_vertex() -> CompiledStage {
    CompiledStage {
        kind: StageKind::Vertex,
        inputs: vec![StageVar { location: 0, format: 3 }, StageVar { location: 1, format: 3 }],
        outputs: vec![StageVar { location: 0, format: 3 }, StageVar { location: 1, format: 3 }],
        bindings: vec![0],
        code: vec![0x03, 0x02, 0x23, 0x07],
    }
}

fn cel_fragment() -> CompiledStage {
    CompiledStage {
        kind: StageKind::Fragment,
        inputs: vec![StageVar { location: 0, format: 3 }, StageVar { location: 1, format: 3 }],
        outputs: vec![StageVar { location: 0, format: 4 }],
        bindings: vec![ALBEDO_SLOT, 2],
        code: vec![0x03, 0x02, 0x23, 0x07, 0x01],
    }
}

struct Scene {
    ctx: RenderContext,
    pipeline: PipelineHandle,
    material: MaterialHandle,
    material_node: usize,
    lights_node: usize,
}

/// Camera and one green mesh, with both nodes wired before the main pass.
fn assemble() -> Scene {
    let mut ctx = RenderContext::new();
    let v = ctx.shaders.load("shaders/cel.vert", SourceOutcome::Compiled(cel_vertex())).unwrap();
    let f = ctx.shaders.load("shaders/cel.frag", SourceOutcome::Compiled(cel_fragment())).unwrap();
    let pipeline = ctx.pipelines.build(&ctx.shaders, v, f, StateOverrides::none()).unwrap();
    let material_node = ctx
        .insert_before_main_pass(
            "my_material",
            RenderNode::MaterialBinding(MaterialBindingNode::new(ALBEDO_SLOT)),
        )
        .unwrap();
    let lights_node = ctx
        .insert_before_main_pass(
            "lights",
            RenderNode::LightAggregation(LightAggregationNode::new(LIGHTS_SLOT, MAX_LIGHTS)),
        )
        .unwrap();
    let material = ctx.materials.add(rgb(0.0, 1.0, 0.0));
    ctx.spawn(Entity::Camera(Camera {
        eye: point(5.0, 10.0, -20.0),
        target: point(0.0, 0.0, 0.0),
    }));
    ctx.spawn(Entity::Mesh(MeshInstance {
        mesh: 0,
        position: point(0.0, 0.0, 0.0),
        pipeline,
        material,
    }));
    Scene { ctx, pipeline, material, material_node, lights_node }
}

fn step_of(report: &FrameReport, node: usize) -> usize {
    report.steps.iter().position(|s| s.node == node).expect("node ran")
}

fn output_of(report: &FrameReport, node: usize) -> &NodeOutput {
    &report.steps[step_of(report, node)].output
}

#[test]
fn new_context_holds_only_the_main_pass() {
    let mut ctx = RenderContext::new();
    assert_eq!(MAIN_PASS, "main_pass");
    assert_eq!(ctx.graph.node_count(), 1);
    assert_eq!(ctx.graph.node_id(MAIN_PASS), Some(0));
    assert!(matches!(ctx.graph.node(0), Some(RenderNode::MainPass)));
    assert_eq!(ctx.entities.len(), 0);
    let report = ctx.run_frame();
    assert_eq!(report.steps.len(), 1);
    assert_eq!(report.steps[0].node, 0);
    assert_eq!(report.steps[0].output, NodeOutput::Drawn(vec![]));
}

#[test]
fn insert_before_main_pass_wires_the_edge() {
    let mut ctx = RenderContext::new();
    let id = ctx
        .insert_before_main_pass("lights", RenderNode::LightAggregation(LightAggregationNode::new(LIGHTS_SLOT, 4)))
        .unwrap();
    assert_eq!(id, 1);
    assert!(ctx.graph.has_edge(1, 0));
    assert_eq!(ctx.graph.execution_order(), vec![1, 0]);
    assert_eq!(
        ctx.insert_before_main_pass("lights", RenderNode::MainPass),
        Err(RenderError::DuplicateNode)
    );
    assert_eq!(
        ctx.insert_before_main_pass(MAIN_PASS, RenderNode::MainPass),
        Err(RenderError::DuplicateNode)
    );
    assert_eq!(ctx.graph.node_count(), 2);
}

#[test]
fn frame_without_lights_binds_the_green_mesh_and_draws_last() {
    let mut scene = assemble();
    for frame in 0..3 {
        let report = scene.ctx.run_frame();
        assert_eq!(report.steps.len(), 3);
        // the main pass executes after both added nodes
        assert!(step_of(&report, scene.material_node) < step_of(&report, 0));
        assert!(step_of(&report, scene.lights_node) < step_of(&report, 0));
        // aggregated light count is 0
        assert_eq!(output_of(&report, scene.lights_node), &NodeOutput::Lit(0));
        // no binding error is reported
        match output_of(&report, scene.material_node) {
            NodeOutput::Bound(pass) => {
                assert_eq!(pass.diagnostics, vec![]);
                if frame == 0 {
                    assert_eq!(
                        pass.uploads,
                        vec![Upload { entity: 1, slot: ALBEDO_SLOT, fields: rgb(0.0, 1.0, 0.0) }]
                    );
                } else {
                    assert_eq!(pass.uploads, vec![]);
                }
            }
            other => panic!("unexpected output {:?}", other),
        }
        assert_eq!(
            output_of(&report, 0),
            &NodeOutput::Drawn(vec![DrawCall { entity: 1, pipeline: scene.pipeline }])
        );
    }
}

#[test]
fn frame_clears_dirty_marks_after_the_binding_pass() {
    let mut scene = assemble();
    scene.ctx.run_frame();
    scene.ctx.materials.update(scene.material, rgb(1.0, 0.0, 1.0)).unwrap();
    assert!(scene.ctx.materials.is_dirty(scene.material));
    let report = scene.ctx.run_frame();
    match output_of(&report, scene.material_node) {
        NodeOutput::Bound(pass) => assert_eq!(
            pass.uploads,
            vec![Upload { entity: 1, slot: ALBEDO_SLOT, fields: rgb(1.0, 0.0, 1.0) }]
        ),
        other => panic!("unexpected output {:?}", other),
    }
    assert!(!scene.ctx.materials.is_dirty(scene.material));
    assert_eq!(scene.ctx.materials.get(scene.material), Ok(rgb(1.0, 0.0, 1.0)));
}

#[test]
fn frame_with_thirteen_lights_reports_ten() {
    let mut scene = assemble();
    for i in 0..13 {
        scene.ctx.spawn(Entity::Light(LightDescriptor {
            position: point(i as f32, 4.0, 0.0),
            color: Rgb { r: 1.0f32.to_bits(), g: 1.0f32.to_bits(), b: 1.0f32.to_bits() },
            intensity: 200.0f32.to_bits(),
        }));
    }
    let report = scene.ctx.run_frame();
    assert_eq!(output_of(&report, scene.lights_node), &NodeOutput::Lit(10));
    match scene.ctx.graph.node(scene.lights_node) {
        Some(RenderNode::LightAggregation(node)) => {
            assert_eq!(node.light_count(), 10);
            assert_eq!(node.max_lights(), 10);
            assert_eq!(f32::from_bits(node.record(9).unwrap().position.x), 9.0);
        }
        _ => panic!("the lights node is gone"),
    }
}

#[test]
fn failed_hot_reload_keeps_the_stage_and_the_frames_going() {
    let mut scene = assemble();
    assert_eq!(scene.ctx.shaders.enable_watch(true), Ok(()));
    scene.ctx.run_frame();
    let fragment = scene.ctx.shaders.lookup("shaders/cel.frag").unwrap();

    // the watcher posts the change; the frame loop drains it before the frame
    assert!(scene.ctx.shaders.notify_changed("shaders/cel.frag"));
    let path = scene.ctx.shaders.next_pending().unwrap();
    assert_eq!(path, "shaders/cel.frag");
    let outcome = SourceOutcome::Rejected("cel.frag:12: undeclared identifier".to_string());
    assert_eq!(
        scene.ctx.shaders.reload(&path, outcome),
        Err(RenderError::CompileError("cel.frag:12: undeclared identifier".to_string()))
    );
    assert_eq!(scene.ctx.shaders.next_pending(), None);

    // the pipeline goes on with the stage compiled before
    assert_eq!(scene.ctx.shaders.stage(fragment), Some(&cel_fragment()));
    assert_eq!(scene.ctx.pipelines.resolve(scene.pipeline).unwrap().fragment, fragment);
    // exactly one diagnostic is recorded
    assert_eq!(scene.ctx.shaders.diagnostic_count(), 1);
    // no frame is skipped
    for _ in 0..2 {
        let report = scene.ctx.run_frame();
        assert_eq!(report.steps.len(), 3);
        assert_eq!(
            output_of(&report, 0),
            &NodeOutput::Drawn(vec![DrawCall { entity: 1, pipeline: scene.pipeline }])
        );
        match output_of(&report, scene.material_node) {
            NodeOutput::Bound(pass) => assert_eq!(pass.diagnostics, vec![]),
            other => panic!("unexpected output {:?}", other),
        }
    }
    assert_eq!(scene.ctx.shaders.diagnostic_count(), 1);
}

#[test]
fn successful_hot_reload_is_seen_by_the_next_frame() {
    let mut scene = assemble();
    scene.ctx.run_frame();
    // the new fragment stage no longer declares the albedo slot
    let mut bare = cel_fragment();
    bare.bindings = vec![2];
    scene.ctx.shaders.reload("shaders/cel.frag", SourceOutcome::Compiled(bare)).unwrap();
    scene.ctx.materials.update(scene.material, rgb(0.0, 0.0, 1.0)).unwrap();
    let report = scene.ctx.run_frame();
    match output_of(&report, scene.material_node) {
        NodeOutput::Bound(pass) => {
            assert_eq!(pass.uploads, vec![]);
            assert_eq!(pass.diagnostics.len(), 1);
            assert_eq!(pass.diagnostics[0].entity, 1);
            assert_eq!(pass.diagnostics[0].error, RenderError::BindingSlotMissing);
        }
        other => panic!("unexpected output {:?}", other),
    }
}

#[test]
fn a_mesh_whose_pipeline_does_not_resolve_is_not_drawn() {
    let mut scene = assemble();
    scene.ctx.spawn(Entity::Mesh(MeshInstance {
        mesh: 1,
        position: point(1.0, 0.0, 0.0),
        pipeline: PipelineHandle { index: 5 },
        material: scene.material,
    }));
    let report = scene.ctx.run_frame();
    assert_eq!(
        output_of(&report, 0),
        &NodeOutput::Drawn(vec![DrawCall { entity: 1, pipeline: scene.pipeline }])
    );
}
