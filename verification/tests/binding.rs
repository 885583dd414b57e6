use cel_pipeline::binding::{BindingPass, Diagnostic, EntityBinding, MaterialBindingNode, Upload};
use cel_pipeline::error::RenderError;
use cel_pipeline::material::{MaterialHandle, MaterialInstance, MaterialTable, Rgb};
use cel_pipeline::pipeline::{PipelineHandle, PipelineTable, StateOverrides};
use cel_pipeline::scene::{Camera, Entity, LightDescriptor, MeshInstance, Point3};
use cel_pipeline::shader::{CompiledStage, ShaderStageLoader, SourceOutcome, StageKind, StageVar};

const SLOT: u32 = 2;

fn rgb(r: f32, g: f32, b: f32) -> MaterialInstance {
    MaterialInstance { albedo: Rgb { r: r.to_bits(), g: g.to_bits(), b: b.to_bits() } }
}

fn origin() -> Point3 {
    Point3 { x: 0, y: 0, z: 0 }
}

fn stage(kind: StageKind, bindings: Vec<u32>) -> CompiledStage {
    CompiledStage {
        kind,
        inputs: vec![StageVar { location: 0, format: 3 }],
        outputs: vec![StageVar { location: 0, format: 3 }],
        bindings,
        code: vec![],
    }
}

struct World {
    loader: ShaderStageLoader,
    pipelines: PipelineTable,
    materials: MaterialTable,
    with_slot: PipelineHandle,
    without_slot: PipelineHandle,
}

fn world() -> World {
    let mut loader = ShaderStageLoader::new();
    let v = loader.load("cel.vert", SourceOutcome::Compiled(stage(StageKind::Vertex, vec![0]))).unwrap();
    let f = loader
        .load("cel.frag", SourceOutcome::Compiled(stage(StageKind::Fragment, vec![SLOT])))
        .unwrap();
    let plain = loader
        .load("plain.frag", SourceOutcome::Compiled(stage(StageKind::Fragment, vec![1])))
        .unwrap();
    let mut pipelines = PipelineTable::new();
    let with_slot = pipelines.build(&loader, v, f, StateOverrides::none()).unwrap();
    let without_slot = pipelines.build(&loader, v, plain, StateOverrides::none()).unwrap();
    World { loader, pipelines, materials: MaterialTable::new(), with_slot, without_slot }
}

fn mesh(pipeline: PipelineHandle, material: MaterialHandle) -> Entity {
    Entity::Mesh(MeshInstance { mesh: 0, position: origin(), pipeline, material })
}

fn run(node: &mut MaterialBindingNode, w: &World, entities: &Vec<Entity>) -> BindingPass {
    node.execute(entities, &w.materials, &w.pipelines, &w.loader)
}

#[test]
fn first_pass_uploads_and_second_pass_is_quiet() {
    let mut w = world();
    let green = w.materials.add(rgb(0.0, 1.0, 0.0));
    let entities = vec![mesh(w.with_slot, green)];
    let mut node = MaterialBindingNode::new(SLOT);
    assert_eq!(node.binding_slot(), SLOT);
    let pass = run(&mut node, &w, &entities);
    assert_eq!(pass.uploads, vec![Upload { entity: 0, slot: SLOT, fields: rgb(0.0, 1.0, 0.0) }]);
    assert_eq!(pass.diagnostics, vec![]);
    assert_eq!(node.track(0), EntityBinding { bound: Some(green), reported: false });
    w.materials.clear_dirty();
    let pass = run(&mut node, &w, &entities);
    assert_eq!(pass.uploads, vec![]);
    assert_eq!(pass.diagnostics, vec![]);
}

#[test]
fn one_mutation_reaches_every_entity_that_shares_the_instance() {
    let mut w = world();
    let shared = w.materials.add(rgb(0.0, 1.0, 0.0));
    let own = w.materials.add(rgb(0.5, 0.5, 0.5));
    let entities = vec![
        mesh(w.with_slot, shared),
        mesh(w.with_slot, own),
        mesh(w.with_slot, shared),
        Entity::Camera(Camera { eye: origin(), target: origin() }),
        mesh(w.with_slot, shared),
    ];
    let mut node = MaterialBindingNode::new(SLOT);
    let pass = run(&mut node, &w, &entities);
    assert_eq!(pass.uploads.len(), 4);
    w.materials.clear_dirty();
    assert_eq!(run(&mut node, &w, &entities).uploads, vec![]);
    w.materials.clear_dirty();

    w.materials.update(shared, rgb(1.0, 0.0, 0.0)).unwrap();
    let pass = run(&mut node, &w, &entities);
    assert_eq!(
        pass.uploads,
        vec![
            Upload { entity: 0, slot: SLOT, fields: rgb(1.0, 0.0, 0.0) },
            Upload { entity: 2, slot: SLOT, fields: rgb(1.0, 0.0, 0.0) },
            Upload { entity: 4, slot: SLOT, fields: rgb(1.0, 0.0, 0.0) },
        ]
    );
    w.materials.clear_dirty();
    assert_eq!(run(&mut node, &w, &entities).uploads, vec![]);
}

#[test]
fn an_entity_given_another_instance_is_uploaded_again() {
    let mut w = world();
    let a = w.materials.add(rgb(0.0, 1.0, 0.0));
    let b = w.materials.add(rgb(0.0, 0.0, 1.0));
    let mut node = MaterialBindingNode::new(SLOT);
    run(&mut node, &w, &vec![mesh(w.with_slot, a)]);
    w.materials.clear_dirty();
    let pass = run(&mut node, &w, &vec![mesh(w.with_slot, b)]);
    assert_eq!(pass.uploads, vec![Upload { entity: 0, slot: SLOT, fields: rgb(0.0, 0.0, 1.0) }]);
    assert_eq!(node.track(0).bound, Some(b));
}

#[test]
fn missing_slot_skips_the_entity_and_is_reported_once() {
    let mut w = world();
    let green = w.materials.add(rgb(0.0, 1.0, 0.0));
    let entities = vec![mesh(w.without_slot, green), mesh(w.with_slot, green)];
    let mut node = MaterialBindingNode::new(SLOT);
    let pass = run(&mut node, &w, &entities);
    assert_eq!(pass.uploads, vec![Upload { entity: 1, slot: SLOT, fields: rgb(0.0, 1.0, 0.0) }]);
    assert_eq!(
        pass.diagnostics,
        vec![Diagnostic { entity: 0, error: RenderError::BindingSlotMissing }]
    );
    assert_eq!(node.track(0), EntityBinding { bound: None, reported: true });
    // frame after frame: still skipped, never reported again
    for _ in 0..3 {
        w.materials.clear_dirty();
        let pass = run(&mut node, &w, &entities);
        assert_eq!(pass.uploads, vec![]);
        assert_eq!(pass.diagnostics, vec![]);
    }
}

#[test]
fn a_pipeline_that_does_not_resolve_declares_no_slot() {
    let mut w = world();
    let green = w.materials.add(rgb(0.0, 1.0, 0.0));
    let entities = vec![mesh(PipelineHandle { index: 42 }, green)];
    let mut node = MaterialBindingNode::new(SLOT);
    let pass = run(&mut node, &w, &entities);
    assert_eq!(pass.uploads, vec![]);
    assert_eq!(
        pass.diagnostics,
        vec![Diagnostic { entity: 0, error: RenderError::BindingSlotMissing }]
    );
}

#[test]
fn stale_handle_skips_the_entity_and_is_reported_once() {
    let mut w = world();
    let green = w.materials.add(rgb(0.0, 1.0, 0.0));
    let entities = vec![mesh(w.with_slot, green)];
    let mut node = MaterialBindingNode::new(SLOT);
    run(&mut node, &w, &entities);
    w.materials.clear_dirty();
    w.materials.remove(green).unwrap();
    let replacement = w.materials.add(rgb(1.0, 0.0, 0.0));
    assert_eq!(replacement.index, green.index);
    let pass = run(&mut node, &w, &entities);
    assert_eq!(pass.uploads, vec![]);
    assert_eq!(pass.diagnostics, vec![Diagnostic { entity: 0, error: RenderError::StaleHandle }]);
    let pass = run(&mut node, &w, &entities);
    assert_eq!(pass.uploads, vec![]);
    assert_eq!(pass.diagnostics, vec![]);
    assert_eq!(node.track(0), EntityBinding { bound: Some(green), reported: true });
}

#[test]
fn entities_without_material_are_left_alone() {
    let w = world();
    let entities = vec![
        Entity::Camera(Camera { eye: origin(), target: origin() }),
        Entity::Light(LightDescriptor {
            position: origin(),
            color: Rgb { r: 0, g: 0, b: 0 },
            intensity: 0,
        }),
    ];
    let mut node = MaterialBindingNode::new(SLOT);
    let pass = run(&mut node, &w, &entities);
    assert_eq!(pass.uploads, vec![]);
    assert_eq!(pass.diagnostics, vec![]);
    assert_eq!(node.track(0), EntityBinding { bound: None, reported: false });
    assert_eq!(node.track(1), EntityBinding { bound: None, reported: false });
    assert_eq!(node.track(99), EntityBinding { bound: None, reported: false });
}

#[test]
fn dirty_instance_is_uploaded_even_when_already_bound() {
    let mut w = world();
    let green = w.materials.add(rgb(0.0, 1.0, 0.0));
    let entities = vec![mesh(w.with_slot, green)];
    let mut node = MaterialBindingNode::new(SLOT);
    run(&mut node, &w, &entities);
    // the pass was not closed: the instance is mutated and stays dirty
    w.materials.update(green, rgb(0.0, 1.0, 0.0)).unwrap();
    let pass = run(&mut node, &w, &entities);
    assert_eq!(pass.uploads, vec![Upload { entity: 0, slot: SLOT, fields: rgb(0.0, 1.0, 0.0) }]);
    let pass = run(&mut node, &w, &entities);
    assert_eq!(pass.uploads.len(), 1);
}
