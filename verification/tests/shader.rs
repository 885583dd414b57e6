use cel_pipeline::error::RenderError;
use cel_pipeline::shader::{
    CompiledStage, ShaderStageHandle, ShaderStageLoader, SourceOutcome, StageKind, StageVar,
};

fn vertex_stage(code: u8) -> CompiledStage {
    CompiledStage {
        kind: StageKind::Vertex,
        inputs: vec![StageVar { location: 0, format: 3 }],
        outputs: vec![StageVar { location: 0, format: 3 }, StageVar { location: 1, format: 3 }],
        bindings: vec![0],
        code: vec![code],
    }
}

#[test]
fn load_creates_a_handle_on_first_load_only() {
    let mut loader = ShaderStageLoader::new();
    let first = loader.load("shaders/cel.vert", SourceOutcome::Compiled(vertex_stage(1)));
    assert_eq!(first, Ok(ShaderStageHandle { index: 0 }));
    let second = loader.load("shaders/cel.frag", SourceOutcome::Compiled(vertex_stage(2)));
    assert_eq!(second, Ok(ShaderStageHandle { index: 1 }));
    // a later load of a loaded path answers its handle, whatever the store reports
    let again = loader.load("shaders/cel.vert", SourceOutcome::Missing);
    assert_eq!(again, Ok(ShaderStageHandle { index: 0 }));
    let again = loader.load("shaders/cel.vert", SourceOutcome::Compiled(vertex_stage(9)));
    assert_eq!(again, Ok(ShaderStageHandle { index: 0 }));
    assert_eq!(loader.stage_count(), 2);
    assert_eq!(loader.stage(ShaderStageHandle { index: 0 }), Some(&vertex_stage(1)));
    assert_eq!(loader.lookup("shaders/cel.frag"), Some(ShaderStageHandle { index: 1 }));
    assert_eq!(loader.lookup("shaders/other.frag"), None);
    assert_eq!(loader.stage(ShaderStageHandle { index: 2 }), None);
}

#[test]
fn load_of_a_missing_path_is_asset_not_found() {
    let mut loader = ShaderStageLoader::new();
    assert_eq!(
        loader.load("shaders/none.vert", SourceOutcome::Missing),
        Err(RenderError::AssetNotFound)
    );
    assert_eq!(loader.stage_count(), 0);
    assert_eq!(loader.lookup("shaders/none.vert"), None);
}

#[test]
fn load_of_a_rejected_source_carries_the_diagnostics() {
    let mut loader = ShaderStageLoader::new();
    assert_eq!(
        loader.load("shaders/bad.vert", SourceOutcome::Rejected("line 3: syntax".to_string())),
        Err(RenderError::CompileError("line 3: syntax".to_string()))
    );
    assert_eq!(loader.stage_count(), 0);
    assert_eq!(loader.diagnostic_count(), 0);
}

#[test]
fn reload_swaps_the_stage_behind_the_same_handle() {
    let mut loader = ShaderStageLoader::new();
    let h = loader.load("shaders/cel.vert", SourceOutcome::Compiled(vertex_stage(1))).unwrap();
    let other = loader.load("shaders/b.vert", SourceOutcome::Compiled(vertex_stage(5))).unwrap();
    assert_eq!(loader.reload("shaders/cel.vert", SourceOutcome::Compiled(vertex_stage(2))), Ok(h));
    assert_eq!(loader.stage(h), Some(&vertex_stage(2)));
    assert_eq!(loader.stage(other), Some(&vertex_stage(5)));
    assert_eq!(loader.lookup("shaders/cel.vert"), Some(h));
    assert_eq!(loader.diagnostic_count(), 0);
}

#[test]
fn failed_reload_keeps_the_stage_and_records_one_diagnostic() {
    let mut loader = ShaderStageLoader::new();
    let h = loader.load("shaders/cel.frag", SourceOutcome::Compiled(vertex_stage(1))).unwrap();
    let r = loader.reload("shaders/cel.frag", SourceOutcome::Rejected("unexpected '}'".to_string()));
    assert_eq!(r, Err(RenderError::CompileError("unexpected '}'".to_string())));
    assert_eq!(loader.stage(h), Some(&vertex_stage(1)));
    assert_eq!(loader.diagnostic_count(), 1);
    assert_eq!(loader.diagnostic(0), Some(&"unexpected '}'".to_string()));
    assert_eq!(loader.diagnostic(1), None);
    // a second failed attempt is a second report
    let r = loader.reload("shaders/cel.frag", SourceOutcome::Rejected("again".to_string()));
    assert_eq!(r, Err(RenderError::CompileError("again".to_string())));
    assert_eq!(loader.diagnostic_count(), 2);
    assert_eq!(loader.stage(h), Some(&vertex_stage(1)));
}

#[test]
fn reload_of_an_unknown_or_vanished_path_changes_nothing() {
    let mut loader = ShaderStageLoader::new();
    let h = loader.load("shaders/cel.vert", SourceOutcome::Compiled(vertex_stage(1))).unwrap();
    assert_eq!(
        loader.reload("shaders/other.vert", SourceOutcome::Compiled(vertex_stage(2))),
        Err(RenderError::AssetNotFound)
    );
    assert_eq!(
        loader.reload("shaders/other.vert", SourceOutcome::Rejected("x".to_string())),
        Err(RenderError::AssetNotFound)
    );
    assert_eq!(
        loader.reload("shaders/cel.vert", SourceOutcome::Missing),
        Err(RenderError::AssetNotFound)
    );
    assert_eq!(loader.stage(h), Some(&vertex_stage(1)));
    assert_eq!(loader.stage_count(), 1);
    assert_eq!(loader.diagnostic_count(), 0);
}

#[test]
fn watch_unavailable_is_reported_and_hot_reload_stays_off() {
    let mut loader = ShaderStageLoader::new();
    assert!(!loader.is_watching());
    assert_eq!(loader.enable_watch(false), Err(RenderError::WatchUnavailable));
    assert!(!loader.is_watching());
    loader.load("shaders/cel.vert", SourceOutcome::Compiled(vertex_stage(1))).unwrap();
    assert!(!loader.notify_changed("shaders/cel.vert"));
    assert_eq!(loader.pending_count(), 0);
    assert_eq!(loader.next_pending(), None);
    assert_eq!(loader.enable_watch(true), Ok(()));
    assert!(loader.is_watching());
}

#[test]
fn changes_queue_once_per_path_and_drain_oldest_first() {
    let mut loader = ShaderStageLoader::new();
    loader.enable_watch(true).unwrap();
    loader.load("shaders/cel.vert", SourceOutcome::Compiled(vertex_stage(1))).unwrap();
    loader.load("shaders/cel.frag", SourceOutcome::Compiled(vertex_stage(2))).unwrap();
    assert!(loader.notify_changed("shaders/cel.frag"));
    assert!(!loader.notify_changed("shaders/cel.frag"));
    assert!(!loader.notify_changed("shaders/unknown.frag"));
    assert!(loader.notify_changed("shaders/cel.vert"));
    assert_eq!(loader.pending_count(), 2);
    assert_eq!(loader.next_pending(), Some("shaders/cel.frag".to_string()));
    assert_eq!(loader.next_pending(), Some("shaders/cel.vert".to_string()));
    assert_eq!(loader.next_pending(), None);
    // once drained, the same path can be queued again
    assert!(loader.notify_changed("shaders/cel.frag"));
    assert_eq!(loader.pending_count(), 1);
}
