//! The shader stage loader: compiled stages behind stable handles, with
//! hot-reload.
//!
//! Reading a source file and compiling it is the asset store's work; what it
//! found comes in as a [`SourceOutcome`]. The loader decides what that means:
//! which handle a path gets, when a change notification is queued, and that a
//! failed recompilation never displaces the stage that is in use.

use crate::error::RenderError;
use crate::names::{
    distinct, find_name, has_name, lemma_name_seq_push, lemma_push_keeps_distinct, name_seq,
    position_of,
};
use vstd::prelude::*;

verus! {

/// Which programmable stage a shader is compiled for.
#[derive(Clone, Copy, Debug, PartialEq, Eq)]
pub enum StageKind {
    Vertex,
    Fragment,
}

/// One variable of a stage's interface: where it sits and what it holds.
#[derive(Clone, Copy, Debug, PartialEq, Eq)]
pub struct StageVar {
    pub location: u32,
    pub format: u32,
}

/// A shader stage as the compiler hands it over.
#[derive(Clone, Debug, PartialEq, Eq)]
pub struct CompiledStage {
    pub kind: StageKind,
    /// Variables the stage reads from the stage before it.
    pub inputs: Vec<StageVar>,
    /// Variables the stage writes for the stage after it.
    pub outputs: Vec<StageVar>,
    /// Binding slots the stage declares.
    pub bindings: Vec<u32>,
    /// The translated program; never inspected here.
    pub code: Vec<u8>,
}

/// What the asset store found when it resolved and compiled a path.
#[derive(Clone, Debug, PartialEq, Eq)]
pub enum SourceOutcome {
    /// The path resolves to no source.
    Missing,
    /// The source did not compile; carries the compiler diagnostics.
    Rejected(String),
    /// The source compiled.
    Compiled(CompiledStage),
}

/// Reference to a compiled stage held by a [`ShaderStageLoader`].
#[derive(Clone, Copy, Debug, PartialEq, Eq)]
pub struct ShaderStageHandle {
    pub index: usize,
}

/// The loader as mathematics.
pub struct LoaderModel {
    /// Logical path of each handle, by index.
    pub paths: Seq<Seq<char>>,
    /// The stage currently active behind each handle.
    pub stages: Seq<CompiledStage>,
    /// Whether change notifications are accepted.
    pub watching: bool,
    /// Handles with a change not yet recompiled, oldest first.
    pub pending: Seq<usize>,
    /// Compiler diagnostics of every failed recompilation, oldest first.
    pub diagnostics: Seq<Seq<char>>,
}

impl LoaderModel {
    pub open spec fn empty() -> LoaderModel {
        LoaderModel {
            paths: Seq::empty(),
            stages: Seq::empty(),
            watching: false,
            pending: Seq::empty(),
            diagnostics: Seq::empty(),
        }
    }

    pub open spec fn wf(self) -> bool {
        &&& self.paths.len() == self.stages.len()
        &&& self.paths.len() <= usize::MAX
        &&& distinct(self.paths)
        &&& forall|k: int| 0 <= k < self.pending.len() ==> self.pending[k] < self.paths.len()
        &&& forall|i: int, j: int|
            0 <= i < j < self.pending.len() ==> self.pending[i] != self.pending[j]
    }

    pub open spec fn has_path(self, path: Seq<char>) -> bool {
        has_name(self.paths, path)
    }

    /// The handle of a loaded path.
    pub open spec fn handle_of(self, path: Seq<char>) -> ShaderStageHandle {
        ShaderStageHandle { index: position_of(self.paths, path) as usize }
    }

    /// `h` refers to a stage of this loader.
    pub open spec fn resolves(self, h: ShaderStageHandle) -> bool {
        h.index < self.stages.len()
    }

    pub open spec fn is_pending(self, index: usize) -> bool {
        exists|k: int| 0 <= k < self.pending.len() && #[trigger] self.pending[k] == index
    }

    /// What loading `path` answers when the asset store reports `outcome`. A
    /// path that is already loaded keeps its handle whatever the outcome.
    pub open spec fn load_result(self, path: Seq<char>, outcome: SourceOutcome) -> Result<
        ShaderStageHandle,
        RenderError,
    > {
        if self.has_path(path) {
            Ok(self.handle_of(path))
        } else {
            match outcome {
                SourceOutcome::Missing => Err(RenderError::AssetNotFound),
                SourceOutcome::Rejected(diagnostics) => Err(RenderError::CompileError(diagnostics)),
                SourceOutcome::Compiled(_) => Ok(
                    ShaderStageHandle { index: self.paths.len() as usize },
                ),
            }
        }
    }

    /// The loader after loading `path`: one entry longer when a new path
    /// compiled, untouched otherwise.
    pub open spec fn after_load(self, path: Seq<char>, outcome: SourceOutcome) -> LoaderModel {
        if self.has_path(path) {
            self
        } else {
            match outcome {
                SourceOutcome::Compiled(stage) => LoaderModel {
                    paths: self.paths.push(path),
                    stages: self.stages.push(stage),
                    ..self
                },
                _ => self,
            }
        }
    }

    /// What recompiling `path` answers when the asset store reports
    /// `outcome`.
    pub open spec fn reload_result(self, path: Seq<char>, outcome: SourceOutcome) -> Result<
        ShaderStageHandle,
        RenderError,
    > {
        if !self.has_path(path) {
            Err(RenderError::AssetNotFound)
        } else {
            match outcome {
                SourceOutcome::Missing => Err(RenderError::AssetNotFound),
                SourceOutcome::Rejected(diagnostics) => Err(RenderError::CompileError(diagnostics)),
                SourceOutcome::Compiled(_) => Ok(self.handle_of(path)),
            }
        }
    }

    /// The loader after recompiling `path`. The swap is all or nothing: a new
    /// stage replaces the old one behind the same handle, a rejected source
    /// leaves the stage alone and records its diagnostics once, and anything
    /// else changes nothing.
    pub open spec fn after_reload(self, path: Seq<char>, outcome: SourceOutcome) -> LoaderModel {
        if !self.has_path(path) {
            self
        } else {
            match outcome {
                SourceOutcome::Missing => self,
                SourceOutcome::Rejected(diagnostics) => LoaderModel {
                    diagnostics: self.diagnostics.push(diagnostics@),
                    ..self
                },
                SourceOutcome::Compiled(stage) => LoaderModel {
                    stages: self.stages.update(position_of(self.paths, path), stage),
                    ..self
                },
            }
        }
    }

    /// A change of `path` is queued when notifications are on, the path is
    /// loaded and no change of it is waiting already.
    pub open spec fn accepts_change(self, path: Seq<char>) -> bool {
        &&& self.watching
        &&& self.has_path(path)
        &&& !self.is_pending(self.handle_of(path).index)
    }

    pub open spec fn after_change(self, path: Seq<char>) -> LoaderModel {
        if self.accepts_change(path) {
            LoaderModel { pending: self.pending.push(self.handle_of(path).index), ..self }
        } else {
            self
        }
    }

    /// The loader after the oldest pending change was taken.
    pub open spec fn after_take(self) -> LoaderModel {
        if self.pending.len() > 0 {
            LoaderModel { pending: self.pending.remove(0), ..self }
        } else {
            self
        }
    }
}

/// A failed recompilation leaves every stage as it was and records at most
/// one diagnostic; a successful one changes only the stage behind the path's
/// own handle. Handles and paths never change.
pub proof fn lemma_reload_swaps_all_or_nothing(
    m: LoaderModel,
    path: Seq<char>,
    outcome: SourceOutcome,
)
    requires
        m.wf(),
    ensures
        m.after_reload(path, outcome).wf(),
        m.after_reload(path, outcome).paths == m.paths,
        m.after_reload(path, outcome).stages.len() == m.stages.len(),
        m.reload_result(path, outcome) is Err ==> m.after_reload(path, outcome).stages == m.stages,
        m.reload_result(path, outcome) matches Err(RenderError::CompileError(d))
            ==> m.after_reload(path, outcome).diagnostics == m.diagnostics.push(d@),
        !(m.reload_result(path, outcome) matches Err(RenderError::CompileError(_)))
            ==> m.after_reload(path, outcome).diagnostics == m.diagnostics,
        m.reload_result(path, outcome) matches Ok(h) ==> forall|i: int|
            0 <= i < m.stages.len() && i != h.index ==> m.after_reload(path, outcome).stages[i]
                == m.stages[i],
{
    if m.has_path(path) {
        let i = position_of(m.paths, path);
        assert(0 <= i < m.paths.len());
    }
}

/// The shader stage loader.
pub struct ShaderStageLoader {
    paths: Vec<String>,
    stages: Vec<CompiledStage>,
    watching: bool,
    pending: Vec<usize>,
    diagnostics: Vec<String>,
}

impl View for ShaderStageLoader {
    type V = LoaderModel;

    closed spec fn view(&self) -> LoaderModel {
        LoaderModel {
            paths: name_seq(self.paths@),
            stages: self.stages@,
            watching: self.watching,
            pending: self.pending@,
            diagnostics: name_seq(self.diagnostics@),
        }
    }
}

impl ShaderStageLoader {
    pub open spec fn wf(&self) -> bool {
        self@.wf()
    }

    /// A loader with nothing loaded and hot-reload off.
    pub fn new() -> (l: Self)
        ensures
            l.wf(),
            l@ == LoaderModel::empty(),
    {
        let l = ShaderStageLoader {
            paths: Vec::new(),
            stages: Vec::new(),
            watching: false,
            pending: Vec::new(),
            diagnostics: Vec::new(),
        };
        proof {
            assert(l@.paths =~= Seq::empty());
            assert(l@.diagnostics =~= Seq::empty());
        }
        l
    }

    /// Turns hot-reload on when the file system can notify of changes.
    /// Without that support the call fails with `WatchUnavailable`, which is
    /// not fatal: the loader goes on without hot-reload.
    pub fn enable_watch(&mut self, supported: bool) -> (r: Result<(), RenderError>)
        ensures
            r == if supported {
                Ok::<(), RenderError>(())
            } else {
                Err::<(), RenderError>(RenderError::WatchUnavailable)
            },
            final(self)@ == (LoaderModel { watching: supported, ..old(self)@ }),
    {
        self.watching = supported;
        if supported {
            Ok(())
        } else {
            Err(RenderError::WatchUnavailable)
        }
    }

    /// Whether change notifications are accepted.
    pub fn is_watching(&self) -> (r: bool)
        ensures
            r == self@.watching,
    {
        self.watching
    }

    /// Number of loaded stages.
    pub fn stage_count(&self) -> (n: usize)
        ensures
            n == self@.stages.len(),
    {
        self.stages.len()
    }

    /// The handle `path` was loaded under.
    pub fn lookup(&self, path: &str) -> (r: Option<ShaderStageHandle>)
        requires
            self.wf(),
        ensures
            r == if self@.has_path(path@) {
                Some(self@.handle_of(path@))
            } else {
                None
            },
    {
        let key = path.to_owned();
        match find_name(&self.paths, &key) {
            Some(index) => Some(ShaderStageHandle { index }),
            None => None,
        }
    }

    /// The stage currently active behind `h`.
    pub fn stage(&self, h: ShaderStageHandle) -> (r: Option<&CompiledStage>)
        ensures
            r == if self@.resolves(h) {
                Some(&self@.stages[h.index as int])
            } else {
                None
            },
    {
        if h.index < self.stages.len() {
            Some(&self.stages[h.index])
        } else {
            None
        }
    }

    /// Loads `path`, for which the asset store reports `outcome`.
    ///
    /// The first successful load of a path creates its handle; every later
    /// load answers that handle. A path that does not resolve fails with
    /// `AssetNotFound`, a source that does not compile with `CompileError`.
    pub fn load(&mut self, path: &str, outcome: SourceOutcome) -> (r: Result<
        ShaderStageHandle,
        RenderError,
    >)
        requires
            old(self).wf(),
        ensures
            final(self).wf(),
            r == old(self)@.load_result(path@, outcome),
            final(self)@ == old(self)@.after_load(path@, outcome),
    {
        let key = path.to_owned();
        match find_name(&self.paths, &key) {
            Some(index) => Ok(ShaderStageHandle { index }),
            None => match outcome {
                SourceOutcome::Missing => Err(RenderError::AssetNotFound),
                SourceOutcome::Rejected(diagnostics) => Err(RenderError::CompileError(diagnostics)),
                SourceOutcome::Compiled(stage) => {
                    let index = self.paths.len();
                    proof {
                        lemma_name_seq_push(self.paths@, key);
                        lemma_push_keeps_distinct(self@.paths, path@);
                    }
                    self.paths.push(key);
                    self.stages.push(stage);
                    assert(self@.pending == old(self)@.pending);
                    assert(self.paths.len() <= usize::MAX);
                    Ok(ShaderStageHandle { index })
                },
            },
        }
    }

    /// Whether a change of the stage at `index` is waiting.
    fn has_pending(&self, index: usize) -> (r: bool)
        ensures
            r == self@.is_pending(index),
    {
        let mut k: usize = 0;
        while k < self.pending.len()
            invariant
                k <= self.pending.len(),
                forall|j: int| 0 <= j < k ==> self.pending[j] != index,
            decreases self.pending.len() - k,
        {
            if self.pending[k] == index {
                assert(self@.pending[k as int] == index);
                return true;
            }
            k += 1;
        }
        false
    }

    /// Takes note that the source behind `path` changed. The change is
    /// queued, and `true` answered, when hot-reload is on, the path is loaded
    /// and no change of it is waiting already; otherwise nothing happens.
    pub fn notify_changed(&mut self, path: &str) -> (queued: bool)
        requires
            old(self).wf(),
        ensures
            final(self).wf(),
            queued == old(self)@.accepts_change(path@),
            final(self)@ == old(self)@.after_change(path@),
    {
        if !self.watching {
            return false;
        }
        let key = path.to_owned();
        match find_name(&self.paths, &key) {
            None => false,
            Some(index) => {
                if self.has_pending(index) {
                    false
                } else {
                    self.pending.push(index);
                    proof {
                        let before = old(self)@.pending;
                        assert(self@.pending == before.push(index));
                        assert forall|i: int, j: int|
                            0 <= i < j < self@.pending.len() implies self@.pending[i]
                            != self@.pending[j] by {
                            if j == before.len() {
                                assert(before[i] != index);
                            } else {
                                assert(before[i] != before[j]);
                            }
                        }
                        assert forall|k: int| 0 <= k < self@.pending.len() implies self@.pending[k]
                            < self@.paths.len() by {
                            if k < before.len() {
                                assert(before[k] < old(self)@.paths.len());
                            }
                        }
                    }
                    true
                }
            },
        }
    }

    /// Number of changes waiting to be recompiled.
    pub fn pending_count(&self) -> (n: usize)
        ensures
            n == self@.pending.len(),
    {
        self.pending.len()
    }

    /// Takes the oldest waiting change and answers the path to recompile;
    /// `None` when nothing waits.
    pub fn next_pending(&mut self) -> (r: Option<String>)
        requires
            old(self).wf(),
        ensures
            final(self).wf(),
            final(self)@ == old(self)@.after_take(),
            match r {
                Some(path) => old(self)@.pending.len() > 0 && path@ == old(self)@.paths[old(
                    self,
                )@.pending[0] as int],
                None => old(self)@.pending.len() == 0,
            },
    {
        if self.pending.len() == 0 {
            return None;
        }
        let index = self.pending.remove(0);
        proof {
            let before = old(self)@.pending;
            assert(self@.pending == before.remove(0));
            assert(before[0] < old(self)@.paths.len());
            assert forall|i: int, j: int|
                0 <= i < j < self@.pending.len() implies self@.pending[i] != self@.pending[j] by {
                assert(before[i + 1] != before[j + 1]);
            }
            assert forall|k: int| 0 <= k < self@.pending.len() implies self@.pending[k]
                < self@.paths.len() by {
                assert(before[k + 1] < old(self)@.paths.len());
            }
        }
        Some(self.paths[index].clone())
    }

    /// Recompiles `path`, for which the asset store reports `outcome`.
    ///
    /// A compiled source replaces the stage behind the path's handle, which
    /// stays valid. A rejected source fails with `CompileError`, leaves the
    /// active stage in place and records its diagnostics once. A path that
    /// was never loaded, or whose source is gone, fails with `AssetNotFound`
    /// and changes nothing.
    pub fn reload(&mut self, path: &str, outcome: SourceOutcome) -> (r: Result<
        ShaderStageHandle,
        RenderError,
    >)
        requires
            old(self).wf(),
        ensures
            final(self).wf(),
            r == old(self)@.reload_result(path@, outcome),
            final(self)@ == old(self)@.after_reload(path@, outcome),
    {
        let key = path.to_owned();
        match find_name(&self.paths, &key) {
            None => Err(RenderError::AssetNotFound),
            Some(index) => match outcome {
                SourceOutcome::Missing => Err(RenderError::AssetNotFound),
                SourceOutcome::Rejected(diagnostics) => {
                    proof {
                        lemma_name_seq_push(self.diagnostics@, diagnostics);
                    }
                    self.diagnostics.push(diagnostics.clone());
                    assert(self@.pending == old(self)@.pending);
                    Err(RenderError::CompileError(diagnostics))
                },
                SourceOutcome::Compiled(stage) => {
                    self.stages.set(index, stage);
                    assert(self@.pending == old(self)@.pending);
                    Ok(ShaderStageHandle { index })
                },
            },
        }
    }

    /// Number of recorded compiler diagnostics.
    pub fn diagnostic_count(&self) -> (n: usize)
        ensures
            n == self@.diagnostics.len(),
    {
        self.diagnostics.len()
    }

    /// The `k`-th recorded compiler diagnostic, oldest first.
    pub fn diagnostic(&self, k: usize) -> (r: Option<&String>)
        ensures
            match r {
                Some(text) => k < self@.diagnostics.len() && text@ == self@.diagnostics[k as int],
                None => k >= self@.diagnostics.len(),
            },
    {
        if k < self.diagnostics.len() {
            Some(&self.diagnostics[k])
        } else {
            None
        }
    }
}

} // verus!
