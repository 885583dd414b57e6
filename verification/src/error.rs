//! Failure taxonomy of the render pipeline composer.

use vstd::prelude::*;

verus! {

/// Everything that can go wrong while composing or running the pipeline.
#[derive(Debug, Clone, PartialEq, Eq)]
pub enum RenderError {
    /// A logical asset path did not resolve to a source.
    AssetNotFound,
    /// A shader source failed to compile; carries the compiler diagnostics.
    CompileError(String),
    /// The vertex and fragment stages of a pipeline do not fit together.
    StageLinkError,
    /// An ordering edge would close a cycle in the render graph.
    CycleDetected,
    /// A node name is already registered in the render graph.
    DuplicateNode,
    /// An edge endpoint names a node that is not registered.
    UnknownNode,
    /// A handle's generation tag no longer matches its slot.
    StaleHandle,
    /// The file system offers no change notification; hot-reload stays off.
    WatchUnavailable,
    /// An entity's pipeline does not declare the binding slot a node fills.
    BindingSlotMissing,
}

} // verus!
