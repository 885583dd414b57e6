//! Render-graph pipeline composition for a cel-shaded scene.
//!
//! The crate holds, as plain data with machine-checked contracts, the parts
//! of a frame that have to be wired correctly before anything reaches the
//! GPU:
//!
//! * [`shader`]: compiled shader stages behind stable handles, with
//!   hot-reload that swaps a stage all or nothing;
//! * [`pipeline`]: pipelines assembled from two stages and fixed-function
//!   state, linked when they are built;
//! * [`material`]: a generation-tagged table of material instances;
//! * [`graph`]: named render nodes, ordering edges, cycle rejection and the
//!   execution order;
//! * [`binding`]: the node that uploads material fields to binding slots;
//! * [`lights`]: the node that packs the scene's lights into a bounded
//!   uniform block;
//! * [`node`], [`scene`], [`context`]: the nodes a graph can hold, the
//!   entities they look at, and the frame that runs them in order;
//! * [`error`]: the failure taxonomy shared by all of them.
//!
//! Reading files, compiling shader source and drawing are left to the engine
//! around the crate: it reports what it found or did, and the types here
//! decide what follows.
//!
//! Floating-point channels are carried as their 32-bit patterns: the crate
//! moves them between tables and uniform records but never computes with
//! them.

pub mod binding;
pub mod context;
pub mod error;
pub mod flags;
pub mod graph;
pub mod lights;
pub mod material;
pub mod names;
pub mod node;
pub mod pipeline;
pub mod scene;
pub mod shader;
