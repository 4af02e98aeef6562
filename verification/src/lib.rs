//! Voxel chunk storage with a bounded block-metadata palette, a greedy
//! surface-extraction mesher, and a concurrency-bounded generation/meshing
//! pipeline, with machine-checked contracts.

pub mod block;
pub mod chunk;
pub mod utils;
