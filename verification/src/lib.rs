//! Verified core of a voxel space-engineering game: chunk storage, meshing,
//! chunk streaming, voxel providers with edit overlays and GPU resource pools.
use vstd::prelude::*;

pub mod coords;
pub mod chunk;
pub mod meshing;
pub mod vec_map;
pub mod voxel_schema;
pub mod providers;
pub mod delta_store;
pub mod meshing_config;
pub mod storage;
pub mod buffer_pool;
pub mod framegraph;
pub mod texture;
pub mod chunk_ring;
pub mod generator;
pub mod volume;
pub mod job_queue;
pub mod atlas;
pub mod marching_cubes;
pub mod generator_metrics;
pub mod scene_cache;

verus! {
} // verus!
