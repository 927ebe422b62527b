//! Choice of meshing algorithm and its options.
use vstd::prelude::*;

verus! {

/// Meshing options.
#[derive(Clone, Copy, Debug, PartialEq, Eq, Structural)]
pub struct MeshingConfig {
    /// Merge coplanar faces (greedy meshing) instead of emitting one quad per face.
    pub use_greedy_meshing: bool,
    /// Compute ambient occlusion.
    pub calculate_ao: bool,
}

impl MeshingConfig {
    /// Greedy meshing without ambient occlusion.
    pub fn default() -> (r: Self)
        ensures
            r.use_greedy_meshing,
            !r.calculate_ao,
    {
        MeshingConfig { use_greedy_meshing: true, calculate_ao: false }
    }

    /// The given algorithm, without ambient occlusion.
    pub fn new(use_greedy_meshing: bool) -> (r: Self)
        ensures
            r.use_greedy_meshing == use_greedy_meshing,
            !r.calculate_ao,
    {
        MeshingConfig { use_greedy_meshing, calculate_ao: false }
    }

    /// Greedy meshing without ambient occlusion.
    pub fn performance() -> (r: Self)
        ensures
            r.use_greedy_meshing,
            !r.calculate_ao,
    {
        MeshingConfig { use_greedy_meshing: true, calculate_ao: false }
    }

    /// Greedy meshing with ambient occlusion.
    pub fn quality() -> (r: Self)
        ensures
            r.use_greedy_meshing,
            r.calculate_ao,
    {
        MeshingConfig { use_greedy_meshing: true, calculate_ao: true }
    }

    /// Face-by-face meshing without ambient occlusion.
    pub fn fast() -> (r: Self)
        ensures
            !r.use_greedy_meshing,
            !r.calculate_ao,
    {
        MeshingConfig { use_greedy_meshing: false, calculate_ao: false }
    }

    /// Greedy meshing without ambient occlusion.
    pub fn maximum_performance() -> (r: Self)
        ensures
            r.use_greedy_meshing,
            !r.calculate_ao,
    {
        MeshingConfig { use_greedy_meshing: true, calculate_ao: false }
    }

    /// Greedy meshing without ambient occlusion (occlusion is not computed yet).
    pub fn balanced() -> (r: Self)
        ensures
            r.use_greedy_meshing,
            !r.calculate_ao,
    {
        MeshingConfig { use_greedy_meshing: true, calculate_ao: false }
    }

    /// Whether meshes are seamless across chunk borders: only greedy meshing
    /// looks at neighbouring chunks.
    pub fn supports_cross_chunk_meshing(&self) -> (r: bool)
        ensures
            r == self.use_greedy_meshing,
    {
        self.use_greedy_meshing
    }
}

} // verus!
