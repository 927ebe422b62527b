//! Volumes of voxels: a bounded grid of stored chunks, or an unbounded body
//! generated on demand; both track which chunks changed.
use vstd::prelude::*;
use crate::coords::{chunk_coord, div_chunk, local_coord, spec_world_to_chunk, IVec3};
use crate::chunk::BlockId;
use crate::vec_map::VecMap;
use crate::providers::key_list;
use crate::voxel_schema::{BlockSchema, DensitySchema};
use std::sync::Arc;

verus! {

/// The chunk containing world voxel `world_pos` (floor division by the chunk size).
pub fn world_to_chunk_pos(world_pos: IVec3) -> (r: IVec3)
    ensures
        r == spec_world_to_chunk(world_pos),
{
    let x = div_chunk(world_pos.x);
    let y = div_chunk(world_pos.y);
    let z = div_chunk(world_pos.z);
    IVec3 { x, y, z }
}

/// Offset toward the neighbouring chunk that shares the border on which a
/// local coordinate lies: -1 at 0, +1 at 31, none elsewhere.
pub open spec fn border_step(local: int) -> Option<int> {
    if local == 0 {
        Some(-1)
    } else if local == 31 {
        Some(1)
    } else {
        None
    }
}

/// Chunks marked dirty by a change at world voxel `p`: its chunk, and the
/// neighbour across each chunk face that `p` touches.
pub open spec fn dirty_marks(p: IVec3) -> Set<IVec3> {
    let c = spec_world_to_chunk(p);
    let sx = border_step(local_coord(p.x as int));
    let sy = border_step(local_coord(p.y as int));
    let sz = border_step(local_coord(p.z as int));
    Set::empty().insert(c).union(
        if sx is Some {
            set![IVec3 { x: (c.x + sx->0) as i32, y: c.y, z: c.z }]
        } else {
            Set::empty()
        },
    ).union(
        if sy is Some {
            set![IVec3 { x: c.x, y: (c.y + sy->0) as i32, z: c.z }]
        } else {
            Set::empty()
        },
    ).union(
        if sz is Some {
            set![IVec3 { x: c.x, y: c.y, z: (c.z + sz->0) as i32 }]
        } else {
            Set::empty()
        },
    )
}

/// A change at world voxel `p` marks its own chunk `c`, and, on each axis,
/// the neighbour chunk above `c` when `p` lies on the top layer of `c` (local
/// coordinate 31) and the one below when it lies on the bottom layer (local
/// coordinate 0); no other chunk is marked.
pub proof fn lemma_dirty_marks_borders(p: IVec3, q: IVec3)
    ensures
        ({
            let c = spec_world_to_chunk(p);
            let (lx, ly, lz) = (local_coord(p.x as int), local_coord(p.y as int), local_coord(p.z as int));
            let up_x = IVec3 { x: (c.x + 1) as i32, y: c.y, z: c.z };
            let down_x = IVec3 { x: (c.x - 1) as i32, y: c.y, z: c.z };
            let up_y = IVec3 { x: c.x, y: (c.y + 1) as i32, z: c.z };
            let down_y = IVec3 { x: c.x, y: (c.y - 1) as i32, z: c.z };
            let up_z = IVec3 { x: c.x, y: c.y, z: (c.z + 1) as i32 };
            let down_z = IVec3 { x: c.x, y: c.y, z: (c.z - 1) as i32 };
            &&& dirty_marks(p).contains(c)
            &&& lx == 31 ==> dirty_marks(p).contains(up_x)
            &&& lx == 0 ==> dirty_marks(p).contains(down_x)
            &&& ly == 31 ==> dirty_marks(p).contains(up_y)
            &&& ly == 0 ==> dirty_marks(p).contains(down_y)
            &&& lz == 31 ==> dirty_marks(p).contains(up_z)
            &&& lz == 0 ==> dirty_marks(p).contains(down_z)
            &&& dirty_marks(p).contains(q) ==> (q == c || (lx == 31 && q == up_x) || (lx == 0
                && q == down_x) || (ly == 31 && q == up_y) || (ly == 0 && q == down_y) || (lz
                == 31 && q == up_z) || (lz == 0 && q == down_z))
        }),
{
}

/// Set of chunk positions that need to be rebuilt.
pub struct DirtyRegions {
    dirty_chunks: VecMap<IVec3, ()>,
}

impl DirtyRegions {
    /// The dirty chunks.
    pub closed spec fn chunks(&self) -> Set<IVec3> {
        self.dirty_chunks@.dom()
    }

    /// Internal consistency.
    pub closed spec fn wf(&self) -> bool {
        self.dirty_chunks.wf()
    }

    /// No dirty chunk.
    pub fn new() -> (r: Self)
        ensures
            r.wf(),
            r.chunks() == Set::<IVec3>::empty(),
    {
        let r = DirtyRegions { dirty_chunks: VecMap::new() };
        assert(r.chunks() =~= Set::<IVec3>::empty());
        r
    }

    /// Marks chunk `chunk_pos` dirty.
    pub fn mark_chunk_dirty(&mut self, chunk_pos: IVec3)
        requires
            old(self).wf(),
        ensures
            final(self).wf(),
            final(self).chunks() == old(self).chunks().insert(chunk_pos),
    {
        self.dirty_chunks.insert(chunk_pos, ());
        assert(self.chunks() =~= old(self).chunks().insert(chunk_pos));
    }

    /// Marks the chunk of world voxel `world_pos` dirty, and the neighbour
    /// across each chunk face the voxel touches.
    pub fn mark_position_dirty(&mut self, world_pos: IVec3)
        requires
            old(self).wf(),
        ensures
            final(self).wf(),
            final(self).chunks() == old(self).chunks().union(dirty_marks(world_pos)),
    {
        let c = world_to_chunk_pos(world_pos);
        proof {
            crate::coords::lemma_chunk_coord_range(world_pos.x as int);
            crate::coords::lemma_chunk_coord_range(world_pos.y as int);
            crate::coords::lemma_chunk_coord_range(world_pos.z as int);
        }
        self.mark_chunk_dirty(c);
        let lx = world_pos.x - 32 * c.x;
        let ly = world_pos.y - 32 * c.y;
        let lz = world_pos.z - 32 * c.z;
        let ghost s1 = self.chunks();
        if lx == 0 || lx == 31 {
            let step: i32 = if lx == 0 {
                -1
            } else {
                1
            };
            self.mark_chunk_dirty(IVec3 { x: c.x + step, y: c.y, z: c.z });
        }
        let ghost s2 = self.chunks();
        if ly == 0 || ly == 31 {
            let step: i32 = if ly == 0 {
                -1
            } else {
                1
            };
            self.mark_chunk_dirty(IVec3 { x: c.x, y: c.y + step, z: c.z });
        }
        let ghost s3 = self.chunks();
        if lz == 0 || lz == 31 {
            let step: i32 = if lz == 0 {
                -1
            } else {
                1
            };
            self.mark_chunk_dirty(IVec3 { x: c.x, y: c.y, z: c.z + step });
        }
        proof {
            assert(self.chunks() =~= old(self).chunks().union(dirty_marks(world_pos)));
        }
    }

    /// Returns the dirty chunks (each once) and clears the set.
    pub fn take_dirty_chunks(&mut self) -> (r: Vec<IVec3>)
        requires
            old(self).wf(),
        ensures
            final(self).wf(),
            r@.no_duplicates(),
            r@.to_set() == old(self).chunks(),
            final(self).chunks() == Set::<IVec3>::empty(),
    {
        let r = key_list(&self.dirty_chunks);
        self.dirty_chunks.clear();
        assert(self.chunks() =~= Set::<IVec3>::empty());
        r
    }

    /// Whether chunk `chunk_pos` is dirty.
    pub fn is_chunk_dirty(&self, chunk_pos: IVec3) -> (r: bool)
        requires
            self.wf(),
        ensures
            r == self.chunks().contains(chunk_pos),
    {
        self.dirty_chunks.contains_key(&chunk_pos)
    }

    /// Clears every dirty flag.
    pub fn clear(&mut self)
        requires
            old(self).wf(),
        ensures
            final(self).wf(),
            final(self).chunks() == Set::<IVec3>::empty(),
    {
        self.dirty_chunks.clear();
        assert(self.chunks() =~= Set::<IVec3>::empty());
    }

    /// Number of dirty chunks.
    pub fn dirty_count(&self) -> (r: usize)
        requires
            self.wf(),
        ensures
            r == self.chunks().len(),
    {
        self.dirty_chunks.len()
    }
}

/// Voxel data of one chunk of a volume: blocks, or densities with materials.
pub enum ChunkSchema {
    Blocks(BlockSchema),
    Densities(DensitySchema),
}

/// Common interface of volumes.
pub trait Volume {
    /// Internal consistency of the volume.
    spec fn volume_wf(&self) -> bool;

    /// Records a change of world voxel `world_pos`; returns whether the volume accepted it.
    fn set_voxel(&mut self, world_pos: IVec3, block: BlockId) -> (r: bool)
        requires
            old(self).volume_wf(),
        ensures
            final(self).volume_wf(),
    ;

    /// Returns the dirty chunks and clears them.
    fn take_dirty_regions(&mut self) -> (r: Vec<IVec3>)
        requires
            old(self).volume_wf(),
        ensures
            final(self).volume_wf(),
    ;

    /// Bounds in chunk coordinates (inclusive), or `None` when unbounded.
    fn bounds(&self) -> Option<(IVec3, IVec3)>;

    /// Name of the volume kind.
    fn volume_type(&self) -> &'static str;
}

/// Chunk `c` lies in the inclusive box `[min, max]`.
pub open spec fn chunk_in_bounds(c: IVec3, min: IVec3, max: IVec3) -> bool {
    min.x <= c.x <= max.x && min.y <= c.y <= max.y && min.z <= c.z <= max.z
}

/// Finite, mutable volume of stored chunks, with optional chunk bounds.
pub struct GridVolume {
    chunks: VecMap<IVec3, ChunkSchema>,
    bounds: Option<(IVec3, IVec3)>,
    dirty: DirtyRegions,
}

impl GridVolume {
    /// The stored chunks, by chunk position.
    pub closed spec fn chunk_map(&self) -> Map<IVec3, ChunkSchema> {
        self.chunks@
    }

    /// Positions of the stored chunks.
    pub open spec fn chunk_set(&self) -> Set<IVec3> {
        self.chunk_map().dom()
    }

    /// Chunks needing a rebuild.
    pub closed spec fn dirty_set(&self) -> Set<IVec3> {
        self.dirty.chunks()
    }

    /// The chunk bounds.
    pub closed spec fn spec_bounds(&self) -> Option<(IVec3, IVec3)> {
        self.bounds
    }

    /// Internal consistency.
    pub closed spec fn wf(&self) -> bool {
        self.chunks.wf() && self.dirty.wf()
    }

    /// An empty volume with the given chunk bounds.
    pub fn new(bounds: Option<(IVec3, IVec3)>) -> (r: Self)
        ensures
            r.wf(),
            r.chunk_map() == Map::<IVec3, ChunkSchema>::empty(),
            r.dirty_set() == Set::<IVec3>::empty(),
            r.spec_bounds() == bounds,
    {
        let r = GridVolume { chunks: VecMap::new(), bounds, dirty: DirtyRegions::new() };
        r
    }

    /// An empty unbounded volume.
    pub fn unbounded() -> (r: Self)
        ensures
            r.wf(),
            r.chunk_map() == Map::<IVec3, ChunkSchema>::empty(),
            r.dirty_set() == Set::<IVec3>::empty(),
            r.spec_bounds() is None,
    {
        Self::new(None)
    }

    /// An empty volume bounded by chunks `[min_chunk, max_chunk]`.
    pub fn bounded(min_chunk: IVec3, max_chunk: IVec3) -> (r: Self)
        ensures
            r.wf(),
            r.chunk_map() == Map::<IVec3, ChunkSchema>::empty(),
            r.dirty_set() == Set::<IVec3>::empty(),
            r.spec_bounds() == Some((min_chunk, max_chunk)),
    {
        Self::new(Some((min_chunk, max_chunk)))
    }

    /// Stores `schema` as chunk `chunk_pos` and marks the chunk dirty.
    pub fn insert_chunk(&mut self, chunk_pos: IVec3, schema: ChunkSchema)
        requires
            old(self).wf(),
        ensures
            final(self).wf(),
            final(self).chunk_map() == old(self).chunk_map().insert(chunk_pos, schema),
            final(self).dirty_set() == old(self).dirty_set().insert(chunk_pos),
            final(self).spec_bounds() == old(self).spec_bounds(),
    {
        self.chunks.insert(chunk_pos, schema);
        self.dirty.mark_chunk_dirty(chunk_pos);
    }

    /// Removes chunk `chunk_pos`, returning it if it was stored.
    pub fn remove_chunk(&mut self, chunk_pos: IVec3) -> (r: Option<ChunkSchema>)
        requires
            old(self).wf(),
        ensures
            final(self).wf(),
            r == (if old(self).chunk_map().contains_key(chunk_pos) {
                Some(old(self).chunk_map()[chunk_pos])
            } else {
                None
            }),
            final(self).chunk_map() == old(self).chunk_map().remove(chunk_pos),
            final(self).dirty_set() == old(self).dirty_set(),
            final(self).spec_bounds() == old(self).spec_bounds(),
    {
        self.chunks.remove(&chunk_pos)
    }

    /// Number of stored chunks.
    pub fn chunk_count(&self) -> (r: usize)
        requires
            self.wf(),
        ensures
            r == self.chunk_set().len(),
    {
        self.chunks.len()
    }

    /// Whether chunk `chunk_pos` is stored.
    pub fn has_chunk(&self, chunk_pos: IVec3) -> (r: bool)
        requires
            self.wf(),
        ensures
            r == self.chunk_set().contains(chunk_pos),
    {
        self.chunks.contains_key(&chunk_pos)
    }
}

impl Volume for GridVolume {
    open spec fn volume_wf(&self) -> bool {
        self.wf()
    }

    /// Refuses voxels whose chunk lies outside the bounds; otherwise marks
    /// the voxel's chunk (and bordering neighbours) dirty and accepts.
    fn set_voxel(&mut self, world_pos: IVec3, block: BlockId) -> (r: bool)
        ensures
            r == (match old(self).spec_bounds() {
                Some((min, max)) => chunk_in_bounds(spec_world_to_chunk(world_pos), min, max),
                None => true,
            }),
            r ==> final(self).dirty_set() == old(self).dirty_set().union(dirty_marks(world_pos)),
            !r ==> final(self).dirty_set() == old(self).dirty_set(),
            final(self).chunk_map() == old(self).chunk_map(),
            final(self).spec_bounds() == old(self).spec_bounds(),
    {
        let chunk_pos = world_to_chunk_pos(world_pos);
        match self.bounds {
            Some((min, max)) => {
                if chunk_pos.x < min.x || chunk_pos.x > max.x || chunk_pos.y < min.y || chunk_pos.y
                    > max.y || chunk_pos.z < min.z || chunk_pos.z > max.z {
                    return false;
                }
            },
            None => {},
        }
        self.dirty.mark_position_dirty(world_pos);
        true
    }

    fn take_dirty_regions(&mut self) -> (r: Vec<IVec3>)
        ensures
            r@.no_duplicates(),
            r@.to_set() == old(self).dirty_set(),
            final(self).dirty_set() == Set::<IVec3>::empty(),
            final(self).chunk_map() == old(self).chunk_map(),
            final(self).spec_bounds() == old(self).spec_bounds(),
    {
        self.dirty.take_dirty_chunks()
    }

    fn bounds(&self) -> (r: Option<(IVec3, IVec3)>)
        ensures
            r == self.spec_bounds(),
    {
        self.bounds
    }

    fn volume_type(&self) -> (r: &'static str)
        ensures
            r@ == "GridVolume"@,
    {
        "GridVolume"
    }
}

/// Source of generated chunks for unbounded volumes.
pub trait ProceduralProvider {
    /// The data that this provider generates for chunk `chunk_pos`: a
    /// provider gives the same chunk each time it is asked for it.
    spec fn generated(&self, chunk_pos: IVec3) -> ChunkSchema;

    /// The generated data of chunk `chunk_pos`.
    fn generate_chunk(&self, chunk_pos: IVec3) -> (r: ChunkSchema)
        ensures
            r == self.generated(chunk_pos),
    ;

    /// Name of the provider.
    fn provider_name(&self) -> &'static str;
}

/// Unbounded volume generated on demand, with sparse per-chunk overrides.
pub struct CelestialVolume<P: ProceduralProvider> {
    provider: Arc<P>,
    deltas: VecMap<IVec3, ChunkSchema>,
    dirty: DirtyRegions,
}

impl<P: ProceduralProvider> CelestialVolume<P> {
    /// Chunks holding overrides.
    pub closed spec fn delta_set(&self) -> Set<IVec3> {
        self.deltas@.dom()
    }

    /// Chunks needing a rebuild.
    pub closed spec fn dirty_set(&self) -> Set<IVec3> {
        self.dirty.chunks()
    }

    /// Internal consistency.
    pub closed spec fn wf(&self) -> bool {
        self.deltas.wf() && self.dirty.wf()
    }

    /// The provider that generates the volume.
    pub closed spec fn source(&self) -> P {
        *self.provider
    }

    /// A volume generated by `provider`, with no overrides.
    pub fn new(provider: Arc<P>) -> (r: Self)
        ensures
            r.source() == *provider,
            r.wf(),
            r.delta_set() == Set::<IVec3>::empty(),
            r.dirty_set() == Set::<IVec3>::empty(),
    {
        let r = CelestialVolume { provider, deltas: VecMap::new(), dirty: DirtyRegions::new() };
        assert(r.delta_set() =~= Set::<IVec3>::empty());
        r
    }

    /// Number of chunks holding overrides.
    pub fn delta_count(&self) -> (r: usize)
        requires
            self.wf(),
        ensures
            r == self.delta_set().len(),
    {
        self.deltas.len()
    }

    /// Whether chunk `chunk_pos` holds overrides.
    pub fn has_delta(&self, chunk_pos: IVec3) -> (r: bool)
        requires
            self.wf(),
        ensures
            r == self.delta_set().contains(chunk_pos),
    {
        self.deltas.contains_key(&chunk_pos)
    }

    /// The data of chunk `chunk_pos`, as the provider generates it.
    pub fn get_chunk_schema(&self, chunk_pos: IVec3) -> (r: ChunkSchema)
        ensures
            r == self.source().generated(chunk_pos),
    {
        self.provider.generate_chunk(chunk_pos)
    }

    /// Drops every override.
    pub fn clear_deltas(&mut self)
        requires
            old(self).wf(),
        ensures
            final(self).wf(),
            final(self).delta_set() == Set::<IVec3>::empty(),
            final(self).dirty_set() == old(self).dirty_set(),
    {
        self.deltas.clear();
        assert(self.delta_set() =~= Set::<IVec3>::empty());
    }
}

impl<P: ProceduralProvider> Volume for CelestialVolume<P> {
    open spec fn volume_wf(&self) -> bool {
        self.wf()
    }

    /// Marks the voxel's chunk (and bordering neighbours) dirty and accepts.
    fn set_voxel(&mut self, world_pos: IVec3, block: BlockId) -> (r: bool)
        ensures
            r,
            final(self).dirty_set() == old(self).dirty_set().union(dirty_marks(world_pos)),
            final(self).delta_set() == old(self).delta_set(),
    {
        self.dirty.mark_position_dirty(world_pos);
        true
    }

    fn take_dirty_regions(&mut self) -> (r: Vec<IVec3>)
        ensures
            r@.no_duplicates(),
            r@.to_set() == old(self).dirty_set(),
            final(self).dirty_set() == Set::<IVec3>::empty(),
            final(self).delta_set() == old(self).delta_set(),
    {
        self.dirty.take_dirty_chunks()
    }

    fn bounds(&self) -> (r: Option<(IVec3, IVec3)>)
        ensures
            r is None,
    {
        None
    }

    fn volume_type(&self) -> (r: &'static str)
        ensures
            r@ == "CelestialVolume"@,
    {
        "CelestialVolume"
    }
}

} // verus!
