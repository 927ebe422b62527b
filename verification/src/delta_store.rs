//! Sparse edit overlay: voxel modifications grouped per chunk, applied on top
//! of a base provider, with garbage collection and a binary save format.
use vstd::prelude::*;
use crate::coords::{
    split_world_pos, spec_world_to_chunk, spec_local_index, lemma_split_injective, IVec3,
    CHUNK_VOLUME, chunk_coord, local_coord, div_chunk, lemma_chunk_coord_range, lemma_idx_decompose,
    chunk_voxel_pos,
};
use crate::providers::{
    region_positive, region_volume, region_coords, lemma_region_coords, size_ok, VoxelData,
    VoxelValue, VoxelProvider, ProviderError, range_ok, range_size, in_box, box_index,
    lemma_box_index, offset,
};
use std::sync::Arc;
use crate::vec_map::{VecMap, distinct, pairs_to_map, fold_pairs, lemma_fold_pairs};

verus! {

/// Chunk eviction policy of the garbage collector.
#[derive(Clone, Copy, Debug, PartialEq, Eq, Structural)]
pub enum EvictionPolicy {
    /// Evict the least recently modified chunks.
    LRU,
    /// Evict chunks far from the player first (the order is computed by the caller).
    SpatialLRU,
    /// Never evict.
    Never,
}

/// Garbage-collection configuration.
#[derive(Clone, Copy, Debug)]
pub struct GCConfig {
    /// Number of delta chunks kept before collection evicts.
    pub max_delta_chunks: usize,
    /// Eviction policy.
    pub eviction_policy: EvictionPolicy,
    /// Flush to disk automatically.
    pub auto_flush: bool,
}

impl GCConfig {
    /// 1000 chunks, LRU eviction, no automatic flush.
    pub fn default() -> (r: Self)
        ensures
            r.max_delta_chunks == 1000,
            r.eviction_policy == EvictionPolicy::LRU,
            !r.auto_flush,
    {
        GCConfig { max_delta_chunks: 1000, eviction_policy: EvictionPolicy::LRU, auto_flush: false }
    }
}

/// Modifications of one chunk (local index to value), with the logical time
/// of its last modification and a dirty flag.
pub struct DeltaChunk {
    modifications: VecMap<usize, VoxelValue>,
    last_modified: u64,
    dirty: bool,
}

impl DeltaChunk {
    /// Modifications by local voxel index.
    pub closed spec fn mods(&self) -> Map<usize, VoxelValue> {
        self.modifications@
    }

    /// Logical time of the last modification.
    pub closed spec fn time(&self) -> u64 {
        self.last_modified
    }

    /// Whether the chunk changed since it was created or loaded.
    pub closed spec fn is_dirty(&self) -> bool {
        self.dirty
    }

    /// Local indices fit the save format's 32 bits.
    pub closed spec fn wf(&self) -> bool {
        &&& self.modifications.wf()
        &&& forall|k: usize| #[trigger] self.modifications@.contains_key(k) ==> k <= u32::MAX
    }

    fn new(now: u64) -> (r: Self)
        ensures
            r.wf(),
            r.mods() == Map::<usize, VoxelValue>::empty(),
            r.time() == now,
            r.is_dirty(),
    {
        DeltaChunk { modifications: VecMap::new(), last_modified: now, dirty: true }
    }

    fn set(&mut self, local_idx: usize, value: VoxelValue, now: u64)
        requires
            old(self).wf(),
            local_idx < CHUNK_VOLUME,
        ensures
            final(self).wf(),
            final(self).mods() == old(self).mods().insert(local_idx, value),
            final(self).time() == now,
            final(self).is_dirty(),
    {
        self.modifications.insert(local_idx, value);
        self.last_modified = now;
        self.dirty = true;
    }
}

/// Statistics of a delta store.
#[derive(Clone, Copy, Debug)]
pub struct DeltaStats {
    pub total_deltas: usize,
    pub memory_usage_bytes: usize,
    pub dirty_chunks: usize,
}

/// Edit recorded at world voxel `p`: the modification of its chunk at its local index.
pub open spec fn edit_lookup(m: Map<IVec3, Map<usize, VoxelValue>>, p: IVec3) -> Option<VoxelValue> {
    let c = spec_world_to_chunk(p);
    let l = spec_local_index(p) as usize;
    if m.contains_key(c) && m[c].contains_key(l) {
        Some(m[c][l])
    } else {
        None
    }
}

/// Index, inside the chunk of the column of `p` at height `cz`, of the
/// modification that lands on `p`: the chunk's voxel `i` lies at
/// `32 * chunk + (i % 32, i / 32 % 32, i / 1024)`, so indices of 32768 and
/// more land in the chunks above.
pub open spec fn index_reaching(p: IVec3, cz: int) -> int {
    local_coord(p.x as int) + 32 * local_coord(p.y as int) + 1024 * (p.z - 32 * cz)
}

/// The edit that lands on `p` from the chunks of its column, looked at from
/// height `cz` down to height `lo`: that of the highest chunk holding a
/// modification at `index_reaching(p, height)`.
pub open spec fn reaching_edit(m: Map<IVec3, Map<usize, VoxelValue>>, p: IVec3, cz: int, lo: int) -> Option<
    VoxelValue,
>
    decreases cz + 1 - lo,
{
    if cz < lo {
        None
    } else {
        let c = IVec3 { x: chunk_coord(p.x as int) as i32, y: chunk_coord(p.y as int) as i32, z: cz as i32 };
        let k = index_reaching(p, cz);
        if m.contains_key(c) && 0 <= k <= u32::MAX && m[c].contains_key(k as usize) {
            Some(m[c][k as usize])
        } else {
            reaching_edit(m, p, cz - 1, lo)
        }
    }
}

/// The edit a read of a box with lower corner `min` sees at `p`: among the
/// chunks of `p`'s column from the box's lowest chunk up to `p`'s own chunk,
/// that of the highest one holding a modification that lands on `p` (edits of
/// higher chunks are written over those of lower ones).
pub open spec fn seen_edit(m: Map<IVec3, Map<usize, VoxelValue>>, p: IVec3, min: IVec3) -> Option<
    VoxelValue,
> {
    reaching_edit(m, p, chunk_coord(p.z as int), chunk_coord(min.z as int))
}

/// Every modification of `m` has an index inside its chunk (below 32768), as
/// those recorded by `set_voxel` do.
pub open spec fn indices_in_chunk(m: Map<IVec3, Map<usize, VoxelValue>>) -> bool {
    forall|c: IVec3, k: usize| m.contains_key(c) && #[trigger] m[c].contains_key(k) ==> k < CHUNK_VOLUME
}

/// Chunk `c` lies in the range of chunks that the box `[min, max]` overlaps.
pub open spec fn chunk_in_range(c: IVec3, min: IVec3, max: IVec3) -> bool {
    &&& chunk_coord(min.x as int) <= c.x <= chunk_coord(max.x as int)
    &&& chunk_coord(min.y as int) <= c.y <= chunk_coord(max.y as int)
    &&& chunk_coord(min.z as int) <= c.z <= chunk_coord(max.z as int)
}

/// Applying the edits of `m` to the box `[min, max]` stays within `i32`: every
/// modification of a chunk the box overlaps lands at a height that fits, and
/// every one that lands inside the box lies at an offset from `min` that fits.
/// (Landing positions and offsets are `i32` arithmetic, which must not overflow.)
pub open spec fn targets_fit(m: Map<IVec3, Map<usize, VoxelValue>>, min: IVec3, max: IVec3) -> bool {
    forall|c: IVec3, k: usize|
        m.contains_key(c) && #[trigger] m[c].contains_key(k) && chunk_in_range(c, min, max) ==> {
            let t = chunk_voxel_pos(c, k as int);
            &&& t.2 <= i32::MAX
            &&& (min.x <= t.0 <= max.x && min.y <= t.1 <= max.y && min.z <= t.2 <= max.z) ==> (t.0
                - min.x <= i32::MAX && t.1 - min.y <= i32::MAX && t.2 - min.z <= i32::MAX)
        }
}

/// `values` of a region of `size` read at `min`, with the edits of `m` that fall
/// inside `[min, max]` written over them.
pub open spec fn apply_edits(
    values: Seq<VoxelValue>,
    size: IVec3,
    m: Map<IVec3, Map<usize, VoxelValue>>,
    min: IVec3,
    max: IVec3,
) -> Seq<VoxelValue> {
    Seq::new(
        values.len(),
        |j: int|
            {
                let c = region_coords(size, j);
                let px = min.x + c.0;
                let py = min.y + c.1;
                let pz = min.z + c.2;
                let p = IVec3 { x: px as i32, y: py as i32, z: pz as i32 };
                if region_positive(size) && j < region_volume(size) && px <= max.x && py <= max.y
                    && pz <= max.z && seen_edit(m, p, min) is Some {
                    seen_edit(m, p, min).unwrap()
                } else {
                    values[j]
                }
            },
    )
}

/// Sum over the chunks `keys` of their modification counts in `m`.
pub open spec fn sum_mod_counts(keys: Seq<IVec3>, m: Map<IVec3, Map<usize, VoxelValue>>) -> int
    decreases keys.len(),
{
    if keys.len() == 0 {
        0
    } else {
        sum_mod_counts(keys.drop_last(), m) + m[keys.last()].dom().len()
    }
}

/// Number of chunks among `keys` whose flag in `d` is set.
pub open spec fn count_dirty(keys: Seq<IVec3>, d: Map<IVec3, bool>) -> int
    decreases keys.len(),
{
    if keys.len() == 0 {
        0
    } else {
        count_dirty(keys.drop_last(), d) + (if d[keys.last()] {
            1int
        } else {
            0int
        })
    }
}

proof fn lemma_sum_mod_counts_prefix(keys: Seq<IVec3>, m: Map<IVec3, Map<usize, VoxelValue>>, i: int)
    requires
        0 <= i <= keys.len(),
    ensures
        0 <= sum_mod_counts(keys.subrange(0, i), m) <= sum_mod_counts(keys, m),
    decreases keys.len(),
{
    if keys.len() > 0 {
        if i == keys.len() {
            assert(keys.subrange(0, i) =~= keys);
            lemma_sum_mod_counts_prefix(keys.drop_last(), m, keys.len() - 1);
            assert(keys.drop_last().subrange(0, keys.len() - 1) =~= keys.drop_last());
        } else {
            lemma_sum_mod_counts_prefix(keys.drop_last(), m, i);
            assert(keys.drop_last().subrange(0, i) =~= keys.subrange(0, i));
        }
    }
}

/// Sparse overlay of voxel edits, grouped by chunk.
pub struct DeltaStore {
    deltas: VecMap<IVec3, DeltaChunk>,
    gc_config: GCConfig,
    clock: u64,
}

impl DeltaStore {
    /// Modifications by chunk position, then local index.
    pub closed spec fn edit_map(&self) -> Map<IVec3, Map<usize, VoxelValue>> {
        self.deltas@.map_values(|d: DeltaChunk| d.mods())
    }

    /// Logical time of the last modification of each chunk.
    pub closed spec fn time_map(&self) -> Map<IVec3, u64> {
        self.deltas@.map_values(|d: DeltaChunk| d.time())
    }

    /// Dirty flag of each chunk.
    pub closed spec fn dirty_map(&self) -> Map<IVec3, bool> {
        self.deltas@.map_values(|d: DeltaChunk| d.is_dirty())
    }

    /// Logical time given to the next modification.
    pub closed spec fn now(&self) -> u64 {
        self.clock
    }

    /// Garbage-collection configuration.
    pub closed spec fn config(&self) -> GCConfig {
        self.gc_config
    }

    /// Internal consistency of the chunk table.
    pub closed spec fn wf(&self) -> bool {
        &&& self.deltas.wf()
        &&& forall|c: IVec3| #[trigger] self.deltas@.contains_key(c) ==> self.deltas@[c].wf()
    }

    /// Edit recorded at world voxel `p`.
    pub open spec fn edit_at(&self, p: IVec3) -> Option<VoxelValue> {
        edit_lookup(self.edit_map(), p)
    }

    /// An empty store.
    pub fn new(gc_config: GCConfig) -> (r: Self)
        ensures
            r.wf(),
            r.edit_map() == Map::<IVec3, Map<usize, VoxelValue>>::empty(),
            r.dirty_map() == Map::<IVec3, bool>::empty(),
            r.time_map() == Map::<IVec3, u64>::empty(),
            r.config() == gc_config,
            r.now() == 0,
    {
        let r = DeltaStore { deltas: VecMap::new(), gc_config, clock: 0 };
        assert(r.edit_map() =~= Map::<IVec3, Map<usize, VoxelValue>>::empty());
        assert(r.dirty_map() =~= Map::<IVec3, bool>::empty());
        assert(r.time_map() =~= Map::<IVec3, u64>::empty());
        r
    }

    /// Number of chunks holding edits.
    pub fn chunk_count(&self) -> (r: usize)
        requires
            self.wf(),
        ensures
            r == self.edit_map().dom().len(),
    {
        assert(self.edit_map().dom() =~= self.deltas@.dom());
        self.deltas.len()
    }

    /// Records `value` at world voxel `pos`.
    pub fn set_voxel(&mut self, pos: IVec3, value: VoxelValue)
        requires
            old(self).wf(),
        ensures
            final(self).wf(),
            final(self).edit_map() == old(self).edit_map().insert(
                spec_world_to_chunk(pos),
                (if old(self).edit_map().contains_key(spec_world_to_chunk(pos)) {
                    old(self).edit_map()[spec_world_to_chunk(pos)]
                } else {
                    Map::empty()
                }).insert(spec_local_index(pos) as usize, value),
            ),
            forall|q: IVec3|
                #[trigger] final(self).edit_at(q) == (if q == pos {
                    Some(value)
                } else {
                    old(self).edit_at(q)
                }),
            final(self).time_map() == old(self).time_map().insert(
                spec_world_to_chunk(pos),
                old(self).now(),
            ),
            final(self).dirty_map() == old(self).dirty_map().insert(spec_world_to_chunk(pos), true),
            final(self).config() == old(self).config(),
            final(self).now() >= old(self).now(),
            indices_in_chunk(old(self).edit_map()) ==> indices_in_chunk(final(self).edit_map()),
    {
        let (chunk_pos, local_idx) = split_world_pos(pos);
        let now = self.clock;
        let ghost old_deltas = self.deltas@;
        match self.deltas.find(&chunk_pos) {
            Some(i) => {
                proof {
                    self.deltas.lemma_view();
                }
                let d = self.deltas.value_at_mut(i);
                d.set(local_idx, value, now);
            },
            None => {
                let mut d = DeltaChunk::new(now);
                d.set(local_idx, value, now);
                self.deltas.insert(chunk_pos, d);
            },
        }
        self.clock = self.clock.saturating_add(1);
        proof {
            let c = chunk_pos;
            assert forall|k: IVec3| #[trigger] self.deltas@.contains_key(k) implies self.deltas@[k].wf() by {
                if k != c {
                    assert(old_deltas.contains_key(k));
                }
            }
            let nm = (if old(self).edit_map().contains_key(c) {
                old(self).edit_map()[c]
            } else {
                Map::empty()
            }).insert(local_idx, value);
            assert(self.edit_map() =~= old(self).edit_map().insert(c, nm));
            assert(self.time_map() =~= old(self).time_map().insert(c, now));
            assert(self.dirty_map() =~= old(self).dirty_map().insert(c, true));
            assert forall|q: IVec3| #[trigger] self.edit_at(q) == (if q == pos {
                Some(value)
            } else {
                old(self).edit_at(q)
            }) by {
                if q != pos && spec_world_to_chunk(q) == c && spec_local_index(q) == spec_local_index(pos) {
                    lemma_split_injective(q, pos);
                }
            }
        }
    }

    /// Edit recorded at world voxel `p`, if any.
    pub fn get_edit(&self, p: IVec3) -> (r: Option<VoxelValue>)
        requires
            self.wf(),
        ensures
            r == self.edit_at(p),
    {
        let (c, l) = split_world_pos(p);
        match self.deltas.get(&c) {
            Some(d) => match d.modifications.get(&l) {
                Some(v) => Some(*v),
                None => None,
            },
            None => None,
        }
    }

    /// The edit that lands on `p` from the chunks of its column, from its own
    /// chunk down to chunk height `lo`: that of the highest such chunk.
    fn seen_at(&self, p: IVec3, lo: i32) -> (r: Option<VoxelValue>)
        requires
            self.wf(),
            -67108864 <= lo <= chunk_coord(p.z as int),
        ensures
            r == reaching_edit(self.edit_map(), p, chunk_coord(p.z as int), lo as int),
    {
        let cx = div_chunk(p.x);
        let cy = div_chunk(p.y);
        let top = div_chunk(p.z);
        proof {
            lemma_chunk_coord_range(p.x as int);
            lemma_chunk_coord_range(p.y as int);
            lemma_chunk_coord_range(p.z as int);
        }
        let lx = p.x as i64 - 32 * cx as i64;
        let ly = p.y as i64 - 32 * cy as i64;
        let ghost m = self.edit_map();
        let mut cz = top;
        loop
            invariant
                self.wf(),
                m == self.edit_map(),
                lo <= cz <= top,
                top as int == chunk_coord(p.z as int),
                -67108864 <= top <= 67108863,
                cx as int == chunk_coord(p.x as int),
                cy as int == chunk_coord(p.y as int),
                lx as int == local_coord(p.x as int),
                ly as int == local_coord(p.y as int),
                0 <= lx < 32,
                0 <= ly < 32,
                -67108864 <= lo,
                reaching_edit(m, p, top as int, lo as int) == reaching_edit(m, p, cz as int, lo as int),
            decreases cz - lo,
        {
            let k: i64 = lx + 32 * ly + 1024 * (p.z as i64 - 32 * cz as i64);
            let c = IVec3 { x: cx, y: cy, z: cz };
            assert(k == index_reaching(p, cz as int));
            if k <= 0xffff_ffffi64 {
                match self.deltas.get(&c) {
                    Some(d) => {
                        proof {
                            assert(self.deltas@.contains_key(c));
                            assert(self.deltas@[c].wf());
                        }
                        match d.modifications.get(&(k as usize)) {
                            Some(v) => {
                                return Some(*v);
                            },
                            None => {},
                        }
                    },
                    None => {},
                }
            }
            if cz == lo {
                assert(reaching_edit(m, p, cz - 1, lo as int) is None);
                return None;
            }
            cz = cz - 1;
        }
    }

    /// Writes over `data`, a region read at `min`, the edits that land inside
    /// `[min, max]`: modification `i` of a chunk the box overlaps lands at
    /// `32 * chunk + (i % 32, i / 32 % 32, i / 1024)`; where several land on
    /// one voxel, that of the highest chunk stays.
    pub fn apply_to(&self, data: &mut VoxelData, min: IVec3, max: IVec3)
        requires
            self.wf(),
            size_ok(old(data).size),
            targets_fit(self.edit_map(), min, max),
        ensures
            final(data).size == old(data).size,
            final(data).values@ == apply_edits(
                old(data).values@,
                old(data).size,
                self.edit_map(),
                min,
                max,
            ),
    {
        let ghost target = apply_edits(data.values@, data.size, self.edit_map(), min, max);
        let ghost orig = data.values@;
        let size = data.size;
        let positive = size.x > 0 && size.y > 0 && size.z > 0;
        let n = data.values.len();
        let vol: u64 = if positive {
            proof {
                let (a, b, c) = (size.x as int, size.y as int, size.z as int);
                assert(0 < a * b <= a * b * c) by (nonlinear_arith)
                    requires
                        a > 0,
                        b > 0,
                        c > 0,
                ;
            }
            (size.x as u64) * (size.y as u64) * (size.z as u64)
        } else {
            0
        };
        let lo = div_chunk(min.z);
        let mut j: usize = 0;
        while j < n
            invariant
                self.wf(),
                lo as int == chunk_coord(min.z as int),
                data.size == size,
                size_ok(size),
                positive == region_positive(size),
                positive ==> vol == region_volume(size),
                n == data.values@.len(),
                n == orig.len(),
                target == apply_edits(orig, size, self.edit_map(), min, max),
                j <= n,
                forall|k: int| 0 <= k < j ==> #[trigger] data.values@[k] == target[k],
                forall|k: int| j <= k < n ==> #[trigger] data.values@[k] == orig[k],
            decreases n - j,
        {
            if positive && (j as u64) < vol {
                let sx = size.x as usize;
                let sy = size.y as usize;
                proof {
                    lemma_region_coords(size, j as int);
                    assert(sx * sy <= region_volume(size)) by (nonlinear_arith)
                        requires
                            sx * sy * (size.z as int) == region_volume(size),
                            size.z > 0,
                            sx > 0,
                            sy > 0,
                    ;
                }
                let x = (j % sx) as i64;
                let y = ((j / sx) % sy) as i64;
                let z = (j / (sx * sy)) as i64;
                let px = min.x as i64 + x;
                let py = min.y as i64 + y;
                let pz = min.z as i64 + z;
                if px <= max.x as i64 && py <= max.y as i64 && pz <= max.z as i64 {
                    let p = IVec3 { x: px as i32, y: py as i32, z: pz as i32 };
                    proof {
                        vstd::arithmetic::div_mod::lemma_div_is_ordered(min.z as int, p.z as int, 32);
                        lemma_chunk_coord_range(min.z as int);
                    }
                    match self.seen_at(p, lo) {
                        Some(v) => {
                            data.values.set(j, v);
                        },
                        None => {},
                    }
                }
            }
            j += 1;
        }
        assert(data.values@ =~= target);
    }

    /// Garbage collection: when more than `max_delta_chunks` chunks hold edits,
    /// evicts the surplus. LRU evicts the least recently modified chunks;
    /// SpatialLRU evicts the first chunks of `spatial_order` (the chunks outside
    /// the protected radius, farthest first, which the caller computes); Never
    /// evicts nothing.
    pub fn gc(&mut self, spatial_order: &Vec<IVec3>)
        requires
            old(self).wf(),
        ensures
            final(self).wf(),
            final(self).config() == old(self).config(),
            final(self).now() == old(self).now(),
            final(self).edit_map().dom().subset_of(old(self).edit_map().dom()),
            forall|c: IVec3| #[trigger]
                final(self).edit_map().contains_key(c) ==> final(self).edit_map()[c] == old(
                    self,
                ).edit_map()[c] && final(self).time_map()[c] == old(self).time_map()[c]
                    && final(self).dirty_map()[c] == old(self).dirty_map()[c],
            old(self).edit_map().dom().len() <= old(self).config().max_delta_chunks
                ==> final(self).edit_map() == old(self).edit_map(),
            old(self).config().eviction_policy == EvictionPolicy::Never ==> final(self).edit_map()
                == old(self).edit_map(),
            (old(self).edit_map().dom().len() > old(self).config().max_delta_chunks
                && old(self).config().eviction_policy == EvictionPolicy::LRU) ==> {
                &&& old(self).edit_map().dom().len() - final(self).edit_map().dom().len()
                    == old(self).edit_map().dom().len() - old(self).config().max_delta_chunks
                &&& forall|a: IVec3, b: IVec3|
                    #![trigger old(self).time_map()[a], final(self).edit_map().contains_key(b)]
                    old(self).edit_map().contains_key(a) && !final(self).edit_map().contains_key(a) && final(self).edit_map().contains_key(b)
                        ==> old(self).time_map()[a] <= old(self).time_map()[b]
            },
            (old(self).edit_map().dom().len() > old(self).config().max_delta_chunks
                && old(self).config().eviction_policy == EvictionPolicy::SpatialLRU) ==> {
                let k = old(self).edit_map().dom().len() - old(self).config().max_delta_chunks;
                let evicted = spatial_order@.subrange(
                    0,
                    if k < spatial_order@.len() { k } else { spatial_order@.len() as int },
                ).to_set();
                final(self).edit_map().dom() == old(self).edit_map().dom().difference(evicted)
            },
    {
        proof {
            self.deltas.lemma_view();
            assert(self.edit_map().dom() =~= self.deltas@.dom());
        }
        let count = self.deltas.len();
        if count <= self.gc_config.max_delta_chunks {
            return;
        }
        let to_remove = count - self.gc_config.max_delta_chunks;
        match self.gc_config.eviction_policy {
            EvictionPolicy::LRU => {
                self.evict_oldest(to_remove);
            },
            EvictionPolicy::SpatialLRU => {
                self.evict_in_order(spatial_order, to_remove);
            },
            EvictionPolicy::Never => {},
        }
    }

    /// Storage position of the least recently modified chunk.
    fn oldest_index(&self) -> (r: usize)
        requires
            self.wf(),
            self.deltas.key_seq().len() > 0,
        ensures
            r < self.deltas.key_seq().len(),
            forall|j: int|
                0 <= j < self.deltas.key_seq().len() ==> self.deltas.val_seq()[r as int].time()
                    <= #[trigger] self.deltas.val_seq()[j].time(),
    {
        proof {
            self.deltas.lemma_view();
        }
        let n = self.deltas.len();
        let mut best: usize = 0;
        let mut i: usize = 1;
        while i < n
            invariant
                self.wf(),
                n == self.deltas.key_seq().len(),
                best < n,
                1 <= i <= n,
                forall|j: int|
                    0 <= j < i ==> self.deltas.val_seq()[best as int].time()
                        <= #[trigger] self.deltas.val_seq()[j].time(),
            decreases n - i,
        {
            if self.deltas.value_at(i).last_modified < self.deltas.value_at(best).last_modified {
                best = i;
            }
            i += 1;
        }
        best
    }

    /// Evicts the `k` least recently modified chunks.
    fn evict_oldest(&mut self, k: usize)
        requires
            old(self).wf(),
            k <= old(self).edit_map().dom().len(),
        ensures
            final(self).wf(),
            final(self).config() == old(self).config(),
            final(self).now() == old(self).now(),
            final(self).edit_map().dom().subset_of(old(self).edit_map().dom()),
            forall|c: IVec3| #[trigger]
                final(self).edit_map().contains_key(c) ==> final(self).edit_map()[c] == old(
                    self,
                ).edit_map()[c] && final(self).time_map()[c] == old(self).time_map()[c]
                    && final(self).dirty_map()[c] == old(self).dirty_map()[c],
            old(self).edit_map().dom().len() - final(self).edit_map().dom().len() == k,
            forall|a: IVec3, b: IVec3|
                #![trigger old(self).time_map()[a], final(self).edit_map().contains_key(b)]
                old(self).edit_map().contains_key(a) && !final(self).edit_map().contains_key(a) && final(self).edit_map().contains_key(b)
                    ==> old(self).time_map()[a] <= old(self).time_map()[b],
    {
        proof {
            self.deltas.lemma_view();
            assert(self.edit_map().dom() =~= self.deltas@.dom());
        }
        let mut removed: usize = 0;
        while removed < k
            invariant
                self.wf(),
                old(self).wf(),
                self.gc_config == old(self).gc_config,
                self.clock == old(self).clock,
                removed <= k,
                k <= old(self).deltas@.dom().len(),
                self.deltas@.dom().subset_of(old(self).deltas@.dom()),
                old(self).deltas@.dom().len() - self.deltas@.dom().len() == removed,
                forall|c: IVec3| #[trigger]
                    self.deltas@.contains_key(c) ==> self.deltas@[c] == old(self).deltas@[c],
                forall|a: IVec3, b: IVec3|
                    #![trigger old(self).deltas@[a], self.deltas@.contains_key(b)]
                    old(self).deltas@.contains_key(a) && !self.deltas@.contains_key(a) && self.deltas@.contains_key(b)
                        ==> old(self).deltas@[a].time() <= old(self).deltas@[b].time(),
            decreases k - removed,
        {
            proof {
                self.deltas.lemma_view();
                old(self).deltas.lemma_view();
                vstd::set_lib::lemma_len_subset(self.deltas@.dom(), old(self).deltas@.dom());
            }
            let i = self.oldest_index();
            let key = self.deltas.key_at(i);
            let ghost before = self.deltas@;
            proof {
                assert forall|b: IVec3| #[trigger] before.contains_key(b) implies before[key].time()
                    <= before[b].time() by {
                    let j = choose|j: int| 0 <= j < self.deltas.key_seq().len() && self.deltas.key_seq()[j] == b;
                    assert(self.deltas.val_seq()[j] == before[b]);
                }
            }
            self.deltas.remove(&key);
            proof {
                assert(self.deltas@.dom() =~= before.dom().remove(key));
                assert forall|c: IVec3| #[trigger] self.deltas@.contains_key(c) implies self.deltas@[c].wf() by {
                    assert(before.contains_key(c));
                }
                assert forall|a: IVec3, b: IVec3|
                    #![trigger old(self).deltas@[a], self.deltas@.contains_key(b)]
                    old(self).deltas@.contains_key(a) && !self.deltas@.contains_key(a)
                        && self.deltas@.contains_key(b) implies old(self).deltas@[a].time()
                        <= old(self).deltas@[b].time() by {
                    assert(before.contains_key(b));
                    if a != key {
                        assert(!before.contains_key(a));
                    } else {
                        assert(before[key] == old(self).deltas@[key]);
                    }
                }
            }
            removed += 1;
        }
        proof {
            assert(self.edit_map().dom() =~= self.deltas@.dom());
            assert(old(self).edit_map().dom() =~= old(self).deltas@.dom());
        }
    }

    /// Evicts the chunks of `order[..min(k, order.len())]`.
    fn evict_in_order(&mut self, order: &Vec<IVec3>, k: usize)
        requires
            old(self).wf(),
        ensures
            final(self).wf(),
            final(self).config() == old(self).config(),
            final(self).now() == old(self).now(),
            forall|c: IVec3| #[trigger]
                final(self).edit_map().contains_key(c) ==> final(self).edit_map()[c] == old(
                    self,
                ).edit_map()[c] && final(self).time_map()[c] == old(self).time_map()[c]
                    && final(self).dirty_map()[c] == old(self).dirty_map()[c],
            final(self).edit_map().dom() == old(self).edit_map().dom().difference(
                order@.subrange(0, if k < order@.len() { k as int } else { order@.len() as int }).to_set(),
            ),
    {
        let limit = if k < order.len() {
            k
        } else {
            order.len()
        };
        let mut i: usize = 0;
        while i < limit
            invariant
                self.wf(),
                old(self).wf(),
                self.gc_config == old(self).gc_config,
                self.clock == old(self).clock,
                limit <= order@.len(),
                i <= limit,
                self.deltas@.dom() == old(self).deltas@.dom().difference(
                    order@.subrange(0, i as int).to_set(),
                ),
                forall|c: IVec3| #[trigger]
                    self.deltas@.contains_key(c) ==> self.deltas@[c] == old(self).deltas@[c],
            decreases limit - i,
        {
            let key = order[i];
            let ghost before = self.deltas@;
            self.deltas.remove(&key);
            proof {
                let s1 = order@.subrange(0, i as int);
                let s2 = order@.subrange(0, i + 1);
                assert(s2 =~= s1.push(key));
                assert forall|x: IVec3| s2.contains(x) <==> (s1.contains(x) || x == key) by {
                    if s2.contains(x) {
                        let j = choose|j: int| 0 <= j < s2.len() && s2[j] == x;
                        if j < s1.len() {
                            assert(s1[j] == x);
                        }
                    }
                    if s1.contains(x) {
                        let j = choose|j: int| 0 <= j < s1.len() && s1[j] == x;
                        assert(s2[j] == x);
                    }
                    if x == key {
                        assert(s2[i as int] == x);
                    }
                }
                assert(s2.to_set() =~= s1.to_set().insert(key));
                assert(self.deltas@.dom() =~= old(self).deltas@.dom().difference(
                    order@.subrange(0, i + 1).to_set(),
                ));
                assert forall|c: IVec3| #[trigger] self.deltas@.contains_key(c) implies self.deltas@[c].wf() by {
                    assert(before.contains_key(c));
                }
            }
            i += 1;
        }
        proof {
            assert(self.edit_map().dom() =~= old(self).edit_map().dom().difference(
                order@.subrange(0, limit as int).to_set(),
            ));
        }
    }

    /// Chunk positions in storage order (each chunk once).
    pub closed spec fn key_order(&self) -> Seq<IVec3> {
        self.deltas.key_seq()
    }

    /// The storage order lists every chunk of the store once.
    pub proof fn lemma_key_order(&self)
        requires
            self.wf(),
        ensures
            self.key_order().no_duplicates(),
            self.key_order().to_set() == self.edit_map().dom(),
            self.time_map().dom() == self.edit_map().dom(),
            self.dirty_map().dom() == self.edit_map().dom(),
    {
        self.deltas.lemma_view();
        assert(self.key_order().to_set() =~= self.edit_map().dom());
        assert(self.time_map().dom() =~= self.edit_map().dom());
        assert(self.dirty_map().dom() =~= self.edit_map().dom());
    }

    /// Each chunk holding edits, in storage order, with the logical time of its
    /// last modification (what a spatial eviction order is computed from).
    pub fn chunk_times(&self) -> (r: Vec<(IVec3, u64)>)
        requires
            self.wf(),
        ensures
            r@.len() == self.key_order().len(),
            forall|i: int|
                0 <= i < r@.len() ==> #[trigger] r@[i] == (
                    self.key_order()[i],
                    self.time_map()[self.key_order()[i]],
                ),
    {
        proof {
            self.deltas.lemma_view();
        }
        let n = self.deltas.len();
        let mut out: Vec<(IVec3, u64)> = Vec::new();
        let mut i: usize = 0;
        while i < n
            invariant
                self.wf(),
                n == self.deltas.key_seq().len(),
                i <= n,
                out@.len() == i,
                forall|j: int|
                    0 <= j < i ==> #[trigger] out@[j] == (
                        self.key_order()[j],
                        self.time_map()[self.key_order()[j]],
                    ),
            decreases n - i,
        {
            proof {
                self.deltas.lemma_view();
                assert(self.deltas.key_seq().contains(self.deltas.key_seq()[i as int]));
            }
            let c = self.deltas.key_at(i);
            let d = self.deltas.value_at(i);
            out.push((c, d.last_modified));
            i += 1;
        }
        out
    }

    /// Counts of modifications and dirty chunks, and the memory the
    /// modifications take (one index and one value each).
    pub fn stats(&self) -> (r: DeltaStats)
        requires
            self.wf(),
            sum_mod_counts(self.key_order(), self.edit_map()) * (vstd::layout::size_of::<usize>()
                + vstd::layout::size_of::<VoxelValue>()) <= usize::MAX,
            vstd::layout::size_of::<usize>() + vstd::layout::size_of::<VoxelValue>() <= usize::MAX,
        ensures
            r.total_deltas == sum_mod_counts(self.key_order(), self.edit_map()),
            r.memory_usage_bytes == r.total_deltas * (vstd::layout::size_of::<usize>()
                + vstd::layout::size_of::<VoxelValue>()),
            r.dirty_chunks == count_dirty(self.key_order(), self.dirty_map()),
    {
        broadcast use vstd::layout::layout_of_primitives;

        proof {
            self.deltas.lemma_view();
        }
        let n = self.deltas.len();
        let ghost ks = self.deltas.key_seq();
        let mut total: usize = 0;
        let mut dirty: usize = 0;
        let mut i: usize = 0;
        while i < n
            invariant
                self.wf(),
                n == ks.len(),
                ks == self.deltas.key_seq(),
                i <= n,
                total == sum_mod_counts(ks.subrange(0, i as int), self.edit_map()),
                dirty == count_dirty(ks.subrange(0, i as int), self.dirty_map()),
                dirty <= i,
                sum_mod_counts(ks, self.edit_map()) * (vstd::layout::size_of::<usize>()
                    + vstd::layout::size_of::<VoxelValue>()) <= usize::MAX,
                vstd::layout::size_of::<usize>() >= 4,
            decreases n - i,
        {
            proof {
                self.deltas.lemma_view();
                assert(self.deltas@.contains_key(ks[i as int]));
                assert(ks.subrange(0, i + 1).drop_last() =~= ks.subrange(0, i as int));
                lemma_sum_mod_counts_prefix(ks, self.edit_map(), i as int + 1);
                lemma_sum_mod_counts_prefix(ks, self.edit_map(), n as int);
            }
            let d = self.deltas.value_at(i);
            proof {
                let sub = ks.subrange(0, i + 1);
                assert(sub.last() == ks[i as int]);
                assert(self.edit_map()[ks[i as int]] == d.mods());
                assert(sum_mod_counts(sub, self.edit_map()) == total + d.mods().dom().len());
                let all = sum_mod_counts(ks, self.edit_map());
                let e = vstd::layout::size_of::<usize>() + vstd::layout::size_of::<VoxelValue>();
                assert(all <= usize::MAX) by (nonlinear_arith)
                    requires
                        all * e <= usize::MAX,
                        e >= 4,
                        all >= 0,
                ;
            }
            total = total + d.modifications.len();
            if d.dirty {
                dirty = dirty + 1;
            }
            i += 1;
        }
        proof {
            assert(ks.subrange(0, n as int) =~= ks);
        }
        let entry = core::mem::size_of::<usize>() + core::mem::size_of::<VoxelValue>();
        DeltaStats { total_deltas: total, memory_usage_bytes: total * entry, dirty_chunks: dirty }
    }

    /// Removes every edit.
    pub fn clear(&mut self)
        requires
            old(self).wf(),
        ensures
            final(self).wf(),
            final(self).edit_map() == Map::<IVec3, Map<usize, VoxelValue>>::empty(),
            final(self).config() == old(self).config(),
    {
        self.deltas.clear();
        assert(self.edit_map() =~= Map::<IVec3, Map<usize, VoxelValue>>::empty());
    }
}

// ---------------------------------------------------------------------------
// Save format
// ---------------------------------------------------------------------------

/// Errors of decoding a saved delta store.
#[derive(Clone, Copy, Debug, PartialEq, Eq, Structural)]
pub enum DecodeError {
    /// The bytes end before the data they announce.
    UnexpectedEof,
    /// The bytes do not start with the `DLTA` magic.
    InvalidMagic,
}

/// Little-endian bytes of `v` (`0 <= v < 2^32`).
pub open spec fn u32_bytes(v: int) -> Seq<u8> {
    let q1 = v / 256;
    let q2 = q1 / 256;
    let q3 = q2 / 256;
    seq![(v % 256) as u8, (q1 % 256) as u8, (q2 % 256) as u8, (q3 % 256) as u8]
}

/// Little-endian two's-complement bytes of an `i32`.
pub open spec fn i32_bytes(v: int) -> Seq<u8> {
    u32_bytes(
        if v < 0 {
            v + 0x1_0000_0000
        } else {
            v
        },
    )
}

/// Bytes of a voxel value: tag 0 and the block id (little endian), or tag 1,
/// density and material.
pub open spec fn value_bytes(v: VoxelValue) -> Seq<u8> {
    match v {
        VoxelValue::Block(b) => seq![0u8, (b % 256) as u8, (b / 256) as u8],
        VoxelValue::Density(d, m) => seq![1u8, d, m],
    }
}

/// Concatenation of `items`, first to last.
pub open spec fn concat(items: Seq<Seq<u8>>) -> Seq<u8>
    decreases items.len(),
{
    if items.len() == 0 {
        Seq::empty()
    } else {
        items[0] + concat(items.drop_first())
    }
}

/// Records of modifications `(keys[i], vals[i])`: index (u32) then value.
pub open spec fn mod_items(keys: Seq<usize>, vals: Seq<VoxelValue>) -> Seq<Seq<u8>> {
    Seq::new(keys.len(), |i: int| u32_bytes(keys[i] as int) + value_bytes(vals[i]))
}

/// A count as written in a 32-bit field: its low 32 bits.
pub open spec fn count_field(n: nat) -> int {
    (n % 0x1_0000_0000) as int
}

/// Record of one chunk: position (3 × i32), modification count (u32), modifications.
pub open spec fn chunk_bytes(c: IVec3, keys: Seq<usize>, vals: Seq<VoxelValue>) -> Seq<u8> {
    i32_bytes(c.x as int) + i32_bytes(c.y as int) + i32_bytes(c.z as int) + u32_bytes(
        count_field(keys.len()),
    ) + concat(mod_items(keys, vals))
}

/// The `DLTA` magic.
pub open spec fn magic() -> Seq<u8> {
    seq![68u8, 76u8, 84u8, 65u8]
}

/// Saved form of chunks `cs` with modification lists `ms`: magic, version 1,
/// chunk count, then one record per chunk.
pub open spec fn store_bytes(cs: Seq<IVec3>, ms: Seq<(Seq<usize>, Seq<VoxelValue>)>) -> Seq<u8> {
    magic() + u32_bytes(1) + u32_bytes(count_field(cs.len())) + concat(
        Seq::new(cs.len(), |i: int| chunk_bytes(cs[i], ms[i].0, ms[i].1)),
    )
}

/// Little-endian u32 at offset `off` of `b`.
pub open spec fn u32_at(b: Seq<u8>, off: int) -> int {
    b[off] + 256 * (b[off + 1] + 256 * (b[off + 2] + 256 * b[off + 3]))
}

/// Little-endian two's-complement i32 at offset `off` of `b`.
pub open spec fn i32_at(b: Seq<u8>, off: int) -> int {
    let u = u32_at(b, off);
    if u >= 0x8000_0000 {
        u - 0x1_0000_0000
    } else {
        u
    }
}

/// Voxel value of the 3 bytes at `off`: tag 0 reads a block id, any other tag
/// a density and a material.
pub open spec fn value_at(b: Seq<u8>, off: int) -> VoxelValue {
    if b[off] == 0 {
        VoxelValue::Block((b[off + 1] + 256 * b[off + 2]) as u16)
    } else {
        VoxelValue::Density(b[off + 1], b[off + 2])
    }
}

/// Parses `n` modification records from `off`, inserting them into `acc`;
/// returns the map and the offset after them.
pub open spec fn parse_mods(b: Seq<u8>, off: int, n: nat, acc: Map<usize, VoxelValue>) -> Result<
    (Map<usize, VoxelValue>, int),
    DecodeError,
>
    decreases n,
{
    if n == 0 {
        Ok((acc, off))
    } else if off + 7 > b.len() {
        Err(DecodeError::UnexpectedEof)
    } else {
        parse_mods(b, off + 7, (n - 1) as nat, acc.insert(u32_at(b, off) as usize, value_at(b, off + 4)))
    }
}

/// Parses `n` chunk records from `off`, inserting them into `acc` (a later
/// record of the same chunk replaces an earlier one).
pub open spec fn parse_chunks(
    b: Seq<u8>,
    off: int,
    n: nat,
    acc: Map<IVec3, Map<usize, VoxelValue>>,
) -> Result<Map<IVec3, Map<usize, VoxelValue>>, DecodeError>
    decreases n,
{
    if n == 0 {
        Ok(acc)
    } else if off + 16 > b.len() {
        Err(DecodeError::UnexpectedEof)
    } else {
        let c = IVec3 {
            x: i32_at(b, off) as i32,
            y: i32_at(b, off + 4) as i32,
            z: i32_at(b, off + 8) as i32,
        };
        match parse_mods(b, off + 16, u32_at(b, off + 12) as nat, Map::empty()) {
            Err(e) => Err(e),
            Ok((m, next)) => parse_chunks(b, next, (n - 1) as nat, acc.insert(c, m)),
        }
    }
}

/// Edits of a saved store, or why the bytes cannot be read.
pub open spec fn spec_decode(b: Seq<u8>) -> Result<Map<IVec3, Map<usize, VoxelValue>>, DecodeError> {
    if b.len() < 4 {
        Err(DecodeError::UnexpectedEof)
    } else if b.subrange(0, 4) != magic() {
        Err(DecodeError::InvalidMagic)
    } else if b.len() < 12 {
        Err(DecodeError::UnexpectedEof)
    } else {
        parse_chunks(b, 12, u32_at(b, 8) as nat, Map::empty())
    }
}

proof fn lemma_concat_push(items: Seq<Seq<u8>>, x: Seq<u8>)
    ensures
        concat(items.push(x)) == concat(items) + x,
    decreases items.len(),
{
    if items.len() == 0 {
        assert(items.push(x).drop_first() =~= Seq::<Seq<u8>>::empty());
        assert(concat(Seq::<Seq<u8>>::empty()) =~= Seq::<u8>::empty());
        assert(items.push(x)[0] == x);
        assert(concat(items.push(x)) =~= x + Seq::<u8>::empty());
        assert(x + Seq::<u8>::empty() =~= x);
        assert(concat(items) =~= Seq::<u8>::empty());
    } else {
        assert(items.push(x).drop_first() =~= items.drop_first().push(x));
        lemma_concat_push(items.drop_first(), x);
        assert(concat(items.push(x)) =~= concat(items) + x);
    }
}

proof fn lemma_u32_roundtrip(pre: Seq<u8>, v: int, rest: Seq<u8>)
    requires
        0 <= v < 0x1_0000_0000,
    ensures
        u32_at(pre + u32_bytes(v) + rest, pre.len() as int) == v,
        (pre + u32_bytes(v) + rest).len() == pre.len() + 4 + rest.len(),
{
    let b = pre + u32_bytes(v) + rest;
    let o = pre.len() as int;
    let q1 = v / 256;
    let q2 = q1 / 256;
    let q3 = q2 / 256;
    assert(b[o] == (v % 256) as u8);
    assert(b[o + 1] == (q1 % 256) as u8);
    assert(b[o + 2] == (q2 % 256) as u8);
    assert(b[o + 3] == (q3 % 256) as u8);
    assert(q3 < 256);
}

/// Exec form of `u32_bytes`.
fn push_u32(out: &mut Vec<u8>, v: u32)
    ensures
        final(out)@ == old(out)@ + u32_bytes(v as int),
{
    out.push((v % 256) as u8);
    out.push(((v / 256) % 256) as u8);
    out.push(((v / 256 / 256) % 256) as u8);
    out.push(((v / 256 / 256 / 256) % 256) as u8);
    assert(out@ =~= old(out)@ + u32_bytes(v as int));
}

/// Exec form of `i32_bytes`.
fn push_i32(out: &mut Vec<u8>, v: i32)
    ensures
        final(out)@ == old(out)@ + i32_bytes(v as int),
{
    let u: u32 = if v < 0 {
        (v as i64 + 0x1_0000_0000i64) as u32
    } else {
        v as u32
    };
    push_u32(out, u);
}

/// Exec form of `value_bytes`.
fn push_value(out: &mut Vec<u8>, v: VoxelValue)
    ensures
        final(out)@ == old(out)@ + value_bytes(v),
{
    match v {
        VoxelValue::Block(b) => {
            out.push(0u8);
            out.push((b % 256) as u8);
            out.push((b / 256) as u8);
        },
        VoxelValue::Density(d, m) => {
            out.push(1u8);
            out.push(d);
            out.push(m);
        },
    }
    assert(out@ =~= old(out)@ + value_bytes(v));
}

/// Little-endian u32 at `off`.
fn read_u32(b: &Vec<u8>, off: usize) -> (r: u32)
    requires
        off + 4 <= b.len(),
    ensures
        r as int == u32_at(b@, off as int),
{
    let b0 = b[off] as u32;
    let b1 = b[off + 1] as u32;
    let b2 = b[off + 2] as u32;
    let b3 = b[off + 3] as u32;
    b0 + 256 * (b1 + 256 * (b2 + 256 * b3))
}

/// Little-endian two's-complement i32 at `off`.
fn read_i32(b: &Vec<u8>, off: usize) -> (r: i32)
    requires
        off + 4 <= b.len(),
    ensures
        r as int == i32_at(b@, off as int),
{
    let u = read_u32(b, off);
    if u >= 0x8000_0000 {
        (u as i64 - 0x1_0000_0000i64) as i32
    } else {
        u as i32
    }
}

/// Modification lists of `n` parsed at `off`: the map of `fold_pairs`.
proof fn lemma_parse_mods_items(
    b: Seq<u8>,
    pre: Seq<u8>,
    keys: Seq<usize>,
    vals: Seq<VoxelValue>,
    rest: Seq<u8>,
    acc: Map<usize, VoxelValue>,
)
    requires
        keys.len() == vals.len(),
        forall|i: int| 0 <= i < keys.len() ==> #[trigger] keys[i] <= u32::MAX,
        b == pre + concat(mod_items(keys, vals)) + rest,
    ensures
        parse_mods(b, pre.len() as int, keys.len(), acc) == Ok::<_, DecodeError>(
            (fold_pairs(acc, keys, vals), (pre.len() + 7 * keys.len()) as int),
        ),
    decreases keys.len(),
{
    if keys.len() > 0 {
        let k0 = keys[0];
        let v0 = vals[0];
        let item = u32_bytes(k0 as int) + value_bytes(v0);
        let tail = concat(mod_items(keys.drop_first(), vals.drop_first()));
        assert(mod_items(keys, vals).drop_first() =~= mod_items(keys.drop_first(), vals.drop_first()));
        assert(concat(mod_items(keys, vals)) == item + tail);
        let o = pre.len() as int;
        assert(b =~= pre + u32_bytes(k0 as int) + (value_bytes(v0) + tail + rest));
        lemma_u32_roundtrip(pre, k0 as int, value_bytes(v0) + tail + rest);
        assert(b =~= (pre + item) + tail + rest);
        assert(value_at(b, o + 4) == v0) by {
            assert(b[o + 4] == value_bytes(v0)[0]);
            assert(b[o + 5] == value_bytes(v0)[1]);
            assert(b[o + 6] == value_bytes(v0)[2]);
            match v0 {
                VoxelValue::Block(x) => {
                    assert((x % 256) + 256 * (x / 256) == x);
                },
                VoxelValue::Density(_, _) => {},
            }
        }
        assert forall|i: int| 0 <= i < keys.drop_first().len() implies #[trigger] keys.drop_first()[i]
            <= u32::MAX by {
            assert(keys.drop_first()[i] == keys[i + 1]);
        }
        lemma_parse_mods_items(
            b,
            pre + item,
            keys.drop_first(),
            vals.drop_first(),
            rest,
            acc.insert(k0, v0),
        );
    }
}

proof fn lemma_i32_roundtrip(pre: Seq<u8>, v: int, rest: Seq<u8>)
    requires
        i32::MIN <= v <= i32::MAX,
    ensures
        i32_at(pre + i32_bytes(v) + rest, pre.len() as int) == v,
{
    let u = if v < 0 {
        v + 0x1_0000_0000
    } else {
        v
    };
    lemma_u32_roundtrip(pre, u, rest);
}

/// One chunk record parsed at the end of `pre`.
proof fn lemma_chunk_record(
    b: Seq<u8>,
    pre: Seq<u8>,
    c: IVec3,
    keys: Seq<usize>,
    vals: Seq<VoxelValue>,
    after: Seq<u8>,
)
    requires
        keys.len() == vals.len(),
        keys.len() < 0x1_0000_0000,
        forall|j: int| 0 <= j < keys.len() ==> #[trigger] keys[j] <= u32::MAX,
        b == pre + chunk_bytes(c, keys, vals) + after,
    ensures
        b.len() >= pre.len() + 16,
        i32_at(b, pre.len() as int) == c.x,
        i32_at(b, pre.len() + 4int) == c.y,
        i32_at(b, pre.len() + 8int) == c.z,
        u32_at(b, pre.len() + 12int) == keys.len(),
        parse_mods(b, pre.len() + 16int, keys.len(), Map::empty()) == Ok::<_, DecodeError>(
            (fold_pairs(Map::empty(), keys, vals), (pre.len() + chunk_bytes(c, keys, vals).len()) as int),
        ),
{
    let body = concat(mod_items(keys, vals));
    let hx = i32_bytes(c.x as int);
    let hy = i32_bytes(c.y as int);
    let hz = i32_bytes(c.z as int);
    let hn = u32_bytes(count_field(keys.len()));
    let tl = body + after;
    assert(count_field(keys.len()) == keys.len());
    assert(b =~= pre + hx + (hy + hz + hn + tl));
    lemma_i32_roundtrip(pre, c.x as int, hy + hz + hn + tl);
    assert(b =~= (pre + hx) + hy + (hz + hn + tl));
    lemma_i32_roundtrip(pre + hx, c.y as int, hz + hn + tl);
    assert(b =~= (pre + hx + hy) + hz + (hn + tl));
    lemma_i32_roundtrip(pre + hx + hy, c.z as int, hn + tl);
    assert(b =~= (pre + hx + hy + hz) + hn + tl);
    lemma_u32_roundtrip(pre + hx + hy + hz, keys.len() as int, tl);
    let pre2 = pre + hx + hy + hz + hn;
    assert(b =~= pre2 + body + after);
    lemma_parse_mods_items(b, pre2, keys, vals, after, Map::empty());
    lemma_mods_len(keys, vals);
}

proof fn lemma_mods_len(keys: Seq<usize>, vals: Seq<VoxelValue>)
    requires
        keys.len() == vals.len(),
    ensures
        concat(mod_items(keys, vals)).len() == 7 * keys.len(),
    decreases keys.len(),
{
    if keys.len() > 0 {
        assert(mod_items(keys, vals).drop_first() =~= mod_items(keys.drop_first(), vals.drop_first()));
        lemma_mods_len(keys.drop_first(), vals.drop_first());
    }
}

/// Chunk records parsed at the end of `pre`: the map of `fold_pairs` over the
/// chunks, each mapped to the map of its modification list.
#[verifier::spinoff_prover]
#[verifier::rlimit(40)]
proof fn lemma_parse_chunks_items(
    b: Seq<u8>,
    pre: Seq<u8>,
    cs: Seq<IVec3>,
    ms: Seq<(Seq<usize>, Seq<VoxelValue>)>,
    rest: Seq<u8>,
    acc: Map<IVec3, Map<usize, VoxelValue>>,
)
    requires
        cs.len() == ms.len(),
        forall|i: int|
            0 <= i < ms.len() ==> (#[trigger] ms[i]).0.len() == ms[i].1.len() && ms[i].0.len()
                < 0x1_0000_0000 && forall|j: int|
                0 <= j < ms[i].0.len() ==> #[trigger] ms[i].0[j] <= u32::MAX,
        b == pre + concat(Seq::new(cs.len(), |i: int| chunk_bytes(cs[i], ms[i].0, ms[i].1))) + rest,
    ensures
        parse_chunks(b, pre.len() as int, cs.len(), acc) == Ok::<_, DecodeError>(
            fold_pairs(
                acc,
                cs,
                Seq::new(cs.len(), |i: int| fold_pairs(Map::empty(), ms[i].0, ms[i].1)),
            ),
        ),
    decreases cs.len(),
{
    let items = Seq::new(cs.len(), |i: int| chunk_bytes(cs[i], ms[i].0, ms[i].1));
    let maps = Seq::new(cs.len(), |i: int| fold_pairs(Map::empty(), ms[i].0, ms[i].1));
    if cs.len() > 0 {
        let c = cs[0];
        let keys = ms[0].0;
        let vals = ms[0].1;
        let cs2 = cs.drop_first();
        let ms2 = ms.drop_first();
        let items2 = Seq::new(cs2.len(), |i: int| chunk_bytes(cs2[i], ms2[i].0, ms2[i].1));
        assert(items.drop_first() =~= items2);
        let tail = concat(items2);
        assert(concat(items) == items[0] + tail);
        assert(b =~= pre + chunk_bytes(c, keys, vals) + (tail + rest));
        lemma_chunk_record(b, pre, c, keys, vals, tail + rest);
        let pre2 = pre + chunk_bytes(c, keys, vals);
        assert(b =~= pre2 + tail + rest);
        assert forall|i: int|
            0 <= i < ms2.len() implies (#[trigger] ms2[i]).0.len() == ms2[i].1.len() && ms2[i].0.len()
            < 0x1_0000_0000 && forall|j: int|
            0 <= j < ms2[i].0.len() ==> #[trigger] ms2[i].0[j] <= u32::MAX by {
            assert(ms2[i] == ms[i + 1]);
        }
        lemma_parse_chunks_items(b, pre2, cs2, ms2, rest, acc.insert(c, maps[0]));
        let maps2 = Seq::new(cs2.len(), |i: int| fold_pairs(Map::empty(), ms2[i].0, ms2[i].1));
        assert(maps.drop_first() =~= maps2);
    }
}


impl DeltaChunk {
    /// Storage order lists each modification once, with indices of 32 bits.
    proof fn lemma_mod_count(&self)
        requires
            self.wf(),
        ensures
            self.modifications.key_seq().len() == self.mods().dom().len(),
            self.modifications.key_seq().len() == self.modifications.val_seq().len(),
            forall|j: int|
                0 <= j < self.modifications.key_seq().len() ==> #[trigger] self.modifications.key_seq()[j]
                    <= u32::MAX,
    {
        self.modifications.lemma_view();
        assert forall|j: int| 0 <= j < self.modifications.key_seq().len() implies #[trigger]
            self.modifications.key_seq()[j] <= u32::MAX by {
            let k = self.modifications.key_seq()[j];
            assert(self.modifications.key_seq().contains(k));
            assert(self.modifications@.contains_key(k));
        }
    }
}

impl DeltaStore {
    /// The chunk count and every chunk's modification count fit the 32-bit
    /// count fields of the save format.
    pub open spec fn counts_fit(&self) -> bool {
        &&& self.edit_map().dom().len() <= u32::MAX
        &&& forall|c: IVec3| #[trigger] self.edit_map().contains_key(c) ==> self.edit_map()[c].dom().len() <= u32::MAX
    }

    /// Modification lists (indices, values) of the chunks, in storage order.
    pub closed spec fn mod_lists(&self) -> Seq<(Seq<usize>, Seq<VoxelValue>)> {
        Seq::new(
            self.deltas.val_seq().len(),
            |i: int|
                (
                    self.deltas.val_seq()[i].modifications.key_seq(),
                    self.deltas.val_seq()[i].modifications.val_seq(),
                ),
        )
    }

    /// Saved form of the store: the chunks and their modifications in storage order.
    pub closed spec fn encoding(&self) -> Seq<u8> {
        store_bytes(self.key_order(), self.mod_lists())
    }

    proof fn lemma_mod_lists(&self)
        requires
            self.wf(),
        ensures
            self.key_order().len() == self.mod_lists().len(),
            forall|i: int|
                0 <= i < self.mod_lists().len() ==> (#[trigger] self.mod_lists()[i]).0.len()
                    == self.mod_lists()[i].1.len() && (self.counts_fit() ==> self.mod_lists()[i].0.len()
                    < 0x1_0000_0000) && forall|j: int|
                    0 <= j < self.mod_lists()[i].0.len() ==> #[trigger] self.mod_lists()[i].0[j]
                        <= u32::MAX,
            forall|i: int|
                0 <= i < self.mod_lists().len() ==> fold_pairs(
                    Map::empty(),
                    #[trigger] self.mod_lists()[i].0,
                    self.mod_lists()[i].1,
                ) == self.edit_map()[self.key_order()[i]],
    {
        self.deltas.lemma_view();
        let ms = self.mod_lists();
        assert forall|i: int| 0 <= i < ms.len() implies (#[trigger] ms[i]).0.len() == ms[i].1.len()
            && (self.counts_fit() ==> ms[i].0.len() < 0x1_0000_0000) && forall|j: int|
            0 <= j < ms[i].0.len() ==> #[trigger] ms[i].0[j] <= u32::MAX by {
            let c = self.deltas.key_seq()[i];
            assert(self.deltas.key_seq().contains(c));
            assert(self.deltas@.contains_key(c));
            assert(self.deltas@[c].wf());
            assert(self.deltas@[c] == self.deltas.val_seq()[i]);
            self.deltas.val_seq()[i].lemma_mod_count();
            assert(self.edit_map().contains_key(c));
            assert(self.edit_map()[c] == self.deltas@[c].mods());
        }
        assert forall|i: int| 0 <= i < ms.len() implies fold_pairs(
            Map::empty(),
            #[trigger] ms[i].0,
            ms[i].1,
        ) == self.edit_map()[self.key_order()[i]] by {
            let c = self.deltas.key_seq()[i];
            assert(self.deltas.key_seq().contains(c));
            assert(self.deltas@.contains_key(c));
            assert(self.deltas@[c].wf());
            assert(self.deltas@[c] == self.deltas.val_seq()[i]);
            self.deltas.val_seq()[i].lemma_mod_count();
            self.deltas.val_seq()[i].modifications.lemma_fold();
        }
    }

    /// Decoding the saved form of a store gives back its edits.
    pub proof fn lemma_encoding_decodes(&self)
        requires
            self.wf(),
            self.counts_fit(),
        ensures
            spec_decode(self.encoding()) == Ok::<_, DecodeError>(self.edit_map()),
    {
        self.lemma_mod_lists();
        self.deltas.lemma_view();
        let cs = self.key_order();
        let ms = self.mod_lists();
        let n = cs.len() as int;
        let body = concat(Seq::new(cs.len(), |i: int| chunk_bytes(cs[i], ms[i].0, ms[i].1)));
        let b = self.encoding();
        let pre = magic() + u32_bytes(1) + u32_bytes(n);
        assert(self.edit_map().dom() =~= self.deltas@.dom());
        assert(count_field(cs.len()) == n);
        lemma_store_header(b, n, body);
        lemma_parse_chunks_items(b, pre, cs, ms, Seq::<u8>::empty(), Map::empty());
        self.lemma_chunk_maps();
    }

    proof fn lemma_chunk_maps(&self)
        requires
            self.wf(),
        ensures
            fold_pairs(
                Map::empty(),
                self.key_order(),
                Seq::new(
                    self.key_order().len(),
                    |i: int| fold_pairs(Map::empty(), self.mod_lists()[i].0, self.mod_lists()[i].1),
                ),
            ) == self.edit_map(),
    {
        self.lemma_mod_lists();
        self.deltas.lemma_view();
        let cs = self.key_order();
        let ms = self.mod_lists();
        let maps = Seq::new(cs.len(), |i: int| fold_pairs(Map::empty(), ms[i].0, ms[i].1));
        lemma_fold_pairs(Map::empty(), cs, maps);
        assert forall|c: IVec3| #[trigger] self.edit_map().contains_key(c) implies pairs_to_map(
            cs,
            maps,
        )[c] == self.edit_map()[c] by {
            assert(self.deltas.key_seq().contains(c));
            let i = choose|i: int| 0 <= i < cs.len() && cs[i] == c;
            crate::vec_map::lemma_key_pos(cs, i);
            assert(fold_pairs(Map::empty(), ms[i].0, ms[i].1) == self.edit_map()[cs[i]]);
        }
        assert(Map::<IVec3, Map<usize, VoxelValue>>::empty().union_prefer_right(
            pairs_to_map(cs, maps),
        ) =~= self.edit_map());
    }
}


/// The header of a saved store: magic, version, then the chunk count `n`.
proof fn lemma_store_header(b: Seq<u8>, n: int, body: Seq<u8>)
    requires
        0 <= n <= u32::MAX,
        b == magic() + u32_bytes(1) + u32_bytes(n) + body,
    ensures
        b.len() >= 12,
        b.subrange(0, 4) == magic(),
        u32_at(b, 8) == n,
        b == (magic() + u32_bytes(1) + u32_bytes(n)) + body + Seq::<u8>::empty(),
{
    assert(b =~= magic() + u32_bytes(1) + (u32_bytes(n) + body));
    lemma_u32_roundtrip(magic(), 1, u32_bytes(n) + body);
    assert(b =~= (magic() + u32_bytes(1)) + u32_bytes(n) + body);
    lemma_u32_roundtrip(magic() + u32_bytes(1), n, body);
    assert(b.subrange(0, 4) =~= magic());
    assert(b =~= (magic() + u32_bytes(1) + u32_bytes(n)) + body + Seq::<u8>::empty());
}


impl DeltaStore {
    /// The saved form of the store (`DLTA` magic, version 1, chunk count, then
    /// each chunk's position, modification count and modifications).
    pub fn encode(&self) -> (r: Vec<u8>)
        requires
            self.wf(),
        ensures
            r@ == self.encoding(),
    {
        proof {
            self.lemma_mod_lists();
            self.deltas.lemma_view();
            assert(self.edit_map().dom() =~= self.deltas@.dom());
        }
        let ghost cs = self.key_order();
        let ghost ms = self.mod_lists();
        let ghost items = Seq::new(cs.len(), |i: int| chunk_bytes(cs[i], ms[i].0, ms[i].1));
        let mut out: Vec<u8> = Vec::new();
        out.push(68u8);
        out.push(76u8);
        out.push(84u8);
        out.push(65u8);
        push_u32(&mut out, 1);
        let n = self.deltas.len();
        push_u32(&mut out, (n as u64 % 0x1_0000_0000u64) as u32);
        let ghost header = magic() + u32_bytes(1) + u32_bytes(count_field(n as nat));
        assert(out@ =~= header);
        let mut i: usize = 0;
        while i < n
            invariant
                self.wf(),
                n == cs.len(),
                cs == self.key_order(),
                ms == self.mod_lists(),
                cs.len() == ms.len(),
                items == Seq::new(cs.len(), |i: int| chunk_bytes(cs[i], ms[i].0, ms[i].1)),
                i <= n,
                out@ == header + concat(items.subrange(0, i as int)),
            decreases n - i,
        {
            let c = self.deltas.key_at(i);
            let d = self.deltas.value_at(i);
            proof {
                self.deltas.lemma_view();
                assert(self.deltas.key_seq().contains(cs[i as int]));
                assert(self.deltas@.contains_key(cs[i as int]));
                assert(self.deltas@[cs[i as int]].wf());
                assert(d == self.deltas.val_seq()[i as int]);
                d.lemma_mod_count();
            }
            let ghost keys = d.modifications.key_seq();
            let ghost vals = d.modifications.val_seq();
            let ghost start = out@;
            push_i32(&mut out, c.x);
            push_i32(&mut out, c.y);
            push_i32(&mut out, c.z);
            let m = d.modifications.len();
            push_u32(&mut out, (m as u64 % 0x1_0000_0000u64) as u32);
            let ghost head = i32_bytes(c.x as int) + i32_bytes(c.y as int) + i32_bytes(c.z as int)
                + u32_bytes(count_field(m as nat));
            assert(out@ =~= start + head);
            let mut j: usize = 0;
            while j < m
                invariant
                    d.wf(),
                    m == keys.len(),
                    keys == d.modifications.key_seq(),
                    vals == d.modifications.val_seq(),
                    keys.len() == vals.len(),
                    forall|t: int| 0 <= t < keys.len() ==> #[trigger] keys[t] <= u32::MAX,
                    j <= m,
                    out@ == start + head + concat(mod_items(keys, vals).subrange(0, j as int)),
                decreases m - j,
            {
                let k = d.modifications.key_at(j);
                let v = *d.modifications.value_at(j);
                let ghost before = out@;
                push_u32(&mut out, k as u32);
                push_value(&mut out, v);
                proof {
                    let its = mod_items(keys, vals);
                    assert(its.subrange(0, j + 1) =~= its.subrange(0, j as int).push(its[j as int]));
                    lemma_concat_push(its.subrange(0, j as int), its[j as int]);
                    assert(out@ =~= start + head + concat(its.subrange(0, j + 1)));
                }
                j += 1;
            }
            proof {
                assert(mod_items(keys, vals).subrange(0, m as int) =~= mod_items(keys, vals));
                assert(ms[i as int] == (keys, vals));
                assert(items[i as int] == start.subrange(0, 0) + chunk_bytes(c, keys, vals)) by {
                    assert(start.subrange(0, 0) =~= Seq::<u8>::empty());
                    assert(Seq::<u8>::empty() + chunk_bytes(c, keys, vals) =~= chunk_bytes(c, keys, vals));
                }
                assert(items.subrange(0, i + 1) =~= items.subrange(0, i as int).push(items[i as int]));
                lemma_concat_push(items.subrange(0, i as int), items[i as int]);
                assert(out@ =~= header + concat(items.subrange(0, i + 1)));
            }
            i += 1;
        }
        proof {
            assert(items.subrange(0, n as int) =~= items);
        }
        out
    }
}

/// Reads `count` modification records from `start`: the parsed map and the
/// offset after them, or the error `parse_mods` gives.
fn decode_mods(b: &Vec<u8>, start: usize, count: u32) -> (r: Result<
    (VecMap<usize, VoxelValue>, usize),
    DecodeError,
>)
    requires
        start <= b.len(),
    ensures
        r is Ok <==> parse_mods(b@, start as int, count as nat, Map::empty()) is Ok,
        r is Ok ==> {
            let (v, o) = r->Ok_0;
            &&& v.wf()
            &&& v@ == parse_mods(b@, start as int, count as nat, Map::empty())->Ok_0.0
            &&& o as int == parse_mods(b@, start as int, count as nat, Map::empty())->Ok_0.1
            &&& o <= b.len()
            &&& forall|k: usize| #[trigger] v@.contains_key(k) ==> k <= u32::MAX
        },
        r is Err ==> r->Err_0 == parse_mods(b@, start as int, count as nat, Map::empty())->Err_0,
{
    let n = b.len();
    let mut mods: VecMap<usize, VoxelValue> = VecMap::new();
    let mut off = start;
    let mut k = count;
    while k > 0
        invariant
            n == b.len(),
            off <= n,
            mods.wf(),
            forall|q: usize| #[trigger] mods@.contains_key(q) ==> q <= u32::MAX,
            parse_mods(b@, start as int, count as nat, Map::empty()) == parse_mods(
                b@,
                off as int,
                k as nat,
                mods@,
            ),
        decreases k,
    {
        if n - off < 7 {
            return Err(DecodeError::UnexpectedEof);
        }
        let idx = read_u32(b, off);
        let tag = b[off + 4];
        let b1 = b[off + 5];
        let b2 = b[off + 6];
        let value = if tag == 0 {
            VoxelValue::Block((b1 as u16) + 256u16 * (b2 as u16))
        } else {
            VoxelValue::Density(b1, b2)
        };
        assert(value == value_at(b@, off + 4));
        mods.insert(idx as usize, value);
        off = off + 7;
        k = k - 1;
    }
    Ok((mods, off))
}

impl DeltaStore {
    /// Reads a saved store; chunks are loaded dirty, with the default
    /// garbage-collection configuration.
    pub fn decode(bytes: &Vec<u8>) -> (r: Result<DeltaStore, DecodeError>)
        ensures
            r is Ok <==> spec_decode(bytes@) is Ok,
            r is Ok ==> {
                let s = r->Ok_0;
                &&& s.wf()
                &&& s.edit_map() == spec_decode(bytes@)->Ok_0
                &&& s.config().max_delta_chunks == 1000
                &&& s.config().eviction_policy == EvictionPolicy::LRU
                &&& !s.config().auto_flush
                &&& forall|c: IVec3| #[trigger] s.dirty_map().contains_key(c) ==> s.dirty_map()[c]
            },
            r is Err ==> r->Err_0 == spec_decode(bytes@)->Err_0,
    {
        let n = bytes.len();
        if n < 4 {
            return Err(DecodeError::UnexpectedEof);
        }
        if !(bytes[0] == 68u8 && bytes[1] == 76u8 && bytes[2] == 84u8 && bytes[3] == 65u8) {
            proof {
                let h = bytes@.subrange(0, 4);
                assert(h[0] == bytes@[0] && h[1] == bytes@[1] && h[2] == bytes@[2] && h[3] == bytes@[3]);
                assert(h != magic());
            }
            return Err(DecodeError::InvalidMagic);
        }
        assert(bytes@.subrange(0, 4) =~= magic());
        if n < 12 {
            return Err(DecodeError::UnexpectedEof);
        }
        let count = read_u32(bytes, 8);
        let mut store = DeltaStore::new(GCConfig::default());
        let mut off: usize = 12;
        let mut remaining = count;
        while remaining > 0
            invariant
                n == bytes.len(),
                off <= n,
                store.wf(),
                store.now() == 0,
                store.config().max_delta_chunks == 1000,
                store.config().eviction_policy == EvictionPolicy::LRU,
                !store.config().auto_flush,
                forall|c: IVec3| #[trigger] store.dirty_map().contains_key(c) ==> store.dirty_map()[c],
                spec_decode(bytes@) == parse_chunks(bytes@, off as int, remaining as nat, store.edit_map()),
            decreases remaining,
        {
            if n - off < 16 {
                return Err(DecodeError::UnexpectedEof);
            }
            let x = read_i32(bytes, off);
            let y = read_i32(bytes, off + 4);
            let z = read_i32(bytes, off + 8);
            let mc = read_u32(bytes, off + 12);
            let c = IVec3 { x, y, z };
            match decode_mods(bytes, off + 16, mc) {
                Err(e) => {
                    return Err(e);
                },
                Ok((mods, next)) => {
                    let d = DeltaChunk { modifications: mods, last_modified: store.clock, dirty: true };
                    let ghost old_store = store;
                    store.deltas.insert(c, d);
                    proof {
                        assert forall|q: IVec3| #[trigger] store.deltas@.contains_key(q) implies store.deltas@[q].wf() by {
                            if q != c {
                                assert(old_store.deltas@.contains_key(q));
                            }
                        }
                        assert(store.edit_map() =~= old_store.edit_map().insert(c, d.mods()));
                        assert forall|q: IVec3| #[trigger] store.dirty_map().contains_key(q) implies store.dirty_map()[q] by {
                            if q != c {
                                assert(old_store.dirty_map().contains_key(q));
                            }
                        }
                    }
                    off = next;
                },
            }
            remaining = remaining - 1;
        }
        Ok(store)
    }
}


/// The overlay at the index of a voxel of the box: the edit that lands on it
/// (`seen_edit`) where there is one, the underlying value elsewhere.
pub proof fn lemma_apply_edits_at(
    values: Seq<VoxelValue>,
    m: Map<IVec3, Map<usize, VoxelValue>>,
    min: IVec3,
    max: IVec3,
    p: IVec3,
)
    requires
        range_ok(min, max),
        in_box(min, max, p),
        values.len() == region_volume(range_size(min, max)),
    ensures
        0 <= box_index(min, max, p) < values.len(),
        apply_edits(values, range_size(min, max), m, min, max)[box_index(min, max, p)] == (
        match seen_edit(m, p, min) {
            Some(v) => v,
            None => values[box_index(min, max, p)],
        }),
{
    lemma_box_index(min, max, p);
}

/// What a read sees at `p` is `p`'s own edit where it has one, since `p`'s
/// own chunk is the highest of its column that can reach it; where every index
/// lies inside its chunk, no other chunk reaches `p` at all.
pub proof fn lemma_seen_edit_own(m: Map<IVec3, Map<usize, VoxelValue>>, p: IVec3, min: IVec3)
    requires
        min.z <= p.z,
    ensures
        edit_lookup(m, p) is Some ==> seen_edit(m, p, min) == edit_lookup(m, p),
        indices_in_chunk(m) ==> seen_edit(m, p, min) == edit_lookup(m, p),
{
    let top = chunk_coord(p.z as int);
    let lo = chunk_coord(min.z as int);
    vstd::arithmetic::div_mod::lemma_div_is_ordered(min.z as int, p.z as int, 32);
    lemma_chunk_coord_range(p.x as int);
    lemma_chunk_coord_range(p.y as int);
    lemma_chunk_coord_range(p.z as int);
    lemma_idx_decompose(local_coord(p.x as int), local_coord(p.y as int), local_coord(p.z as int));
    let c = IVec3 { x: chunk_coord(p.x as int) as i32, y: chunk_coord(p.y as int) as i32, z: top as i32 };
    assert(c == spec_world_to_chunk(p));
    assert(index_reaching(p, top) == spec_local_index(p));
    if indices_in_chunk(m) {
        lemma_reaching_none_below(m, p, top - 1, lo);
    }
}

/// Where every index lies inside its chunk, no chunk below `p`'s own reaches `p`.
proof fn lemma_reaching_none_below(m: Map<IVec3, Map<usize, VoxelValue>>, p: IVec3, cz: int, lo: int)
    requires
        indices_in_chunk(m),
        cz < chunk_coord(p.z as int),
    ensures
        reaching_edit(m, p, cz, lo) is None,
    decreases cz + 1 - lo,
{
    if cz >= lo {
        lemma_chunk_coord_range(p.x as int);
        lemma_chunk_coord_range(p.y as int);
        lemma_chunk_coord_range(p.z as int);
        let c = IVec3 { x: chunk_coord(p.x as int) as i32, y: chunk_coord(p.y as int) as i32, z: cz as i32 };
        let k = index_reaching(p, cz);
        assert(k >= 32768);
        if m.contains_key(c) && 0 <= k <= u32::MAX && m[c].contains_key(k as usize) {
            assert((k as usize) < CHUNK_VOLUME);
        }
        lemma_reaching_none_below(m, p, cz - 1, lo);
    }
}

// ---------------------------------------------------------------------------
// Provider with an edit overlay
// ---------------------------------------------------------------------------

/// A read-only base provider with a delta store of edits over it: reads see
/// the edits, writes go to the delta store.
pub struct ProviderWithEdits<P: VoxelProvider> {
    base: Arc<P>,
    delta: DeltaStore,
}

impl<P: VoxelProvider> ProviderWithEdits<P> {
    /// The base provider.
    pub closed spec fn base(&self) -> P {
        *self.base
    }

    /// The delta store of edits.
    pub closed spec fn edits(&self) -> DeltaStore {
        self.delta
    }

    /// The delta store is consistent.
    pub closed spec fn wf(&self) -> bool {
        self.delta.wf()
    }

    /// Overlay over `base` with no edits yet.
    pub fn new(base: Arc<P>, gc_config: GCConfig) -> (r: Self)
        ensures
            r.wf(),
            r.base() == *base,
            r.edits().edit_map() == Map::<IVec3, Map<usize, VoxelValue>>::empty(),
            r.edits().config() == gc_config,
    {
        ProviderWithEdits { base, delta: DeltaStore::new(gc_config) }
    }

    /// The delta store (for saving).
    pub fn delta(&self) -> (r: &DeltaStore)
        ensures
            *r == self.edits(),
    {
        &self.delta
    }

    /// The delta store, for loading, clearing or collecting.
    pub fn delta_mut(&mut self) -> (r: &mut DeltaStore)
        ensures
            *r == old(self).edits(),
            final(self).edits() == *final(r),
            final(self).base() == old(self).base(),
    {
        &mut self.delta
    }

    /// A read through the overlay gives, at each voxel of the box, the edit
    /// that lands on it where there is one and the base provider's value
    /// elsewhere. The voxel's own edit, where it has one, is what the read
    /// gives; where every recorded index lies inside its chunk (as with edits
    /// made by writes), the read gives exactly the voxel's own edit or the
    /// base value.
    pub proof fn lemma_read_sees_edits(&self, min: IVec3, max: IVec3, lod: u32, p: IVec3)
        requires
            range_ok(min, max),
            in_box(min, max, p),
            self.base().spec_read_range(min, max, lod) is Ok,
            self.base().spec_read_range(min, max, lod)->Ok_0.0 == range_size(min, max),
            self.base().spec_read_range(min, max, lod)->Ok_0.1.len() == region_volume(
                range_size(min, max),
            ),
        ensures
            self.spec_read_range(min, max, lod) is Ok,
            self.spec_read_range(min, max, lod)->Ok_0.0 == range_size(min, max),
            self.spec_read_range(min, max, lod)->Ok_0.1[box_index(min, max, p)] == (
            match seen_edit(self.edits().edit_map(), p, min) {
                Some(v) => v,
                None => self.base().spec_read_range(min, max, lod)->Ok_0.1[box_index(min, max, p)],
            }),
            self.edits().edit_at(p) is Some || indices_in_chunk(self.edits().edit_map())
                ==> self.spec_read_range(min, max, lod)->Ok_0.1[box_index(min, max, p)] == (
            match self.edits().edit_at(p) {
                Some(v) => v,
                None => self.base().spec_read_range(min, max, lod)->Ok_0.1[box_index(min, max, p)],
            }),
    {
        let vals = self.base().spec_read_range(min, max, lod)->Ok_0.1;
        lemma_apply_edits_at(vals, self.edits().edit_map(), min, max, p);
        lemma_seen_edit_own(self.edits().edit_map(), p, min);
    }
}

impl<P: VoxelProvider> VoxelProvider for ProviderWithEdits<P> {
    open spec fn spec_read_range(&self, min: IVec3, max: IVec3, lod: u32) -> Result<
        (IVec3, Seq<VoxelValue>),
        ProviderError,
    > {
        match self.base().spec_read_range(min, max, lod) {
            Ok((size, vals)) => Ok(
                (size, apply_edits(vals, size, self.edits().edit_map(), min, max)),
            ),
            Err(e) => Err(e),
        }
    }

    open spec fn read_ok(&self, min: IVec3, max: IVec3, lod: u32) -> bool {
        &&& self.wf()
        &&& self.base().read_ok(min, max, lod)
        &&& targets_fit(self.edits().edit_map(), min, max)
    }

    open spec fn write_ok(&self, pos: IVec3, value: VoxelValue) -> bool {
        self.wf()
    }

    open spec fn spec_writable(&self) -> bool {
        true
    }

    open spec fn provider_wf(&self) -> bool {
        self.wf()
    }

    /// Every write goes to the delta store.
    fn can_write(&self, pos: IVec3, value: VoxelValue) -> (r: bool) {
        true
    }

    /// Reads the base provider, then writes the edits inside the box over it.
    fn read_range(&self, min: IVec3, max: IVec3, lod: u32) -> (r: Result<VoxelData, ProviderError>) {
        let mut data = match self.base.read_range(min, max, lod) {
            Ok(d) => d,
            Err(e) => {
                return Err(e);
            },
        };
        self.delta.apply_to(&mut data, min, max);
        Ok(data)
    }

    /// Records the write in the delta store.
    fn write_voxel(&mut self, pos: IVec3, value: VoxelValue) -> (r: Result<(), ProviderError>)
        ensures
            r is Ok,
            final(self).wf(),
            final(self).base() == old(self).base(),
            forall|q: IVec3|
                #[trigger] final(self).edits().edit_at(q) == (if q == pos {
                    Some(value)
                } else {
                    old(self).edits().edit_at(q)
                }),
            final(self).edits().config() == old(self).edits().config(),
    {
        self.delta.set_voxel(pos, value);
        Ok(())
    }

    fn provider_name(&self) -> (r: &'static str)
        ensures
            r@ == "ProviderWithEdits"@,
    {
        "ProviderWithEdits"
    }

    fn is_writable(&self) -> (r: bool) {
        true
    }
}

} // verus!
