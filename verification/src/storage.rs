//! Bounded pools of chunks and meshes, reused instead of reallocated.
use vstd::prelude::*;
use std::collections::VecDeque;
use crate::chunk::{Chunk, AIR};
use crate::coords::{IVec3, CHUNK_VOLUME};
use crate::meshing::MeshData;

verus! {

/// Room left in a pool holding `len` items below `capacity` (none once full).
pub open spec fn free_room(len: int, capacity: int) -> int {
    if len < capacity {
        capacity - len
    } else {
        0
    }
}

/// The smaller of two integers.
pub open spec fn spec_min(a: int, b: int) -> int {
    if a < b {
        a
    } else {
        b
    }
}

/// The larger of two integers.
pub open spec fn spec_max(a: int, b: int) -> int {
    if a < b {
        b
    } else {
        a
    }
}

/// Counters of a chunk pool.
#[derive(Clone, Copy, Debug)]
pub struct ChunkPoolStats {
    /// Chunks waiting in the pool.
    pub available_chunks: usize,
    /// Chunks created because the pool was empty.
    pub allocations: u64,
    /// Chunks handed out from the pool.
    pub reuses: u64,
}

/// Pool of chunks waiting to be reused, oldest first, at most `max_size` of them.
pub struct ChunkPool {
    available: VecDeque<Chunk>,
    max_size: usize,
    /// Counters.
    pub stats: ChunkPoolStats,
}

/// What `ChunkPool::acquire` does: `after` and `r` come from `before` by one
/// call with `position`.
pub open spec fn acquired_from(before: ChunkPool, after: ChunkPool, position: IVec3, r: Chunk) -> bool {
    &&& r.spec_position() == position
    &&& after.capacity() == before.capacity()
    &&& before.pooled().len() > 0 ==> {
        &&& r@ == before.pooled()[0]@
        &&& after.pooled() == before.pooled().drop_first()
        &&& after.counters().reuses == before.counters().reuses + 1
        &&& after.counters().allocations == before.counters().allocations
        &&& after.counters().available_chunks == after.pooled().len()
    }
    &&& before.pooled().len() == 0 ==> {
        &&& r.wf()
        &&& r@ == Seq::new(CHUNK_VOLUME as nat, |i: int| AIR)
        &&& after.pooled() == before.pooled()
        &&& after.counters().allocations == before.counters().allocations + 1
        &&& after.counters().reuses == before.counters().reuses
        &&& after.counters().available_chunks == before.counters().available_chunks
    }
}

/// What `ChunkPool::clear` does: `after` comes from `before` by one call.
pub open spec fn cleared_from(before: ChunkPool, after: ChunkPool) -> bool {
    &&& after.capacity() == before.capacity()
    &&& after.pooled() == Seq::<Chunk>::empty()
    &&& after.counters().available_chunks == 0
    &&& after.counters().allocations == before.counters().allocations
    &&& after.counters().reuses == before.counters().reuses
}

impl ChunkPool {
    /// Chunks in the pool, in the order they are handed out.
    pub closed spec fn pooled(&self) -> Seq<Chunk> {
        self.available@
    }

    /// Capacity of the pool.
    pub closed spec fn capacity(&self) -> usize {
        self.max_size
    }

    /// The counters (the public `stats` field).
    pub closed spec fn counters(&self) -> ChunkPoolStats {
        self.stats
    }

    /// An empty pool holding at most `max_size` chunks.
    pub fn new(max_size: usize) -> (r: Self)
        ensures
            r.pooled() == Seq::<Chunk>::empty(),
            r.capacity() == max_size,
            r.counters().available_chunks == 0,
            r.counters().allocations == 0,
            r.counters().reuses == 0,
    {
        ChunkPool {
            available: VecDeque::with_capacity(max_size),
            max_size,
            stats: ChunkPoolStats { available_chunks: 0, allocations: 0, reuses: 0 },
        }
    }

    /// A pool of 256 chunks.
    pub fn default() -> (r: Self)
        ensures
            r.pooled() == Seq::<Chunk>::empty(),
            r.capacity() == 256,
            r.counters().available_chunks == 0,
            r.counters().allocations == 0,
            r.counters().reuses == 0,
    {
        Self::new(256)
    }

    /// The oldest pooled chunk moved to `position` (its voxels kept), or a new
    /// all-air chunk at `position` when the pool is empty.
    pub fn acquire(&mut self, position: IVec3) -> (r: Chunk)
        requires
            old(self).pooled().len() > 0 ==> old(self).counters().reuses < u64::MAX,
            old(self).pooled().len() == 0 ==> old(self).counters().allocations < u64::MAX,
        ensures
            acquired_from(*old(self), *final(self), position, r),
    {
        match self.available.pop_front() {
            Some(chunk) => {
                let mut chunk = chunk;
                chunk.set_position(position);
                self.stats.reuses = self.stats.reuses + 1;
                self.update_stats();
                chunk
            },
            None => {
                self.stats.allocations = self.stats.allocations + 1;
                Chunk::new(position)
            },
        }
    }

    /// Puts `chunk` back at the end of the pool, or drops it when the pool is full.
    pub fn release(&mut self, chunk: Chunk)
        ensures
            final(self).capacity() == old(self).capacity(),
            final(self).pooled() == (if old(self).pooled().len() < old(self).capacity() {
                old(self).pooled().push(chunk)
            } else {
                old(self).pooled()
            }),
            final(self).counters().allocations == old(self).counters().allocations,
            final(self).counters().reuses == old(self).counters().reuses,
            old(self).pooled().len() < old(self).capacity() ==> final(self).counters().available_chunks
                == final(self).pooled().len(),
            old(self).pooled().len() >= old(self).capacity() ==> final(self).counters().available_chunks
                == old(self).counters().available_chunks,
    {
        if self.available.len() < self.max_size {
            self.available.push_back(chunk);
            self.update_stats();
        }
    }

    /// Empties the pool.
    pub fn clear(&mut self)
        ensures
            cleared_from(*old(self), *final(self)),
    {
        self.available.clear();
        self.update_stats();
    }

    /// Adds all-air chunks at position zero to the pool: `count` of them, or
    /// as many as there is room for below the capacity, whichever is fewer.
    pub fn preallocate(&mut self, count: usize)
        ensures
            final(self).capacity() == old(self).capacity(),
            final(self).pooled().len() == old(self).pooled().len() + spec_min(
                count as int,
                free_room(old(self).pooled().len() as int, old(self).capacity() as int),
            ),
            final(self).pooled().len() <= spec_max(
                old(self).pooled().len() as int,
                old(self).capacity() as int,
            ),
            forall|i: int|
                0 <= i < old(self).pooled().len() ==> #[trigger] final(self).pooled()[i] == old(
                    self,
                ).pooled()[i],
            forall|i: int|
                old(self).pooled().len() <= i < final(self).pooled().len() ==> {
                    &&& (#[trigger] final(self).pooled()[i]).wf()
                    &&& final(self).pooled()[i]@ == Seq::new(CHUNK_VOLUME as nat, |j: int| AIR)
                    &&& final(self).pooled()[i].spec_position() == IVec3::zero_spec()
                },
            final(self).counters().available_chunks == final(self).pooled().len(),
            final(self).counters().allocations == old(self).counters().allocations,
            final(self).counters().reuses == old(self).counters().reuses,
    {
        let len = self.available.len();
        let room = if len < self.max_size {
            self.max_size - len
        } else {
            0
        };
        let n = if count < room {
            count
        } else {
            room
        };
        let ghost start = self.available@;
        let mut i: usize = 0;
        while i < n
            invariant
                i <= n,
                self.max_size == old(self).max_size,
                self.stats == old(self).stats,
                self.available@.len() == start.len() + i,
                forall|k: int| 0 <= k < start.len() ==> #[trigger] self.available@[k] == start[k],
                forall|k: int|
                    start.len() <= k < self.available@.len() ==> {
                        &&& (#[trigger] self.available@[k]).wf()
                        &&& self.available@[k]@ == Seq::new(CHUNK_VOLUME as nat, |j: int| AIR)
                        &&& self.available@[k].spec_position() == IVec3::zero_spec()
                    },
            decreases n - i,
        {
            self.available.push_back(Chunk::new(IVec3::zero()));
            i += 1;
        }
        self.update_stats();
    }

    fn update_stats(&mut self)
        ensures
            final(self).available == old(self).available,
            final(self).max_size == old(self).max_size,
            final(self).counters().available_chunks == final(self).available@.len(),
            final(self).counters().allocations == old(self).counters().allocations,
            final(self).counters().reuses == old(self).counters().reuses,
    {
        self.stats.available_chunks = self.available.len();
    }
}

/// Counters of a mesh pool.
#[derive(Clone, Copy, Debug)]
pub struct MeshPoolStats {
    /// Meshes waiting in the pool.
    pub available_meshes: usize,
    /// Meshes created because the pool was empty.
    pub allocations: u64,
    /// Meshes handed out from the pool.
    pub reuses: u64,
}

/// Pool of mesh buffers waiting to be reused, oldest first, at most `max_size` of them.
pub struct MeshPool {
    available: VecDeque<MeshData>,
    max_size: usize,
    /// Counters.
    pub stats: MeshPoolStats,
}

impl MeshPool {
    /// Number of meshes in the pool.
    pub closed spec fn pooled_len(&self) -> nat {
        self.available@.len()
    }

    /// Capacity of the pool.
    pub closed spec fn capacity(&self) -> usize {
        self.max_size
    }

    /// The counters (the public `stats` field).
    pub closed spec fn counters(&self) -> MeshPoolStats {
        self.stats
    }

    /// An empty pool holding at most `max_size` meshes.
    pub fn new(max_size: usize) -> (r: Self)
        ensures
            r.pooled_len() == 0,
            r.capacity() == max_size,
            r.counters().available_meshes == 0,
            r.counters().allocations == 0,
            r.counters().reuses == 0,
    {
        MeshPool {
            available: VecDeque::with_capacity(max_size),
            max_size,
            stats: MeshPoolStats { available_meshes: 0, allocations: 0, reuses: 0 },
        }
    }

    /// A pool of 256 meshes.
    pub fn default() -> (r: Self)
        ensures
            r.pooled_len() == 0,
            r.capacity() == 256,
            r.counters().available_meshes == 0,
            r.counters().allocations == 0,
            r.counters().reuses == 0,
    {
        Self::new(256)
    }

    /// An empty mesh: the oldest pooled one cleared, or a new one when the pool is empty.
    pub fn acquire(&mut self) -> (r: MeshData)
        requires
            old(self).pooled_len() > 0 ==> old(self).counters().reuses < u64::MAX,
            old(self).pooled_len() == 0 ==> old(self).counters().allocations < u64::MAX,
        ensures
            r.positions@.len() == 0 && r.uvs@.len() == 0 && r.indices@.len() == 0,
            final(self).capacity() == old(self).capacity(),
            old(self).pooled_len() > 0 ==> {
                &&& final(self).pooled_len() == old(self).pooled_len() - 1
                &&& final(self).counters().reuses == old(self).counters().reuses + 1
                &&& final(self).counters().allocations == old(self).counters().allocations
                &&& final(self).counters().available_meshes == final(self).pooled_len()
            },
            old(self).pooled_len() == 0 ==> {
                &&& final(self).pooled_len() == 0
                &&& final(self).counters().allocations == old(self).counters().allocations + 1
                &&& final(self).counters().reuses == old(self).counters().reuses
                &&& final(self).counters().available_meshes == old(self).counters().available_meshes
            },
    {
        match self.available.pop_front() {
            Some(mesh) => {
                let mut mesh = mesh;
                mesh.positions.clear();
                mesh.uvs.clear();
                mesh.indices.clear();
                self.stats.reuses = self.stats.reuses + 1;
                self.stats.available_meshes = self.available.len();
                mesh
            },
            None => {
                self.stats.allocations = self.stats.allocations + 1;
                MeshData::new()
            },
        }
    }

    /// Puts `mesh` back at the end of the pool, or drops it when the pool is full.
    pub fn release(&mut self, mesh: MeshData)
        ensures
            final(self).capacity() == old(self).capacity(),
            final(self).pooled_len() == (if old(self).pooled_len() < old(self).capacity() {
                old(self).pooled_len() + 1
            } else {
                old(self).pooled_len()
            }),
            final(self).counters().allocations == old(self).counters().allocations,
            final(self).counters().reuses == old(self).counters().reuses,
            old(self).pooled_len() < old(self).capacity() ==> final(self).counters().available_meshes
                == final(self).pooled_len(),
            old(self).pooled_len() >= old(self).capacity() ==> final(self).counters().available_meshes
                == old(self).counters().available_meshes,
    {
        if self.available.len() < self.max_size {
            self.available.push_back(mesh);
            self.stats.available_meshes = self.available.len();
        }
    }

    /// Empties the pool.
    pub fn clear(&mut self)
        ensures
            final(self).capacity() == old(self).capacity(),
            final(self).pooled_len() == 0,
            final(self).counters().available_meshes == 0,
            final(self).counters().allocations == old(self).counters().allocations,
            final(self).counters().reuses == old(self).counters().reuses,
    {
        self.available.clear();
        self.stats.available_meshes = self.available.len();
    }

    /// Adds empty meshes, each with room for `capacity` elements per buffer, to
    /// the pool: `count` of them, or as many as there is room for below the
    /// pool's capacity, whichever is fewer.
    pub fn preallocate(&mut self, count: usize, capacity: usize)
        ensures
            final(self).capacity() == old(self).capacity(),
            final(self).pooled_len() == old(self).pooled_len() + spec_min(
                count as int,
                free_room(old(self).pooled_len() as int, old(self).capacity() as int),
            ),
            final(self).pooled_len() <= spec_max(
                old(self).pooled_len() as int,
                old(self).capacity() as int,
            ),
            final(self).counters().available_meshes == final(self).pooled_len(),
            final(self).counters().allocations == old(self).counters().allocations,
            final(self).counters().reuses == old(self).counters().reuses,
    {
        let len = self.available.len();
        let room = if len < self.max_size {
            self.max_size - len
        } else {
            0
        };
        let n = if count < room {
            count
        } else {
            room
        };
        let ghost start = self.available@.len();
        let mut i: usize = 0;
        while i < n
            invariant
                i <= n,
                self.max_size == old(self).max_size,
                self.stats == old(self).stats,
                self.available@.len() == start + i,
            decreases n - i,
        {
            let mesh = MeshData {
                positions: Vec::with_capacity(capacity),
                uvs: Vec::with_capacity(capacity),
                indices: Vec::with_capacity(capacity),
            };
            self.available.push_back(mesh);
            i += 1;
        }
        self.stats.available_meshes = self.available.len();
    }
}


/// After the pool is cleared, the next acquire creates a new all-air chunk:
/// the allocation counter rises by one, the reuse counter stays, and the pool
/// stays empty.
pub proof fn lemma_clear_then_acquire_allocates(
    before: ChunkPool,
    cleared: ChunkPool,
    after: ChunkPool,
    position: IVec3,
    r: Chunk,
)
    requires
        cleared_from(before, cleared),
        acquired_from(cleared, after, position, r),
    ensures
        after.counters().allocations == before.counters().allocations + 1,
        after.counters().reuses == before.counters().reuses,
        after.counters().available_chunks == 0,
        after.pooled().len() == 0,
        r@ == Seq::new(CHUNK_VOLUME as nat, |i: int| AIR),
        r.spec_position() == position,
{
}

/// Chunks leave the pool in the order they were released: after releasing
/// `c` into an empty pool with room, the next chunk handed out is `c`.
pub proof fn lemma_chunk_pool_fifo(pooled: Seq<Chunk>, c: Chunk)
    requires
        pooled.len() == 0,
    ensures
        pooled.push(c).len() > 0,
        pooled.push(c)[0] == c,
        pooled.push(c).drop_first() == pooled,
{
    assert(pooled.push(c).drop_first() =~= pooled);
}
} // verus!
