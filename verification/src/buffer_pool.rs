//! Recycling of GPU vertex and index buffers. The pool decides which pooled
//! buffer to hand out; creating a new buffer on the device is the caller's
//! part when the pool has none large enough.
use vstd::prelude::*;
use std::collections::VecDeque;

verus! {

/// A pooled buffer with its capacity in bytes.
pub struct PooledBuffer<B> {
    pub buffer: B,
    pub capacity: u64,
}

/// Counters of a buffer pool.
#[derive(Clone, Copy, Debug)]
pub struct PoolStats {
    pub vertex_buffers_in_pool: usize,
    pub index_buffers_in_pool: usize,
    pub vertex_allocations: u64,
    pub index_allocations: u64,
    pub vertex_reuses: u64,
    pub index_reuses: u64,
}

/// Index of the first buffer of `caps` with capacity at least `size`, if any.
pub open spec fn first_fit(caps: Seq<u64>, size: int) -> Option<int> {
    if exists|i: int| 0 <= i < caps.len() && caps[i] >= size {
        Some(choose|i: int| 0 <= i < caps.len() && caps[i] >= size && forall|j: int| 0 <= j < i ==> caps[j] < size)
    } else {
        None
    }
}

/// Where a buffer of capacity `capacity` goes in a pool with capacities
/// `caps`: before the first buffer that is strictly larger, else at the end.
/// Buffers of equal capacity thus stay in the order they were returned.
pub open spec fn insertion_index(caps: Seq<u64>, capacity: u64) -> int {
    match first_fit(caps, capacity + 1) {
        Some(i) => i,
        None => caps.len() as int,
    }
}

/// The capacities `caps` ascend.
pub open spec fn ascending(caps: Seq<u64>) -> bool {
    forall|i: int, j: int| 0 <= i <= j < caps.len() ==> caps[i] <= caps[j]
}

/// `q` with the buffer `buffer` of capacity `capacity` put in its place by capacity.
pub open spec fn with_returned<B>(q: Seq<PooledBuffer<B>>, buffer: B, capacity: u64) -> Seq<PooledBuffer<B>> {
    q.insert(insertion_index(capacities(q), capacity), PooledBuffer { buffer, capacity })
}

/// Capacities of the pooled buffers of `q`, in order.
pub open spec fn capacities<B>(q: Seq<PooledBuffer<B>>) -> Seq<u64> {
    q.map_values(|p: PooledBuffer<B>| p.capacity)
}

/// Pools of vertex and index buffers, each holding at most `max_pool_size` buffers.
pub struct BufferPool<B> {
    vertex_buffers: VecDeque<PooledBuffer<B>>,
    index_buffers: VecDeque<PooledBuffer<B>>,
    max_pool_size: usize,
    /// Counters.
    pub stats: PoolStats,
}

/// `q` without its element at `i`.
pub open spec fn without<T>(q: Seq<T>, i: int) -> Seq<T> {
    q.subrange(0, i) + q.subrange(i + 1, q.len() as int)
}

impl<B> BufferPool<B> {
    /// Pooled vertex buffers, oldest first.
    pub closed spec fn vertex_pool(&self) -> Seq<PooledBuffer<B>> {
        self.vertex_buffers@
    }

    /// Pooled index buffers, oldest first.
    pub closed spec fn index_pool(&self) -> Seq<PooledBuffer<B>> {
        self.index_buffers@
    }

    /// Maximum number of buffers of each kind.
    pub closed spec fn max_size(&self) -> usize {
        self.max_pool_size
    }

    /// The counters (the public `stats` field).
    pub closed spec fn counters(&self) -> PoolStats {
        self.stats
    }

    /// Each pool is kept in ascending order of capacity, and the counters of
    /// pooled buffers are the pools' lengths.
    pub open spec fn wf(&self) -> bool {
        &&& ascending(capacities(self.vertex_pool()))
        &&& ascending(capacities(self.index_pool()))
        &&& self.counters().vertex_buffers_in_pool == self.vertex_pool().len()
        &&& self.counters().index_buffers_in_pool == self.index_pool().len()
    }

    /// Empty pools of at most `max_pool_size` buffers each, counters at zero.
    pub fn new(max_pool_size: usize) -> (r: Self)
        ensures
            r.wf(),
            r.vertex_pool().len() == 0,
            r.index_pool().len() == 0,
            r.max_size() == max_pool_size,
            r.counters() == (PoolStats {
                vertex_buffers_in_pool: 0,
                index_buffers_in_pool: 0,
                vertex_allocations: 0,
                index_allocations: 0,
                vertex_reuses: 0,
                index_reuses: 0,
            }),
    {
        BufferPool {
            vertex_buffers: VecDeque::with_capacity(max_pool_size),
            index_buffers: VecDeque::with_capacity(max_pool_size),
            max_pool_size,
            stats: PoolStats {
                vertex_buffers_in_pool: 0,
                index_buffers_in_pool: 0,
                vertex_allocations: 0,
                index_allocations: 0,
                vertex_reuses: 0,
                index_reuses: 0,
            },
        }
    }

    /// Pools of 128 buffers each.
    pub fn default() -> (r: Self)
        ensures
            r.wf(),
            r.vertex_pool().len() == 0,
            r.index_pool().len() == 0,
            r.max_size() == 128,
            r.counters().vertex_buffers_in_pool == 0,
            r.counters().index_buffers_in_pool == 0,
            r.counters().vertex_allocations == 0,
            r.counters().index_allocations == 0,
            r.counters().vertex_reuses == 0,
            r.counters().index_reuses == 0,
    {
        Self::new(128)
    }

    /// Position of the first buffer of `q` with capacity at least `size`
    /// (`above` false) or above `size` (`above` true).
    fn find_first(q: &VecDeque<PooledBuffer<B>>, size: u64, above: bool) -> (r: Option<usize>)
        ensures
            ({
                let target: int = if above { size + 1 } else { size as int };
                &&& r matches Some(i) ==> i < q@.len() && first_fit(capacities(q@), target) == Some(i as int)
                &&& r is None ==> first_fit(capacities(q@), target) is None
            }),
    {
        let ghost target: int = if above { size + 1 } else { size as int };
        let n = q.len();
        let mut i: usize = 0;
        while i < n
            invariant
                n == q@.len(),
                i <= n,
                target == (if above { size + 1 } else { size as int }),
                forall|j: int| 0 <= j < i ==> q@[j].capacity < target,
            decreases n - i,
        {
            let fits = if above {
                q[i].capacity > size
            } else {
                q[i].capacity >= size
            };
            if fits {
                proof {
                    let caps = capacities(q@);
                    assert(caps[i as int] >= target);
                    let k = choose|k: int| 0 <= k < caps.len() && caps[k] >= target && forall|j: int| 0 <= j < k ==> caps[j] < target;
                    assert(0 <= k < caps.len() && caps[k] >= target && forall|j: int| 0 <= j < k ==> caps[j] < target);
                    if k < i {
                        assert(q@[k].capacity < target);
                    }
                    if k > i {
                        assert(caps[i as int] < target);
                    }
                }
                return Some(i);
            }
            i += 1;
        }
        proof {
            let caps = capacities(q@);
            assert forall|j: int| 0 <= j < caps.len() implies !(caps[j] >= target) by {
                assert(q@[j].capacity < target);
            }
        }
        None
    }

    /// The smallest pooled vertex buffer of capacity at least `required_size`
    /// (the oldest of equal ones), removed from the pool; `None` when there is
    /// none, in which case the caller creates one and the allocation is counted.
    pub fn acquire_vertex_buffer(&mut self, required_size: u64) -> (r: Option<B>)
        requires
            old(self).wf(),
            old(self).counters().vertex_reuses < u64::MAX,
            old(self).counters().vertex_allocations < u64::MAX,
        ensures
            final(self).wf(),
            final(self).index_pool() == old(self).index_pool(),
            final(self).max_size() == old(self).max_size(),
            match first_fit(capacities(old(self).vertex_pool()), required_size as int) {
                Some(i) => {
                    &&& r == Some(old(self).vertex_pool()[i].buffer)
                    &&& smallest_fit(capacities(old(self).vertex_pool()), required_size as int, i)
                    &&& final(self).vertex_pool() == without(old(self).vertex_pool(), i)
                    &&& final(self).counters() == (PoolStats {
                        vertex_reuses: (old(self).counters().vertex_reuses + 1) as u64,
                        vertex_buffers_in_pool: final(self).vertex_pool().len() as usize,
                        index_buffers_in_pool: old(self).index_pool().len() as usize,
                        ..old(self).counters()
                    })
                },
                None => {
                    &&& r is None
                    &&& final(self).vertex_pool() == old(self).vertex_pool()
                    &&& final(self).counters() == (PoolStats {
                        vertex_allocations: (old(self).counters().vertex_allocations + 1) as u64,
                        ..old(self).counters()
                    })
                },
            },
    {
        match Self::find_first(&self.vertex_buffers, required_size, false) {
            Some(pos) => {
                let ghost q = self.vertex_buffers@;
                let pooled = self.vertex_buffers.remove(pos);
                proof {
                    assert(q.remove(pos as int) =~= without(q, pos as int));
                    lemma_first_fit_is_smallest(capacities(q), required_size as int, pos as int);
                    lemma_without_keeps_ascending(q, pos as int);
                }
                self.stats.vertex_reuses = self.stats.vertex_reuses + 1;
                self.update_stats();
                match pooled {
                    Some(p) => Some(p.buffer),
                    None => None,
                }
            },
            None => {
                self.stats.vertex_allocations = self.stats.vertex_allocations + 1;
                None
            },
        }
    }

    /// The smallest pooled index buffer of capacity at least `required_size`
    /// (the oldest of equal ones), removed from the pool; `None` when there is
    /// none, in which case the caller creates one and the allocation is counted.
    pub fn acquire_index_buffer(&mut self, required_size: u64) -> (r: Option<B>)
        requires
            old(self).wf(),
            old(self).counters().index_reuses < u64::MAX,
            old(self).counters().index_allocations < u64::MAX,
        ensures
            final(self).wf(),
            final(self).vertex_pool() == old(self).vertex_pool(),
            final(self).max_size() == old(self).max_size(),
            match first_fit(capacities(old(self).index_pool()), required_size as int) {
                Some(i) => {
                    &&& r == Some(old(self).index_pool()[i].buffer)
                    &&& smallest_fit(capacities(old(self).index_pool()), required_size as int, i)
                    &&& final(self).index_pool() == without(old(self).index_pool(), i)
                    &&& final(self).counters() == (PoolStats {
                        index_reuses: (old(self).counters().index_reuses + 1) as u64,
                        vertex_buffers_in_pool: old(self).vertex_pool().len() as usize,
                        index_buffers_in_pool: final(self).index_pool().len() as usize,
                        ..old(self).counters()
                    })
                },
                None => {
                    &&& r is None
                    &&& final(self).index_pool() == old(self).index_pool()
                    &&& final(self).counters() == (PoolStats {
                        index_allocations: (old(self).counters().index_allocations + 1) as u64,
                        ..old(self).counters()
                    })
                },
            },
    {
        match Self::find_first(&self.index_buffers, required_size, false) {
            Some(pos) => {
                let ghost q = self.index_buffers@;
                let pooled = self.index_buffers.remove(pos);
                proof {
                    assert(q.remove(pos as int) =~= without(q, pos as int));
                    lemma_first_fit_is_smallest(capacities(q), required_size as int, pos as int);
                    lemma_without_keeps_ascending(q, pos as int);
                }
                self.stats.index_reuses = self.stats.index_reuses + 1;
                self.update_stats();
                match pooled {
                    Some(p) => Some(p.buffer),
                    None => None,
                }
            },
            None => {
                self.stats.index_allocations = self.stats.index_allocations + 1;
                None
            },
        }
    }

    /// Puts a vertex buffer back into its pool, in its place by capacity (after
    /// the buffers of equal capacity), or drops it when the pool is full.
    pub fn return_vertex_buffer(&mut self, buffer: B, capacity: u64)
        requires
            old(self).wf(),
        ensures
            final(self).wf(),
            final(self).index_pool() == old(self).index_pool(),
            final(self).max_size() == old(self).max_size(),
            old(self).vertex_pool().len() < old(self).max_size() ==> {
                &&& final(self).vertex_pool() == with_returned(old(self).vertex_pool(), buffer, capacity)
                &&& final(self).counters() == (PoolStats {
                    vertex_buffers_in_pool: final(self).vertex_pool().len() as usize,
                    index_buffers_in_pool: old(self).index_pool().len() as usize,
                    ..old(self).counters()
                })
            },
            old(self).vertex_pool().len() >= old(self).max_size() ==> {
                &&& final(self).vertex_pool() == old(self).vertex_pool()
                &&& final(self).counters() == old(self).counters()
            },
    {
        if self.vertex_buffers.len() < self.max_pool_size {
            let slot = match Self::find_first(&self.vertex_buffers, capacity, true) {
                Some(i) => i,
                None => self.vertex_buffers.len(),
            };
            proof {
                lemma_returned_keeps_ascending(self.vertex_buffers@, buffer, capacity);
            }
            self.vertex_buffers.insert(slot, PooledBuffer { buffer, capacity });
            self.update_stats();
        }
    }

    /// Puts an index buffer back into its pool, in its place by capacity (after
    /// the buffers of equal capacity), or drops it when the pool is full.
    pub fn return_index_buffer(&mut self, buffer: B, capacity: u64)
        requires
            old(self).wf(),
        ensures
            final(self).wf(),
            final(self).vertex_pool() == old(self).vertex_pool(),
            final(self).max_size() == old(self).max_size(),
            old(self).index_pool().len() < old(self).max_size() ==> {
                &&& final(self).index_pool() == with_returned(old(self).index_pool(), buffer, capacity)
                &&& final(self).counters() == (PoolStats {
                    vertex_buffers_in_pool: old(self).vertex_pool().len() as usize,
                    index_buffers_in_pool: final(self).index_pool().len() as usize,
                    ..old(self).counters()
                })
            },
            old(self).index_pool().len() >= old(self).max_size() ==> {
                &&& final(self).index_pool() == old(self).index_pool()
                &&& final(self).counters() == old(self).counters()
            },
    {
        if self.index_buffers.len() < self.max_pool_size {
            let slot = match Self::find_first(&self.index_buffers, capacity, true) {
                Some(i) => i,
                None => self.index_buffers.len(),
            };
            proof {
                lemma_returned_keeps_ascending(self.index_buffers@, buffer, capacity);
            }
            self.index_buffers.insert(slot, PooledBuffer { buffer, capacity });
            self.update_stats();
        }
    }

    /// Empties both pools.
    pub fn clear(&mut self)
        ensures
            final(self).wf(),
            final(self).vertex_pool().len() == 0,
            final(self).index_pool().len() == 0,
            final(self).max_size() == old(self).max_size(),
            final(self).counters() == (PoolStats {
                vertex_buffers_in_pool: 0,
                index_buffers_in_pool: 0,
                ..old(self).counters()
            }),
    {
        self.vertex_buffers.clear();
        self.index_buffers.clear();
        self.update_stats();
    }

    fn update_stats(&mut self)
        ensures
            final(self).vertex_buffers == old(self).vertex_buffers,
            final(self).index_buffers == old(self).index_buffers,
            final(self).max_pool_size == old(self).max_pool_size,
            final(self).stats == (PoolStats {
                vertex_buffers_in_pool: old(self).vertex_buffers@.len() as usize,
                index_buffers_in_pool: old(self).index_buffers@.len() as usize,
                ..old(self).stats
            }),
    {
        self.stats.vertex_buffers_in_pool = self.vertex_buffers.len();
        self.stats.index_buffers_in_pool = self.index_buffers.len();
    }
}

/// `caps[i]` is at least `size` and no larger than any other capacity of
/// `caps` that is at least `size`.
pub open spec fn smallest_fit(caps: Seq<u64>, size: int, i: int) -> bool {
    &&& 0 <= i < caps.len()
    &&& caps[i] >= size
    &&& forall|j: int| 0 <= j < caps.len() && caps[j] >= size ==> caps[i] <= #[trigger] caps[j]
}

/// In ascending capacities, the first buffer large enough is a smallest one
/// large enough.
pub proof fn lemma_first_fit_is_smallest(caps: Seq<u64>, size: int, i: int)
    requires
        ascending(caps),
        first_fit(caps, size) == Some(i),
    ensures
        smallest_fit(caps, size, i),
{
    lemma_first_fit_spec(caps, size);
    assert forall|j: int| 0 <= j < caps.len() && caps[j] >= size implies caps[i] <= #[trigger] caps[j] by {
        if j < i {
            assert(caps[j] < size);
        } else {
            assert(0 <= i <= j < caps.len());
        }
    }
}

/// What `first_fit` gives: the first index whose capacity reaches `size`.
pub proof fn lemma_first_fit_spec(caps: Seq<u64>, size: int)
    ensures
        first_fit(caps, size) matches Some(i) ==> {
            &&& 0 <= i < caps.len()
            &&& caps[i] >= size
            &&& forall|j: int| 0 <= j < i ==> caps[j] < size
        },
        first_fit(caps, size) is None ==> forall|j: int| 0 <= j < caps.len() ==> caps[j] < size,
{
    if exists|k: int| 0 <= k < caps.len() && caps[k] >= size {
        let k = choose|k: int| 0 <= k < caps.len() && caps[k] >= size;
        lemma_first_reaching(caps, size, k);
    }
}

/// Some index reaching `size` gives a first one.
proof fn lemma_first_reaching(caps: Seq<u64>, size: int, k: int)
    requires
        0 <= k < caps.len(),
        caps[k] >= size,
    ensures
        exists|i: int| 0 <= i < caps.len() && caps[i] >= size && forall|j: int| 0 <= j < i ==> caps[j] < size,
    decreases k,
{
    if exists|j: int| 0 <= j < k && caps[j] >= size {
        let j = choose|j: int| 0 <= j < k && caps[j] >= size;
        lemma_first_reaching(caps, size, j);
    } else {
        assert(forall|j: int| 0 <= j < k ==> caps[j] < size);
    }
}

/// Taking a buffer out keeps a pool in ascending order of capacity.
pub proof fn lemma_without_keeps_ascending<B>(q: Seq<PooledBuffer<B>>, i: int)
    requires
        ascending(capacities(q)),
        0 <= i < q.len(),
    ensures
        ascending(capacities(without(q, i))),
{
    let w = without(q, i);
    let cw = capacities(w);
    let cq = capacities(q);
    assert forall|a: int, b: int| 0 <= a <= b < cw.len() implies cw[a] <= cw[b] by {
        let qa = if a < i { a } else { a + 1 };
        let qb = if b < i { b } else { b + 1 };
        assert(w[a] == q[qa]);
        assert(w[b] == q[qb]);
        assert(cq[qa] <= cq[qb]);
    }
}

/// Returning a buffer in its place by capacity keeps a pool in ascending order.
#[verifier::spinoff_prover]
#[verifier::rlimit(50)]
pub proof fn lemma_returned_keeps_ascending<B>(q: Seq<PooledBuffer<B>>, buffer: B, capacity: u64)
    requires
        ascending(capacities(q)),
    ensures
        ascending(capacities(with_returned(q, buffer, capacity))),
        0 <= insertion_index(capacities(q), capacity) <= q.len(),
{
    let cq = capacities(q);
    let k = insertion_index(cq, capacity);
    lemma_insertion_index_splits(cq, capacity);
    let w = with_returned(q, buffer, capacity);
    let cw = capacities(w);
    assert(cw =~= cq.insert(k, capacity));
    assert forall|a: int, b: int| 0 <= a <= b < cw.len() implies cw[a] <= cw[b] by {
        if b < k {
            assert(cq[a] <= cq[b]);
        } else if b == k {
            if a < k {
                assert(cq[a] <= capacity);
            }
        } else if a < k {
            assert(cq[a] <= cq[b - 1]);
        } else if a == k {
            assert(cq[b - 1] > capacity);
        } else {
            assert(cq[a - 1] <= cq[b - 1]);
        }
    }
}

/// The slot of a returned buffer: every capacity before it is at most the
/// returned one, every capacity from it on is larger.
proof fn lemma_insertion_index_splits(cq: Seq<u64>, capacity: u64)
    requires
        ascending(cq),
    ensures
        0 <= insertion_index(cq, capacity) <= cq.len(),
        forall|j: int| 0 <= j < insertion_index(cq, capacity) ==> cq[j] <= capacity,
        forall|j: int| insertion_index(cq, capacity) <= j < cq.len() ==> cq[j] > capacity,
{
    lemma_first_fit_spec(cq, capacity + 1);
    let k = insertion_index(cq, capacity);
    assert forall|j: int| k <= j < cq.len() implies cq[j] > capacity by {
        assert(0 <= k <= j < cq.len());
    }
}

/// When no pooled buffer is large enough for `size`, a buffer returned with
/// capacity at least `size` is the one handed out for `size` next.
pub proof fn lemma_returned_buffer_is_reused<B>(pool: Seq<PooledBuffer<B>>, buffer: B, capacity: u64, size: u64)
    requires
        first_fit(capacities(pool), size as int) is None,
        capacity >= size,
    ensures
        ({
            let q = with_returned(pool, buffer, capacity);
            &&& first_fit(capacities(q), size as int) == Some(pool.len() as int)
            &&& q[pool.len() as int].buffer == buffer
            &&& without(q, pool.len() as int) == pool
        }),
{
    let cp = capacities(pool);
    let n = pool.len() as int;
    assert forall|j: int| 0 <= j < n implies cp[j] < size by {
        if cp[j] >= size {
            assert(0 <= j < cp.len() && cp[j] >= size);
        }
    }
    assert(insertion_index(cp, capacity) == n) by {
        assert forall|j: int| 0 <= j < cp.len() implies !(cp[j] >= capacity + 1) by {
            assert(cp[j] < size);
        }
    }
    let q = with_returned(pool, buffer, capacity);
    assert(q =~= pool.push(PooledBuffer { buffer, capacity }));
    let caps = capacities(q);
    assert(caps[n] >= size);
    assert forall|j: int| 0 <= j < n implies caps[j] < size by {
        assert(cp[j] == caps[j]);
    }
    let k = choose|k: int| 0 <= k < caps.len() && caps[k] >= size && forall|j: int| 0 <= j < k ==> caps[j] < size;
    assert(0 <= k < caps.len() && caps[k] >= size && forall|j: int| 0 <= j < k ==> caps[j] < size);
    if k < n {
        assert(caps[k] < size);
    }
    assert(without(q, n) =~= pool);
}
} // verus!
