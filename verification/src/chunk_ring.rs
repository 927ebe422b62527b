//! Which chunks to load and unload around the camera. The camera's chunk and
//! the chunk sets within world-space distances are measured by the caller;
//! the ring keeps the loaded and desired sets and decides what changes.
use vstd::prelude::*;
use crate::coords::IVec3;
use crate::vec_map::VecMap;
use crate::providers::key_list;

verus! {

/// Radii, in chunks, of the rings around the camera.
#[derive(Clone, Copy, Debug)]
pub struct ChunkRingConfig {
    /// Chunks rendered.
    pub view_radius: i32,
    /// Chunks generated.
    pub generation_radius: i32,
    /// Chunks beyond this are unloaded.
    pub unload_radius: i32,
}

impl ChunkRingConfig {
    /// View 4, generation 5, unload 6.
    pub fn default() -> (r: Self)
        ensures
            r.view_radius == 4,
            r.generation_radius == 5,
            r.unload_radius == 6,
    {
        ChunkRingConfig { view_radius: 4, generation_radius: 5, unload_radius: 6 }
    }
}

/// Chunk `p` lies within the ball of `radius` chunks around `center`.
pub open spec fn in_sphere(center: IVec3, radius: int, p: IVec3) -> bool {
    let dx = p.x - center.x;
    let dy = p.y - center.y;
    let dz = p.z - center.z;
    radius >= 0 && dx * dx + dy * dy + dz * dz <= radius * radius
}

/// The loops over the ball of `radius` around `center` stay within `i32`.
pub open spec fn sphere_fits(center: IVec3, radius: int) -> bool {
    &&& -26754 <= radius <= 26754
    &&& i32::MIN <= center.x - radius <= i32::MAX
    &&& i32::MIN <= center.x + radius <= i32::MAX
    &&& i32::MIN <= center.y - radius <= i32::MAX
    &&& i32::MIN <= center.y + radius <= i32::MAX
    &&& i32::MIN <= center.z - radius <= i32::MAX
    &&& i32::MIN <= center.z + radius <= i32::MAX
}

/// `p` comes before the cursor `(x, y, z)` in x-major, then y, then z order.
pub open spec fn visited(p: IVec3, x: int, y: int, z: int) -> bool {
    p.x < x || (p.x == x && (p.y < y || (p.y == y && p.z < z)))
}

/// A chunk of the ball lies within `radius` of the centre on each axis.
proof fn lemma_sphere_bounds(center: IVec3, radius: int, p: IVec3)
    requires
        in_sphere(center, radius, p),
    ensures
        -radius <= p.x - center.x <= radius,
        -radius <= p.y - center.y <= radius,
        -radius <= p.z - center.z <= radius,
{
    let dx = p.x - center.x;
    let dy = p.y - center.y;
    let dz = p.z - center.z;
    assert(-radius <= dx <= radius && -radius <= dy <= radius && -radius <= dz <= radius)
        by (nonlinear_arith)
        requires
            dx * dx + dy * dy + dz * dz <= radius * radius,
            radius >= 0,
    ;
}

/// Every chunk of the ball of `radius` chunks around `center` (squared
/// distance between chunk positions at most `radius²`), each once.
pub fn chunks_in_radius(center: IVec3, radius: i32) -> (r: Vec<IVec3>)
    requires
        sphere_fits(center, radius as int),
    ensures
        r@.no_duplicates(),
        forall|p: IVec3| #[trigger] r@.contains(p) <==> in_sphere(center, radius as int, p),
{
    let mut out: Vec<IVec3> = Vec::new();
    if radius < 0 {
        return out;
    }
    proof {
        assert(0 <= radius * radius <= 26754 * 26754) by (nonlinear_arith)
            requires
                0 <= radius <= 26754,
        ;
    }
    let radius_sq = radius * radius;
    let r64 = radius as i64;
    let cx = center.x as i64;
    let cy = center.y as i64;
    let cz = center.z as i64;
    let mut x: i64 = cx - r64;
    proof {
        assert forall|p: IVec3| #[trigger] out@.contains(p) <==> in_sphere(center, radius as int, p)
            && visited(p, x as int, i32::MIN as int, i32::MIN as int) by {
            if in_sphere(center, radius as int, p) {
                lemma_sphere_bounds(center, radius as int, p);
            }
        }
    }
    while x <= cx + r64
        invariant
            sphere_fits(center, radius as int),
            0 <= radius,
            radius_sq == radius * radius,
            r64 == radius,
            cx == center.x,
            cy == center.y,
            cz == center.z,
            cx - r64 <= x <= cx + r64 + 1,
            out@.no_duplicates(),
            forall|p: IVec3| #[trigger]
                out@.contains(p) <==> in_sphere(center, radius as int, p) && visited(
                    p,
                    x as int,
                    i32::MIN as int,
                    i32::MIN as int,
                ),
        decreases cx + r64 + 1 - x,
    {
        let mut y: i64 = cy - r64;
        proof {
            assert forall|p: IVec3| #[trigger] out@.contains(p) <==> in_sphere(center, radius as int, p)
                && visited(p, x as int, y as int, i32::MIN as int) by {
                if in_sphere(center, radius as int, p) {
                    lemma_sphere_bounds(center, radius as int, p);
                }
            }
        }
        while y <= cy + r64
            invariant
                sphere_fits(center, radius as int),
                0 <= radius,
                radius_sq == radius * radius,
                r64 == radius,
                cx == center.x,
                cy == center.y,
                cz == center.z,
                cx - r64 <= x <= cx + r64,
                cy - r64 <= y <= cy + r64 + 1,
                out@.no_duplicates(),
                forall|p: IVec3| #[trigger]
                    out@.contains(p) <==> in_sphere(center, radius as int, p) && visited(
                        p,
                        x as int,
                        y as int,
                        i32::MIN as int,
                    ),
            decreases cy + r64 + 1 - y,
        {
            let mut z: i64 = cz - r64;
            proof {
                assert forall|p: IVec3| #[trigger] out@.contains(p) <==> in_sphere(
                    center,
                    radius as int,
                    p,
                ) && visited(p, x as int, y as int, z as int) by {
                    if in_sphere(center, radius as int, p) {
                        lemma_sphere_bounds(center, radius as int, p);
                    }
                }
            }
            while z <= cz + r64
                invariant
                    sphere_fits(center, radius as int),
                    0 <= radius,
                    radius_sq == radius * radius,
                    r64 == radius,
                    cx == center.x,
                    cy == center.y,
                    cz == center.z,
                    cx - r64 <= x <= cx + r64,
                    cy - r64 <= y <= cy + r64,
                    cz - r64 <= z <= cz + r64 + 1,
                    out@.no_duplicates(),
                    forall|p: IVec3| #[trigger]
                        out@.contains(p) <==> in_sphere(center, radius as int, p) && visited(
                            p,
                            x as int,
                            y as int,
                            z as int,
                        ),
                decreases cz + r64 + 1 - z,
            {
                let dx = (x - cx) as i32;
                let dy = (y - cy) as i32;
                let dz = (z - cz) as i32;
                proof {
                    assert(0 <= dx * dx <= 26754 * 26754 && 0 <= dy * dy <= 26754 * 26754 && 0 <= dz
                        * dz <= 26754 * 26754) by (nonlinear_arith)
                        requires
                            -26754 <= dx <= 26754,
                            -26754 <= dy <= 26754,
                            -26754 <= dz <= 26754,
                    ;
                }
                let dist_sq = dx * dx + dy * dy + dz * dz;
                let p = IVec3 { x: x as i32, y: y as i32, z: z as i32 };
                let ghost before = out@;
                if dist_sq <= radius_sq {
                    proof {
                        assert(!before.contains(p));
                    }
                    out.push(p);
                }
                proof {
                    assert forall|q: IVec3| #[trigger]
                        out@.contains(q) <==> in_sphere(center, radius as int, q) && visited(
                            q,
                            x as int,
                            y as int,
                            z + 1,
                        ) by {
                        if q == p {
                            if dist_sq <= radius_sq {
                                assert(out@[out@.len() - 1] == p);
                            }
                        } else {
                            if out@.contains(q) && dist_sq <= radius_sq {
                                let j = choose|j: int| 0 <= j < out@.len() && out@[j] == q;
                                assert(j < before.len());
                                assert(before[j] == q);
                            }
                            if before.contains(q) {
                                let j = choose|j: int| 0 <= j < before.len() && before[j] == q;
                                assert(out@[j] == q);
                            }
                        }
                    }
                }
                z = z + 1;
            }
            proof {
                assert forall|q: IVec3| #[trigger]
                    out@.contains(q) <==> in_sphere(center, radius as int, q) && visited(
                        q,
                        x as int,
                        y + 1,
                        i32::MIN as int,
                    ) by {
                    if in_sphere(center, radius as int, q) {
                        lemma_sphere_bounds(center, radius as int, q);
                    }
                }
            }
            y = y + 1;
        }
        proof {
            assert forall|q: IVec3| #[trigger]
                out@.contains(q) <==> in_sphere(center, radius as int, q) && visited(
                    q,
                    x + 1,
                    i32::MIN as int,
                    i32::MIN as int,
                ) by {
                if in_sphere(center, radius as int, q) {
                    lemma_sphere_bounds(center, radius as int, q);
                }
            }
        }
        x = x + 1;
    }
    proof {
        assert forall|p: IVec3| #[trigger] out@.contains(p) <==> in_sphere(center, radius as int, p) by {
            if in_sphere(center, radius as int, p) {
                lemma_sphere_bounds(center, radius as int, p);
            }
        }
    }
    out
}

/// The set of positions of `v`, as a map to unit.
fn set_from(v: &Vec<IVec3>) -> (r: VecMap<IVec3, ()>)
    ensures
        r.wf(),
        r@.dom() == v@.to_set(),
{
    let mut m: VecMap<IVec3, ()> = VecMap::new();
    let mut i: usize = 0;
    while i < v.len()
        invariant
            m.wf(),
            i <= v@.len(),
            m@.dom() == v@.subrange(0, i as int).to_set(),
        decreases v@.len() - i,
    {
        m.insert(v[i], ());
        proof {
            assert(v@.subrange(0, i + 1) =~= v@.subrange(0, i as int).push(v@[i as int]));
            v@.subrange(0, i as int).lemma_push_to_set_commute(v@[i as int]);
            assert(m@.dom() =~= v@.subrange(0, i + 1).to_set());
        }
        i += 1;
    }
    assert(v@.subrange(0, i as int) =~= v@);
    m
}

/// The keys of `a` that are not keys of `b`, each once.
fn keys_not_in(a: &VecMap<IVec3, ()>, b: &VecMap<IVec3, ()>) -> (r: Vec<IVec3>)
    requires
        a.wf(),
        b.wf(),
    ensures
        r@.no_duplicates(),
        r@.to_set() == a@.dom().difference(b@.dom()),
{
    proof {
        a.lemma_view();
    }
    let keys = key_list(a);
    let mut out: Vec<IVec3> = Vec::new();
    let mut i: usize = 0;
    while i < keys.len()
        invariant
            b.wf(),
            keys@.no_duplicates(),
            keys@.to_set() == a@.dom(),
            i <= keys@.len(),
            out@.no_duplicates(),
            forall|q: IVec3| #[trigger]
                out@.contains(q) <==> (keys@.subrange(0, i as int).contains(q) && !b@.contains_key(q)),
        decreases keys@.len() - i,
    {
        let k = keys[i];
        let ghost before = out@;
        if !b.contains_key(&k) {
            proof {
                if before.contains(k) {
                    let j = choose|j: int| 0 <= j < i && keys@.subrange(0, i as int)[j] == k;
                    assert(keys@[j] == keys@[i as int]);
                }
            }
            out.push(k);
        }
        proof {
            let s0 = keys@.subrange(0, i as int);
            let s1 = keys@.subrange(0, i + 1);
            assert(s1 =~= s0.push(k));
            assert forall|q: IVec3| #[trigger]
                out@.contains(q) <==> (s1.contains(q) && !b@.contains_key(q)) by {
                vstd::seq_lib::lemma_seq_contains_after_push(s0, k, q);
                vstd::seq_lib::lemma_seq_contains_after_push(before, k, q);
            }
        }
        i += 1;
    }
    proof {
        assert(keys@.subrange(0, i as int) =~= keys@);
        assert(out@.to_set() =~= a@.dom().difference(b@.dom()));
    }
    out
}

/// Chunks loaded and wanted around the camera's chunk.
pub struct ChunkRing {
    config: ChunkRingConfig,
    current_chunk: IVec3,
    desired_chunks: VecMap<IVec3, ()>,
    loaded_chunks: VecMap<IVec3, ()>,
}

impl ChunkRing {
    /// Chunks within the generation distance at the last update.
    pub closed spec fn desired(&self) -> Set<IVec3> {
        self.desired_chunks@.dom()
    }

    /// Chunks marked loaded.
    pub closed spec fn loaded(&self) -> Set<IVec3> {
        self.loaded_chunks@.dom()
    }

    /// The camera's chunk at the last update.
    pub closed spec fn current(&self) -> IVec3 {
        self.current_chunk
    }

    /// The radii.
    pub closed spec fn spec_config(&self) -> ChunkRingConfig {
        self.config
    }

    /// Internal consistency of the sets.
    pub closed spec fn wf(&self) -> bool {
        self.desired_chunks.wf() && self.loaded_chunks.wf()
    }

    /// Nothing loaded or wanted, camera at chunk zero.
    pub fn new(config: ChunkRingConfig) -> (r: Self)
        ensures
            r.wf(),
            r.desired() == Set::<IVec3>::empty(),
            r.loaded() == Set::<IVec3>::empty(),
            r.current() == IVec3::zero_spec(),
            r.spec_config() == config,
    {
        let r = ChunkRing {
            config,
            current_chunk: IVec3::zero(),
            desired_chunks: VecMap::new(),
            loaded_chunks: VecMap::new(),
        };
        assert(r.desired() =~= Set::<IVec3>::empty());
        assert(r.loaded() =~= Set::<IVec3>::empty());
        r
    }

    /// Moves the camera to chunk `chunk_pos`. When that is the current chunk,
    /// nothing changes and nothing is returned. Otherwise `desired` (the
    /// chunks within the generation distance) becomes the desired set, and the
    /// result lists the desired chunks not loaded (to load) and the loaded
    /// chunks not in `keep`, the chunks within the unload distance (to unload).
    pub fn update(&mut self, chunk_pos: IVec3, desired: &Vec<IVec3>, keep: &Vec<IVec3>) -> (r: (
        Vec<IVec3>,
        Vec<IVec3>,
    ))
        requires
            old(self).wf(),
        ensures
            final(self).wf(),
            final(self).loaded() == old(self).loaded(),
            final(self).spec_config() == old(self).spec_config(),
            chunk_pos == old(self).current() ==> {
                &&& r.0@.len() == 0
                &&& r.1@.len() == 0
                &&& final(self).desired() == old(self).desired()
                &&& final(self).current() == old(self).current()
            },
            chunk_pos != old(self).current() ==> {
                &&& final(self).current() == chunk_pos
                &&& final(self).desired() == desired@.to_set()
                &&& r.0@.no_duplicates()
                &&& r.0@.to_set() == desired@.to_set().difference(old(self).loaded())
                &&& r.1@.no_duplicates()
                &&& r.1@.to_set() == old(self).loaded().difference(keep@.to_set())
            },
    {
        if chunk_pos == self.current_chunk {
            return (Vec::new(), Vec::new());
        }
        self.current_chunk = chunk_pos;
        self.desired_chunks = set_from(desired);
        let to_load = keys_not_in(&self.desired_chunks, &self.loaded_chunks);
        let keep_set = set_from(keep);
        let to_unload = keys_not_in(&self.loaded_chunks, &keep_set);
        (to_load, to_unload)
    }

    /// Records that chunk `chunk_pos` is loaded.
    pub fn mark_loaded(&mut self, chunk_pos: IVec3)
        requires
            old(self).wf(),
        ensures
            final(self).wf(),
            final(self).loaded() == old(self).loaded().insert(chunk_pos),
            final(self).desired() == old(self).desired(),
            final(self).current() == old(self).current(),
            final(self).spec_config() == old(self).spec_config(),
    {
        self.loaded_chunks.insert(chunk_pos, ());
        assert(self.loaded() =~= old(self).loaded().insert(chunk_pos));
    }

    /// Records that chunk `chunk_pos` is no longer loaded.
    pub fn mark_unloaded(&mut self, chunk_pos: IVec3)
        requires
            old(self).wf(),
        ensures
            final(self).wf(),
            final(self).loaded() == old(self).loaded().remove(chunk_pos),
            final(self).desired() == old(self).desired(),
            final(self).current() == old(self).current(),
            final(self).spec_config() == old(self).spec_config(),
    {
        self.loaded_chunks.remove(&chunk_pos);
        assert(self.loaded() =~= old(self).loaded().remove(chunk_pos));
    }

    /// The loaded chunks within the view radius of the current chunk, each once.
    pub fn get_visible_chunks(&self) -> (r: Vec<IVec3>)
        requires
            self.wf(),
            sphere_fits(self.current(), self.spec_config().view_radius as int),
        ensures
            r@.no_duplicates(),
            forall|p: IVec3| #[trigger]
                r@.contains(p) <==> in_sphere(
                    self.current(),
                    self.spec_config().view_radius as int,
                    p,
                ) && self.loaded().contains(p),
    {
        let all = chunks_in_radius(self.current_chunk, self.config.view_radius);
        let mut out: Vec<IVec3> = Vec::new();
        let mut i: usize = 0;
        while i < all.len()
            invariant
                self.wf(),
                all@.no_duplicates(),
                i <= all@.len(),
                out@.no_duplicates(),
                forall|q: IVec3| #[trigger]
                    out@.contains(q) <==> (all@.subrange(0, i as int).contains(q)
                        && self.loaded_chunks@.contains_key(q)),
            decreases all@.len() - i,
        {
            let k = all[i];
            let ghost before = out@;
            if self.loaded_chunks.contains_key(&k) {
                proof {
                    if before.contains(k) {
                        let j = choose|j: int| 0 <= j < i && all@.subrange(0, i as int)[j] == k;
                        assert(all@[j] == all@[i as int]);
                    }
                }
                out.push(k);
            }
            proof {
                let s0 = all@.subrange(0, i as int);
                let s1 = all@.subrange(0, i + 1);
                assert(s1 =~= s0.push(k));
                assert forall|q: IVec3| #[trigger]
                    out@.contains(q) <==> (s1.contains(q) && self.loaded_chunks@.contains_key(q)) by {
                    vstd::seq_lib::lemma_seq_contains_after_push(s0, k, q);
                    vstd::seq_lib::lemma_seq_contains_after_push(before, k, q);
                }
            }
            i += 1;
        }
        assert(all@.subrange(0, i as int) =~= all@);
        out
    }

    /// The radii.
    pub fn config(&self) -> (r: ChunkRingConfig)
        ensures
            r == self.spec_config(),
    {
        self.config
    }

    /// The camera's chunk at the last update.
    pub fn current_chunk(&self) -> (r: IVec3)
        ensures
            r == self.current(),
    {
        self.current_chunk
    }

    /// Number of loaded chunks.
    pub fn loaded_count(&self) -> (r: usize)
        requires
            self.wf(),
        ensures
            r == self.loaded().len(),
    {
        self.loaded_chunks.len()
    }

    /// Number of desired chunks.
    pub fn desired_count(&self) -> (r: usize)
        requires
            self.wf(),
        ensures
            r == self.desired().len(),
    {
        self.desired_chunks.len()
    }

    /// Forgets the loaded and desired chunks.
    pub fn clear(&mut self)
        requires
            old(self).wf(),
        ensures
            final(self).wf(),
            final(self).loaded() == Set::<IVec3>::empty(),
            final(self).desired() == Set::<IVec3>::empty(),
            final(self).current() == old(self).current(),
            final(self).spec_config() == old(self).spec_config(),
    {
        self.loaded_chunks.clear();
        self.desired_chunks.clear();
        assert(self.desired() =~= Set::<IVec3>::empty());
        assert(self.loaded() =~= Set::<IVec3>::empty());
    }
}


/// After an update, the chunks to load together with the loaded chunks cover
/// every desired chunk, and no chunk to load is already loaded; the chunks to
/// unload are loaded chunks outside the kept set.
pub proof fn lemma_update_covers_desired(
    desired: Set<IVec3>,
    loaded: Set<IVec3>,
    keep: Set<IVec3>,
    to_load: Seq<IVec3>,
    to_unload: Seq<IVec3>,
)
    requires
        to_load.to_set() == desired.difference(loaded),
        to_unload.to_set() == loaded.difference(keep),
    ensures
        forall|c: IVec3| #[trigger] desired.contains(c) ==> loaded.contains(c) || to_load.contains(c),
        forall|c: IVec3| #[trigger] to_load.contains(c) ==> !loaded.contains(c),
        forall|c: IVec3| #[trigger] to_unload.contains(c) ==> loaded.contains(c) && !keep.contains(c),
{
    assert forall|c: IVec3| #[trigger] desired.contains(c) implies loaded.contains(c) || to_load.contains(c) by {
        if !loaded.contains(c) {
            assert(to_load.to_set().contains(c));
        }
    }
    assert forall|c: IVec3| #[trigger] to_load.contains(c) implies !loaded.contains(c) by {
        assert(to_load.to_set().contains(c));
    }
    assert forall|c: IVec3| #[trigger] to_unload.contains(c) implies loaded.contains(c) && !keep.contains(c) by {
        assert(to_unload.to_set().contains(c));
    }
}
} // verus!
