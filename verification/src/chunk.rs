//! Dense 32³ voxel chunk.
use vstd::prelude::*;
use crate::coords::{spec_idx, idx_x, idx_y, idx_z, in_chunk, lemma_idx_decompose, IVec3, CHUNK_SIZE, CHUNK_VOLUME};

verus! {

/// Identifier of a block type.
pub type BlockId = u16;

/// One voxel of a chunk: the id of the block it holds.
pub type Voxel = BlockId;

pub const AIR: BlockId = 0;
pub const SOLID: BlockId = 1;
pub const STONE: BlockId = 1;
pub const DIRT: BlockId = 2;
pub const GRASS: BlockId = 3;
pub const WOOD: BlockId = 4;
pub const LEAVES: BlockId = 5;
pub const WATER: BlockId = 6;
pub const GLASS: BlockId = 7;

/// Whether a block id stands for a solid block (every id but `AIR`).
pub open spec fn spec_is_solid(id: BlockId) -> bool {
    id != AIR
}

/// Whether a block is solid.
pub fn is_solid(id: BlockId) -> (r: bool)
    ensures
        r == spec_is_solid(id),
{
    id != AIR
}

/// Whether light passes through a block (air, water and glass).
pub fn is_transparent(id: BlockId) -> (r: bool)
    ensures
        r == (id == AIR || id == WATER || id == GLASS),
{
    id == AIR || id == WATER || id == GLASS
}

/// Linear index of local voxel `(x, y, z)`.
fn idx(x: usize, y: usize, z: usize) -> (r: usize)
    requires
        spec_idx(x as int, y as int, z as int) < CHUNK_VOLUME,
    ensures
        r as int == spec_idx(x as int, y as int, z as int),
{
    x + y * CHUNK_SIZE + z * CHUNK_SIZE * CHUNK_SIZE
}

/// A cube of `CHUNK_SIZE`³ voxels at a chunk position.
#[derive(Clone)]
pub struct Chunk {
    voxels: Vec<Voxel>,
    position: IVec3,
}

/// The voxel pattern of `Chunk::fill_debug_column` at local `(x, y, z)`:
/// a solid floor and 8-high pillars on every fourth column.
pub open spec fn debug_column_solid(x: int, y: int, z: int) -> bool {
    y == 0 || (x % 4 == 0 && z % 4 == 0 && y < 8)
}

/// Squared distance of local voxel `(x, y, z)` to the chunk centre `(16, 16, 16)`.
pub open spec fn center_dist2(x: int, y: int, z: int) -> int {
    (x - 16) * (x - 16) + (y - 16) * (y - 16) + (z - 16) * (z - 16)
}

/// The voxel pattern of `Chunk::fill_gpu_stress_test` at local `(x, y, z)`:
/// three spherical shells, a spiral band (whose angular test is `spiral`),
/// a checkered core, pillars on every third column, floor and ceiling.
pub open spec fn stress_solid(x: int, y: int, z: int, spiral: bool) -> bool {
    let d2 = center_dist2(x, y, z);
    ||| 144 < d2 < 196
    ||| 64 < d2 < 100
    ||| 16 < d2 < 36
    ||| (spiral && 25 < d2 < 169)
    ||| (d2 < 9 && (x + y + z) % 2 == 0)
    ||| (x % 3 == 0 && z % 3 == 0 && y < 16 + (x * z) % 10)
    ||| y == 0
    ||| y == 31
}

impl View for Chunk {
    type V = Seq<Voxel>;

    closed spec fn view(&self) -> Seq<Voxel> {
        self.voxels@
    }
}

impl Chunk {
    /// A chunk holds exactly `CHUNK_VOLUME` voxels.
    pub open spec fn wf(&self) -> bool {
        self@.len() == CHUNK_VOLUME
    }

    /// The chunk position of this chunk.
    pub closed spec fn spec_position(&self) -> IVec3 {
        self.position
    }

    /// Voxel at local `(x, y, z)`.
    pub open spec fn at(&self, x: int, y: int, z: int) -> Voxel {
        self@[spec_idx(x, y, z)]
    }

    /// A chunk at position zero with every voxel set to `fill`.
    pub fn new_filled(fill: Voxel) -> (r: Self)
        ensures
            r.wf(),
            r@ == Seq::new(CHUNK_VOLUME as nat, |i: int| fill),
            r.spec_position() == IVec3::zero_spec(),
    {
        let voxels = vec![fill; CHUNK_VOLUME];
        proof {
            assert(voxels@ =~= Seq::new(CHUNK_VOLUME as nat, |i: int| fill));
        }
        Chunk { voxels, position: IVec3 { x: 0, y: 0, z: 0 } }
    }

    /// An all-air chunk at position zero.
    pub fn new_empty() -> (r: Self)
        ensures
            r.wf(),
            r@ == Seq::new(CHUNK_VOLUME as nat, |i: int| AIR),
            r.spec_position() == IVec3::zero_spec(),
    {
        Self::new_filled(AIR)
    }

    /// An all-air chunk at `position`.
    pub fn new(position: IVec3) -> (r: Self)
        ensures
            r.wf(),
            r@ == Seq::new(CHUNK_VOLUME as nat, |i: int| AIR),
            r.spec_position() == position,
    {
        let mut c = Self::new_filled(AIR);
        c.position = position;
        c
    }

    /// A chunk at `position` holding `voxels` in linear order.
    pub fn from_voxels(voxels: Vec<Voxel>, position: IVec3) -> (r: Self)
        requires
            voxels@.len() == CHUNK_VOLUME,
        ensures
            r.wf(),
            r@ == voxels@,
            r.spec_position() == position,
    {
        Chunk { voxels, position }
    }

    /// The chunk position of this chunk.
    pub fn position(&self) -> (r: IVec3)
        ensures
            r == self.spec_position(),
    {
        self.position
    }

    /// Moves the chunk to another chunk position, keeping its voxels.
    pub fn set_position(&mut self, position: IVec3)
        ensures
            final(self)@ == old(self)@,
            final(self).spec_position() == position,
    {
        self.position = position;
    }

    /// Writes voxel `v` at local `(x, y, z)`.
    pub fn set(&mut self, x: usize, y: usize, z: usize, v: Voxel)
        requires
            old(self).wf(),
            spec_idx(x as int, y as int, z as int) < CHUNK_VOLUME,
        ensures
            final(self).wf(),
            final(self)@ == old(self)@.update(spec_idx(x as int, y as int, z as int), v),
            final(self).spec_position() == old(self).spec_position(),
    {
        let i = idx(x, y, z);
        self.voxels.set(i, v);
    }

    /// Reads the voxel at linear index `i`.
    pub fn voxels_at(&self, i: usize) -> (r: Voxel)
        requires
            self.wf(),
            i < CHUNK_VOLUME,
        ensures
            r == self@[i as int],
    {
        self.voxels[i]
    }

    /// Reads the voxel at local `(x, y, z)`.
    pub fn get(&self, x: usize, y: usize, z: usize) -> (r: Voxel)
        requires
            self.wf(),
            spec_idx(x as int, y as int, z as int) < CHUNK_VOLUME,
        ensures
            r == self@[spec_idx(x as int, y as int, z as int)],
    {
        self.voxels[idx(x, y, z)]
    }

    /// Writes a test pattern: a solid floor plus 8-high pillars on every
    /// fourth column in x and z; other voxels are kept.
    pub fn fill_debug_column(&mut self)
        requires
            old(self).wf(),
        ensures
            final(self).wf(),
            final(self).spec_position() == old(self).spec_position(),
            forall|i: int|
                0 <= i < CHUNK_VOLUME ==> #[trigger] final(self)@[i] == (if debug_column_solid(
                    idx_x(i),
                    idx_y(i),
                    idx_z(i),
                ) {
                    SOLID
                } else {
                    old(self)@[i]
                }),
    {
        let mut i: usize = 0;
        while i < CHUNK_VOLUME
            invariant
                self.wf(),
                self.spec_position() == old(self).spec_position(),
                i <= CHUNK_VOLUME,
                forall|j: int|
                    0 <= j < i ==> #[trigger] self@[j] == (if debug_column_solid(
                        idx_x(j),
                        idx_y(j),
                        idx_z(j),
                    ) {
                        SOLID
                    } else {
                        old(self)@[j]
                    }),
                forall|j: int| i <= j < CHUNK_VOLUME ==> #[trigger] self@[j] == old(self)@[j],
            decreases CHUNK_VOLUME - i,
        {
            let x = i % CHUNK_SIZE;
            let y = (i / CHUNK_SIZE) % CHUNK_SIZE;
            let z = i / 1024;
            if y == 0 || (x % 4 == 0 && z % 4 == 0 && y < 8) {
                self.voxels.set(i, SOLID);
            }
            i += 1;
        }
    }

    /// Writes the GPU stress-test pattern (`stress_solid`) into the chunk; other
    /// voxels are kept. `spiral[i]` is the angular test of the spiral band at
    /// linear index `i`, which involves trigonometry and is evaluated by the caller.
    pub fn fill_gpu_stress_test(&mut self, spiral: &Vec<bool>)
        requires
            old(self).wf(),
            spiral.len() == CHUNK_VOLUME,
        ensures
            final(self).wf(),
            final(self).spec_position() == old(self).spec_position(),
            forall|i: int|
                0 <= i < CHUNK_VOLUME ==> #[trigger] final(self)@[i] == (if stress_solid(
                    idx_x(i),
                    idx_y(i),
                    idx_z(i),
                    spiral@[i],
                ) {
                    SOLID
                } else {
                    old(self)@[i]
                }),
    {
        let mut i: usize = 0;
        while i < CHUNK_VOLUME
            invariant
                self.wf(),
                self.spec_position() == old(self).spec_position(),
                i <= CHUNK_VOLUME,
                spiral.len() == CHUNK_VOLUME,
                forall|j: int|
                    0 <= j < i ==> #[trigger] self@[j] == (if stress_solid(
                        idx_x(j),
                        idx_y(j),
                        idx_z(j),
                        spiral@[j],
                    ) {
                        SOLID
                    } else {
                        old(self)@[j]
                    }),
                forall|j: int| i <= j < CHUNK_VOLUME ==> #[trigger] self@[j] == old(self)@[j],
            decreases CHUNK_VOLUME - i,
        {
            let x = i % CHUNK_SIZE;
            let y = (i / CHUNK_SIZE) % CHUNK_SIZE;
            let z = i / 1024;
            if stress_solid_at(x, y, z, spiral[i]) {
                self.voxels.set(i, SOLID);
            }
            i += 1;
        }
    }
}

/// Evaluates `stress_solid` at local coordinates.
fn stress_solid_at(x: usize, y: usize, z: usize, spiral: bool) -> (r: bool)
    requires
        x < 32 && y < 32 && z < 32,
    ensures
        r == stress_solid(x as int, y as int, z as int, spiral),
{
    let fx = x as i32 - 16;
    let fy = y as i32 - 16;
    let fz = z as i32 - 16;
    assert(0 <= fx * fx <= 256 && 0 <= fy * fy <= 256 && 0 <= fz * fz <= 256) by (nonlinear_arith)
        requires
            -16 <= fx <= 15,
            -16 <= fy <= 15,
            -16 <= fz <= 15,
    ;
    assert(x * z < 1024) by (nonlinear_arith)
        requires
            x < 32,
            z < 32,
    ;
    let d2 = fx * fx + fy * fy + fz * fz;
    let in_sphere1 = 144 < d2 && d2 < 196;
    let in_sphere2 = 64 < d2 && d2 < 100;
    let in_sphere3 = 16 < d2 && d2 < 36;
    let spiral_band = spiral && 25 < d2 && d2 < 169;
    let in_core = d2 < 9 && (x + y + z) % 2 == 0;
    let pillar = x % 3 == 0 && z % 3 == 0 && y < 16 + (x * z) % 10;
    let floor_ceiling = y == 0 || y == CHUNK_SIZE - 1;
    in_sphere1 || in_sphere2 || in_sphere3 || spiral_band || in_core || pillar || floor_ceiling
}


/// A voxel written with `set` reads back; every other voxel keeps its value.
pub proof fn lemma_set_then_get(
    before: Chunk,
    after: Chunk,
    x: int,
    y: int,
    z: int,
    v: Voxel,
    a: int,
    b: int,
    c: int,
)
    requires
        before.wf(),
        in_chunk(x, y, z),
        in_chunk(a, b, c),
        after@ == before@.update(spec_idx(x, y, z), v),
    ensures
        after.at(x, y, z) == v,
        (a, b, c) != (x, y, z) ==> after.at(a, b, c) == before.at(a, b, c),
{
    lemma_idx_decompose(x, y, z);
    lemma_idx_decompose(a, b, c);
}
} // verus!
