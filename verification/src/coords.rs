//! Integer grid coordinates shared by every voxel structure: chunk-local
//! indexing and the split of a world voxel position into chunk and local part.
use vstd::prelude::*;
use vstd::arithmetic::div_mod::lemma_fundamental_div_mod_converse;

verus! {

/// Edge length of a cubic chunk, in voxels.
pub const CHUNK_SIZE: usize = 32;

/// Number of voxels in a chunk (`CHUNK_SIZE`³).
pub const CHUNK_VOLUME: usize = 32768;

/// Integer 3D vector (voxel, chunk or size coordinates).
#[derive(Clone, Copy, Debug, PartialEq, Eq, Structural, Hash)]
pub struct IVec3 {
    pub x: i32,
    pub y: i32,
    pub z: i32,
}

impl IVec3 {
    /// Builds a vector from its three components.
    pub fn new(x: i32, y: i32, z: i32) -> (r: IVec3)
        ensures
            r.x == x,
            r.y == y,
            r.z == z,
    {
        IVec3 { x, y, z }
    }

    /// The zero vector.
    pub open spec fn zero_spec() -> IVec3 {
        IVec3 { x: 0, y: 0, z: 0 }
    }

    /// The zero vector.
    pub fn zero() -> (r: IVec3)
        ensures
            r == Self::zero_spec(),
    {
        IVec3 { x: 0, y: 0, z: 0 }
    }
}

/// Linear index of local voxel `(x, y, z)` inside a chunk (x fastest, then y, then z).
pub open spec fn spec_idx(x: int, y: int, z: int) -> int {
    x + 32 * y + 1024 * z
}

/// The local x coordinate of linear chunk index `i`.
pub open spec fn idx_x(i: int) -> int {
    i % 32
}

/// The local y coordinate of linear chunk index `i`.
pub open spec fn idx_y(i: int) -> int {
    (i / 32) % 32
}

/// The local z coordinate of linear chunk index `i`.
pub open spec fn idx_z(i: int) -> int {
    i / 1024
}

/// Local coordinates inside a chunk are in `0..CHUNK_SIZE`.
pub open spec fn in_chunk(x: int, y: int, z: int) -> bool {
    0 <= x < 32 && 0 <= y < 32 && 0 <= z < 32
}

/// Decomposing the linear index of in-chunk coordinates gives them back,
/// and the index lies in `0..CHUNK_VOLUME`.
pub proof fn lemma_idx_decompose(x: int, y: int, z: int)
    requires
        in_chunk(x, y, z),
    ensures
        0 <= spec_idx(x, y, z) < 32768,
        idx_x(spec_idx(x, y, z)) == x,
        idx_y(spec_idx(x, y, z)) == y,
        idx_z(spec_idx(x, y, z)) == z,
{
    let i = spec_idx(x, y, z);
    lemma_fundamental_div_mod_converse(i, 32, y + 32 * z, x);
    lemma_fundamental_div_mod_converse(y + 32 * z, 32, z, y);
    lemma_fundamental_div_mod_converse(i, 1024, z, x + 32 * y);
}

/// Every index of a chunk is the linear index of its decomposition.
pub proof fn lemma_idx_compose(i: int)
    requires
        0 <= i < 32768,
    ensures
        in_chunk(idx_x(i), idx_y(i), idx_z(i)),
        spec_idx(idx_x(i), idx_y(i), idx_z(i)) == i,
{
    let x = i % 32;
    let q = i / 32;
    let y = q % 32;
    let z = q / 32;
    assert(i == 32 * q + x);
    assert(q == 32 * z + y);
    lemma_fundamental_div_mod_converse(i, 1024, z, x + 32 * y);
}

/// Chunk coordinate containing world coordinate `a` (floor division by `CHUNK_SIZE`).
pub open spec fn chunk_coord(a: int) -> int {
    a / 32
}

/// Position of world coordinate `a` inside its chunk.
pub open spec fn local_coord(a: int) -> int {
    a % 32
}

/// Floor division of a world coordinate by `CHUNK_SIZE` (`i32::div_euclid`).
pub fn div_chunk(a: i32) -> (r: i32)
    ensures
        r as int == chunk_coord(a as int),
        a as int - 32 * (r as int) == local_coord(a as int),
{
    if a >= 0 {
        let r = a / 32;
        proof {
            lemma_fundamental_div_mod_converse(a as int, 32, r as int, a as int - 32 * r);
        }
        r
    } else {
        let b: i32 = -(a + 1);
        let q: i32 = b / 32;
        let r: i32 = -q - 1;
        proof {
            let rem = b - 32 * q;
            assert(0 <= rem < 32);
            lemma_fundamental_div_mod_converse(a as int, 32, r as int, 31 - rem);
        }
        r
    }
}

/// The chunk containing world voxel `p`.
pub open spec fn spec_world_to_chunk(p: IVec3) -> IVec3 {
    IVec3 {
        x: chunk_coord(p.x as int) as i32,
        y: chunk_coord(p.y as int) as i32,
        z: chunk_coord(p.z as int) as i32,
    }
}

/// Linear index, inside its chunk, of world voxel `p`.
pub open spec fn spec_local_index(p: IVec3) -> int {
    spec_idx(local_coord(p.x as int), local_coord(p.y as int), local_coord(p.z as int))
}

/// Splits a world voxel position into its chunk and the linear index inside that chunk.
pub fn split_world_pos(p: IVec3) -> (r: (IVec3, usize))
    ensures
        r.0 == spec_world_to_chunk(p),
        r.1 as int == spec_local_index(p),
        r.1 < CHUNK_VOLUME,
{
    let cx = div_chunk(p.x);
    let cy = div_chunk(p.y);
    let cz = div_chunk(p.z);
    let lx = (p.x as i64 - 32 * cx as i64) as usize;
    let ly = (p.y as i64 - 32 * cy as i64) as usize;
    let lz = (p.z as i64 - 32 * cz as i64) as usize;
    proof {
        lemma_idx_decompose(lx as int, ly as int, lz as int);
    }
    (IVec3 { x: cx, y: cy, z: cz }, lx + 32 * ly + 1024 * lz)
}

/// A world position is determined by its chunk and its index inside the chunk.
pub proof fn lemma_split_injective(p: IVec3, q: IVec3)
    requires
        spec_world_to_chunk(p) == spec_world_to_chunk(q),
        spec_local_index(p) == spec_local_index(q),
    ensures
        p == q,
{
    lemma_chunk_coord_range(p.x as int);
    lemma_chunk_coord_range(p.y as int);
    lemma_chunk_coord_range(p.z as int);
    lemma_chunk_coord_range(q.x as int);
    lemma_chunk_coord_range(q.y as int);
    lemma_chunk_coord_range(q.z as int);
    let (ax, ay, az) = (local_coord(p.x as int), local_coord(p.y as int), local_coord(p.z as int));
    let (bx, by, bz) = (local_coord(q.x as int), local_coord(q.y as int), local_coord(q.z as int));
    lemma_idx_decompose(ax, ay, az);
    lemma_idx_decompose(bx, by, bz);
}

/// The chunk coordinate of an `i32` fits in `i32`, and the coordinate splits
/// into `32 * chunk + local` with `local` in `0..32`.
pub proof fn lemma_chunk_coord_range(a: int)
    requires
        i32::MIN <= a <= i32::MAX,
    ensures
        -67108864 <= chunk_coord(a) <= 67108863,
        0 <= local_coord(a) < 32,
        a == 32 * chunk_coord(a) + local_coord(a),
{
}

/// The local index of a world voxel lies in `0..CHUNK_VOLUME`.
pub proof fn lemma_local_index_range(p: IVec3)
    ensures
        0 <= spec_local_index(p) < 32768,
{
    lemma_chunk_coord_range(p.x as int);
    lemma_chunk_coord_range(p.y as int);
    lemma_chunk_coord_range(p.z as int);
    lemma_idx_decompose(local_coord(p.x as int), local_coord(p.y as int), local_coord(p.z as int));
}

/// World position of index `i` inside chunk `c`: `32 * c + (idx_x, idx_y, idx_z)`.
pub open spec fn chunk_voxel_pos(c: IVec3, i: int) -> (int, int, int) {
    (32 * c.x + idx_x(i), 32 * c.y + idx_y(i), 32 * c.z + idx_z(i))
}

/// Splitting the world position of index `i` of chunk `c` gives back `c` and `i`.
pub proof fn lemma_chunk_voxel_split(c: IVec3, i: int, p: IVec3)
    requires
        0 <= i < 32768,
        p.x == chunk_voxel_pos(c, i).0,
        p.y == chunk_voxel_pos(c, i).1,
        p.z == chunk_voxel_pos(c, i).2,
    ensures
        spec_world_to_chunk(p) == c,
        spec_local_index(p) == i,
{
    lemma_idx_compose(i);
    lemma_fundamental_div_mod_converse(p.x as int, 32, c.x as int, idx_x(i));
    lemma_fundamental_div_mod_converse(p.y as int, 32, c.y as int, idx_y(i));
    lemma_fundamental_div_mod_converse(p.z as int, 32, c.z as int, idx_z(i));
}

} // verus!
