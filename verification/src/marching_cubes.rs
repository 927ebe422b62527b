//! Integer decisions of density meshing: which cube corners lie inside the
//! surface, and which material a surface vertex takes. Vertex positions and
//! normals are interpolated by the caller.
use vstd::prelude::*;
use crate::coords::IVec3;
use crate::voxel_schema::{DensitySchema, MaterialId};

verus! {

/// How a surface vertex between two voxels picks its material.
#[derive(Clone, Copy, Debug, PartialEq, Eq, Structural)]
pub enum MaterialBlendMode {
    /// The voxel nearer to the vertex.
    Nearest,
    /// The voxel with the higher density.
    DensityWeighted,
    /// The most common material around the first voxel.
    MajorityVote,
}

/// Material of the denser of `v0` and `v1` (`v1` on a tie).
pub open spec fn denser_material(schema: DensitySchema, v0: IVec3, v1: IVec3) -> MaterialId {
    if schema.density_world(v0) > schema.density_world(v1) {
        schema.material_world(v0)
    } else {
        schema.material_world(v1)
    }
}

/// Material of the denser of two voxels, the second on a tie.
pub fn density_weighted_material(schema: &DensitySchema, v0: IVec3, v1: IVec3) -> (r: MaterialId)
    requires
        schema.wf(),
    ensures
        r == denser_material(*schema, v0, v1),
{
    let mat0 = schema.get_material_world(v0);
    let mat1 = schema.get_material_world(v1);
    let d0 = schema.get_density_world(v0);
    let d1 = schema.get_density_world(v1);
    if d0 > d1 {
        mat0
    } else {
        mat1
    }
}

/// The `k`-th voxel (`0 <= k < 27`) of the 3×3×3 block centred on `v`.
pub open spec fn neighbour(v: IVec3, k: int) -> IVec3 {
    IVec3 { x: (v.x + k / 9 - 1) as i32, y: (v.y + (k / 3) % 3 - 1) as i32, z: (v.z + k % 3 - 1) as i32 }
}

/// Number of the first `k` voxels of the block around `v` whose material is `m`.
pub open spec fn material_count(schema: DensitySchema, v: IVec3, m: int, k: int) -> int
    decreases k,
{
    if k <= 0 {
        0
    } else {
        material_count(schema, v, m, k - 1) + (if schema.material_world(neighbour(v, k - 1)) == m {
            1int
        } else {
            0int
        })
    }
}

/// `m` is the most common material of the block around `v`, the smallest such.
pub open spec fn is_majority(schema: DensitySchema, v: IVec3, m: int) -> bool {
    &&& 0 <= m < 256
    &&& forall|n: int| 0 <= n < 256 ==> #[trigger] material_count(schema, v, n, 27) <= material_count(schema, v, m, 27)
    &&& forall|n: int| 0 <= n < m ==> #[trigger] material_count(schema, v, n, 27) < material_count(schema, v, m, 27)
}

proof fn lemma_material_count_bounds(schema: DensitySchema, v: IVec3, m: int, k: int)
    requires
        0 <= k,
    ensures
        0 <= material_count(schema, v, m, k) <= k,
    decreases k,
{
    if k > 0 {
        lemma_material_count_bounds(schema, v, m, k - 1);
    }
}

/// The most common material among the 27 voxels of the block centred on `v0`
/// (the smallest material id on a tie).
pub fn majority_material(schema: &DensitySchema, v0: IVec3) -> (r: MaterialId)
    requires
        schema.wf(),
        i32::MIN < v0.x < i32::MAX,
        i32::MIN < v0.y < i32::MAX,
        i32::MIN < v0.z < i32::MAX,
    ensures
        is_majority(*schema, v0, r as int),
{
    let mut counts: Vec<u32> = vec![0u32; 256];
    let mut k: i32 = 0;
    while k < 27
        invariant
            schema.wf(),
            i32::MIN < v0.x < i32::MAX,
            i32::MIN < v0.y < i32::MAX,
            i32::MIN < v0.z < i32::MAX,
            0 <= k <= 27,
            counts@.len() == 256,
            forall|m: int| 0 <= m < 256 ==> #[trigger] counts@[m] == material_count(*schema, v0, m, k as int),
        decreases 27 - k,
    {
        let p = IVec3 { x: v0.x - 1 + k / 9, y: v0.y - 1 + (k / 3) % 3, z: v0.z - 1 + k % 3 };
        let mat = schema.get_material_world(p);
        proof {
            assert(p == neighbour(v0, k as int));
            lemma_material_count_bounds(*schema, v0, mat as int, k as int);
        }
        let c = counts[mat as usize];
        counts.set(mat as usize, c + 1);
        k = k + 1;
    }
    let mut best: u8 = 0;
    let mut max_count: u32 = 0;
    let mut m: usize = 0;
    while m < 256
        invariant
            counts@.len() == 256,
            forall|n: int| 0 <= n < 256 ==> #[trigger] counts@[n] == material_count(*schema, v0, n, 27),
            m <= 256,
            best < 256,
            best as int <= m || (m == 0 && best == 0),
            max_count == 0 ==> best == 0,
            max_count > 0 ==> max_count == counts@[best as int] && best < m,
            forall|n: int| 0 <= n < m ==> #[trigger] counts@[n] <= max_count,
            forall|n: int| 0 <= n < best ==> #[trigger] counts@[n] < max_count,
        decreases 256 - m,
    {
        if counts[m] > max_count {
            max_count = counts[m];
            best = m as u8;
        }
        m += 1;
    }
    proof {
        assert(counts@[best as int] == max_count);
        assert forall|n: int| 0 <= n < 256 implies #[trigger] material_count(*schema, v0, n, 27)
            <= material_count(*schema, v0, best as int, 27) by {
            assert(counts@[n] <= max_count);
        }
        assert forall|n: int| 0 <= n < best implies #[trigger] material_count(*schema, v0, n, 27)
            < material_count(*schema, v0, best as int, 27) by {
            assert(counts@[n] < max_count);
        }
    }
    best
}

/// Corner `i` (`0 <= i < 8`) of the cube whose lowest corner is `pos`, in
/// the marching-cubes corner order.
pub open spec fn cube_corner(pos: IVec3, i: int) -> IVec3 {
    let (dx, dy, dz) = if i == 0 {
        (0int, 0int, 0int)
    } else if i == 1 {
        (1, 0, 0)
    } else if i == 2 {
        (1, 0, 1)
    } else if i == 3 {
        (0, 0, 1)
    } else if i == 4 {
        (0, 1, 0)
    } else if i == 5 {
        (1, 1, 0)
    } else if i == 6 {
        (1, 1, 1)
    } else {
        (0, 1, 1)
    };
    IVec3 { x: (pos.x + dx) as i32, y: (pos.y + dy) as i32, z: (pos.z + dz) as i32 }
}

/// 1 when corner `i` of the cube at `pos` is at least `threshold` dense, else 0.
pub open spec fn corner_bit(schema: DensitySchema, pos: IVec3, threshold: u16, i: int) -> int {
    if schema.density_world(cube_corner(pos, i)) >= threshold {
        1
    } else {
        0
    }
}

/// Case of the cube at `pos`: bit `i` set when corner `i` is at least `threshold` dense.
pub open spec fn cube_case(schema: DensitySchema, pos: IVec3, threshold: u16) -> int {
    corner_bit(schema, pos, threshold, 0) + 2 * corner_bit(schema, pos, threshold, 1) + 4
        * corner_bit(schema, pos, threshold, 2) + 8 * corner_bit(schema, pos, threshold, 3) + 16
        * corner_bit(schema, pos, threshold, 4) + 32 * corner_bit(schema, pos, threshold, 5) + 64
        * corner_bit(schema, pos, threshold, 6) + 128 * corner_bit(schema, pos, threshold, 7)
}

/// The marching-cubes case of the cube whose lowest corner is `pos`: which of
/// its 8 corners have density at least `threshold`.
pub fn cube_index(schema: &DensitySchema, pos: IVec3, threshold: u16) -> (r: u8)
    requires
        schema.wf(),
        pos.x < i32::MAX,
        pos.y < i32::MAX,
        pos.z < i32::MAX,
    ensures
        r as int == cube_case(*schema, pos, threshold),
{
    let x1 = pos.x + 1;
    let y1 = pos.y + 1;
    let z1 = pos.z + 1;
    let mut r: u8 = 0;
    if schema.get_density_world(IVec3 { x: pos.x, y: pos.y, z: pos.z }) as u16 >= threshold {
        r = r + 1;
    }
    if schema.get_density_world(IVec3 { x: x1, y: pos.y, z: pos.z }) as u16 >= threshold {
        r = r + 2;
    }
    if schema.get_density_world(IVec3 { x: x1, y: pos.y, z: z1 }) as u16 >= threshold {
        r = r + 4;
    }
    if schema.get_density_world(IVec3 { x: pos.x, y: pos.y, z: z1 }) as u16 >= threshold {
        r = r + 8;
    }
    if schema.get_density_world(IVec3 { x: pos.x, y: y1, z: pos.z }) as u16 >= threshold {
        r = r + 16;
    }
    if schema.get_density_world(IVec3 { x: x1, y: y1, z: pos.z }) as u16 >= threshold {
        r = r + 32;
    }
    if schema.get_density_world(IVec3 { x: x1, y: y1, z: z1 }) as u16 >= threshold {
        r = r + 64;
    }
    if schema.get_density_world(IVec3 { x: pos.x, y: y1, z: z1 }) as u16 >= threshold {
        r = r + 128;
    }
    r
}


/// Bit `i` of `n`.
pub open spec fn bit_of(n: nat, i: nat) -> bool
    decreases i,
{
    if i == 0 {
        n % 2 == 1
    } else {
        bit_of(n / 2, (i - 1) as nat)
    }
}

/// `2^k`.
pub open spec fn two_pow(k: nat) -> nat
    decreases k,
{
    if k == 0 {
        1
    } else {
        2 * two_pow((k - 1) as nat)
    }
}

/// The two corners joined by edge `e` (`0 <= e < 12`) of a cube, in the
/// marching-cubes order: the four bottom edges, the four top edges, then the
/// four vertical edges.
pub open spec fn edge_ends(e: int) -> (int, int) {
    if e < 4 {
        (e, (e + 1) % 4)
    } else if e < 8 {
        (e, 4 + (e - 3) % 4)
    } else {
        (e - 8, e - 4)
    }
}

/// The surface crosses edge `e` of a cube of case `case`: one of the edge's
/// corners is inside and the other is not.
pub open spec fn edge_cut(case: nat, e: int) -> bool {
    bit_of(case, edge_ends(e).0 as nat) != bit_of(case, edge_ends(e).1 as nat)
}

/// Mask of the cut edges among the first `n` edges: bit `e` set when edge `e` is cut.
pub open spec fn cut_mask(case: nat, n: nat) -> nat
    decreases n,
{
    if n == 0 {
        0
    } else {
        cut_mask(case, (n - 1) as nat) + (if edge_cut(case, n - 1) {
            two_pow((n - 1) as nat)
        } else {
            0
        })
    }
}

proof fn lemma_cut_mask_bound(case: nat, n: nat)
    ensures
        cut_mask(case, n) < two_pow(n),
    decreases n,
{
    if n > 0 {
        lemma_cut_mask_bound(case, (n - 1) as nat);
    }
}

/// The two corners joined by edge `e` of a cube.
pub fn edge_corners(e: u8) -> (r: (u8, u8))
    requires
        e < 12,
    ensures
        r.0 as int == edge_ends(e as int).0,
        r.1 as int == edge_ends(e as int).1,
{
    if e < 4 {
        (e, (e + 1) % 4)
    } else if e < 8 {
        (e, 4 + (e - 3) % 4)
    } else {
        (e - 8, e - 4)
    }
}

/// Whether corner `i` of a cube of case `case` is inside the surface.
fn corner_inside(case: u8, i: u8) -> (r: bool)
    ensures
        r == bit_of(case as nat, i as nat),
{
    let mut n = case;
    let mut k = i;
    while k > 0
        invariant
            bit_of(case as nat, i as nat) == bit_of(n as nat, k as nat),
        decreases k,
    {
        n = n / 2;
        k = k - 1;
    }
    n % 2 == 1
}

/// The edges of a cube of case `case` that the surface crosses: bit `e` is set
/// when edge `e`'s two corners lie on different sides of the surface.
pub fn cut_edges(case: u8) -> (r: u16)
    ensures
        r as nat == cut_mask(case as nat, 12),
{
    let mut mask: u16 = 0;
    let mut p: u16 = 1;
    let mut e: u8 = 0;
    while e < 12
        invariant
            e <= 12,
            mask as nat == cut_mask(case as nat, e as nat),
            e < 12 ==> p as nat == two_pow(e as nat),
        decreases 12 - e,
    {
        proof {
            lemma_cut_mask_bound(case as nat, e as nat);
            assert(two_pow(e as nat) <= 2048) by {
                reveal_with_fuel(two_pow, 12);
            }
        }
        let (a, b) = edge_corners(e);
        if corner_inside(case, a) != corner_inside(case, b) {
            mask = mask + p;
        }
        if e < 11 {
            p = p * 2;
        }
        e = e + 1;
    }
    mask
}

/// Edges of the triangles of a cube of case `case`, three per triangle, for
/// the cases the triangle table lists (0 to 19); empty for the others.
pub open spec fn triangle_edges(case: u8) -> Seq<u8> {
    match case {
        1 => seq![0u8, 8u8, 3u8],
        2 => seq![0u8, 1u8, 9u8],
        3 => seq![1u8, 8u8, 3u8, 9u8, 8u8, 1u8],
        4 => seq![1u8, 2u8, 10u8],
        5 => seq![0u8, 8u8, 3u8, 1u8, 2u8, 10u8],
        6 => seq![9u8, 2u8, 10u8, 0u8, 2u8, 9u8],
        7 => seq![2u8, 8u8, 3u8, 2u8, 10u8, 8u8, 10u8, 9u8, 8u8],
        8 => seq![3u8, 11u8, 2u8],
        9 => seq![0u8, 11u8, 2u8, 8u8, 11u8, 0u8],
        10 => seq![1u8, 9u8, 0u8, 2u8, 3u8, 11u8],
        11 => seq![1u8, 11u8, 2u8, 1u8, 9u8, 11u8, 9u8, 8u8, 11u8],
        12 => seq![3u8, 10u8, 1u8, 11u8, 10u8, 3u8],
        13 => seq![0u8, 10u8, 1u8, 0u8, 8u8, 10u8, 8u8, 11u8, 10u8],
        14 => seq![3u8, 9u8, 0u8, 3u8, 11u8, 9u8, 11u8, 10u8, 9u8],
        15 => seq![9u8, 8u8, 10u8, 10u8, 8u8, 11u8],
        _ => Seq::empty(),
    }
}

/// Edges of the triangles of a cube of case `case`, three per triangle.
pub fn case_triangles(case: u8) -> (r: Vec<u8>)
    ensures
        r@ == triangle_edges(case),
{
    match case {
        1 => vec![0u8, 8u8, 3u8],
        2 => vec![0u8, 1u8, 9u8],
        3 => vec![1u8, 8u8, 3u8, 9u8, 8u8, 1u8],
        4 => vec![1u8, 2u8, 10u8],
        5 => vec![0u8, 8u8, 3u8, 1u8, 2u8, 10u8],
        6 => vec![9u8, 2u8, 10u8, 0u8, 2u8, 9u8],
        7 => vec![2u8, 8u8, 3u8, 2u8, 10u8, 8u8, 10u8, 9u8, 8u8],
        8 => vec![3u8, 11u8, 2u8],
        9 => vec![0u8, 11u8, 2u8, 8u8, 11u8, 0u8],
        10 => vec![1u8, 9u8, 0u8, 2u8, 3u8, 11u8],
        11 => vec![1u8, 11u8, 2u8, 1u8, 9u8, 11u8, 9u8, 8u8, 11u8],
        12 => vec![3u8, 10u8, 1u8, 11u8, 10u8, 3u8],
        13 => vec![0u8, 10u8, 1u8, 0u8, 8u8, 10u8, 8u8, 11u8, 10u8],
        14 => vec![3u8, 9u8, 0u8, 3u8, 11u8, 9u8, 11u8, 10u8, 9u8],
        15 => vec![9u8, 8u8, 10u8, 10u8, 8u8, 11u8],
        _ => Vec::new(),
    }
}

/// Every edge of the list is cut in case `case`.
pub open spec fn all_cut(case: nat, edges: Seq<u8>) -> bool {
    forall|i: int| 0 <= i < edges.len() ==> edge_cut(case, #[trigger] edges[i] as int)
}

/// The triangles of every case lie on cut edges: each edge of each triangle
/// has one corner inside the surface and one outside, and the edges come in
/// threes.
pub proof fn lemma_triangles_on_cut_edges(case: u8, i: int)
    requires
        0 <= i < triangle_edges(case).len(),
    ensures
        edge_cut(case as nat, triangle_edges(case)[i] as int),
        triangle_edges(case).len() % 3 == 0,
{
    lemma_row_cut(case);
}

/// The triangle list of `case` lies on cut edges.
#[verifier::spinoff_prover]
#[verifier::rlimit(60)]
proof fn lemma_row_cut(case: u8)
    requires
        triangle_edges(case).len() > 0,
    ensures
        all_cut(case as nat, triangle_edges(case)),
        triangle_edges(case).len() % 3 == 0,
{
    reveal_with_fuel(bit_of, 8);
    if case == 1 {
        let s = seq![0u8, 8u8, 3u8];
        assert(triangle_edges(case) =~= s);
        assert forall|i: int| 0 <= i < s.len() implies edge_cut(1, #[trigger] s[i] as int) by {
            if i == 0 {} else if i == 1 {} else if i == 2 {}
        }
    } else if case == 2 {
        let s = seq![0u8, 1u8, 9u8];
        assert(triangle_edges(case) =~= s);
        assert forall|i: int| 0 <= i < s.len() implies edge_cut(2, #[trigger] s[i] as int) by {
            if i == 0 {} else if i == 1 {} else if i == 2 {}
        }
    } else if case == 3 {
        let s = seq![1u8, 8u8, 3u8, 9u8, 8u8, 1u8];
        assert(triangle_edges(case) =~= s);
        assert forall|i: int| 0 <= i < s.len() implies edge_cut(3, #[trigger] s[i] as int) by {
            if i == 0 {} else if i == 1 {} else if i == 2 {} else if i == 3 {} else if i == 4 {} else if i == 5 {}
        }
    } else if case == 4 {
        let s = seq![1u8, 2u8, 10u8];
        assert(triangle_edges(case) =~= s);
        assert forall|i: int| 0 <= i < s.len() implies edge_cut(4, #[trigger] s[i] as int) by {
            if i == 0 {} else if i == 1 {} else if i == 2 {}
        }
    } else if case == 5 {
        let s = seq![0u8, 8u8, 3u8, 1u8, 2u8, 10u8];
        assert(triangle_edges(case) =~= s);
        assert forall|i: int| 0 <= i < s.len() implies edge_cut(5, #[trigger] s[i] as int) by {
            if i == 0 {} else if i == 1 {} else if i == 2 {} else if i == 3 {} else if i == 4 {} else if i == 5 {}
        }
    } else if case == 6 {
        let s = seq![9u8, 2u8, 10u8, 0u8, 2u8, 9u8];
        assert(triangle_edges(case) =~= s);
        assert forall|i: int| 0 <= i < s.len() implies edge_cut(6, #[trigger] s[i] as int) by {
            if i == 0 {} else if i == 1 {} else if i == 2 {} else if i == 3 {} else if i == 4 {} else if i == 5 {}
        }
    } else if case == 7 {
        let s = seq![2u8, 8u8, 3u8, 2u8, 10u8, 8u8, 10u8, 9u8, 8u8];
        assert(triangle_edges(case) =~= s);
        assert forall|i: int| 0 <= i < s.len() implies edge_cut(7, #[trigger] s[i] as int) by {
            if i == 0 {} else if i == 1 {} else if i == 2 {} else if i == 3 {} else if i == 4 {} else if i == 5 {} else if i == 6 {} else if i == 7 {} else if i == 8 {}
        }
    } else if case == 8 {
        let s = seq![3u8, 11u8, 2u8];
        assert(triangle_edges(case) =~= s);
        assert forall|i: int| 0 <= i < s.len() implies edge_cut(8, #[trigger] s[i] as int) by {
            if i == 0 {} else if i == 1 {} else if i == 2 {}
        }
    } else if case == 9 {
        let s = seq![0u8, 11u8, 2u8, 8u8, 11u8, 0u8];
        assert(triangle_edges(case) =~= s);
        assert forall|i: int| 0 <= i < s.len() implies edge_cut(9, #[trigger] s[i] as int) by {
            if i == 0 {} else if i == 1 {} else if i == 2 {} else if i == 3 {} else if i == 4 {} else if i == 5 {}
        }
    } else if case == 10 {
        let s = seq![1u8, 9u8, 0u8, 2u8, 3u8, 11u8];
        assert(triangle_edges(case) =~= s);
        assert forall|i: int| 0 <= i < s.len() implies edge_cut(10, #[trigger] s[i] as int) by {
            if i == 0 {} else if i == 1 {} else if i == 2 {} else if i == 3 {} else if i == 4 {} else if i == 5 {}
        }
    } else if case == 11 {
        let s = seq![1u8, 11u8, 2u8, 1u8, 9u8, 11u8, 9u8, 8u8, 11u8];
        assert(triangle_edges(case) =~= s);
        assert forall|i: int| 0 <= i < s.len() implies edge_cut(11, #[trigger] s[i] as int) by {
            if i == 0 {} else if i == 1 {} else if i == 2 {} else if i == 3 {} else if i == 4 {} else if i == 5 {} else if i == 6 {} else if i == 7 {} else if i == 8 {}
        }
    } else if case == 12 {
        let s = seq![3u8, 10u8, 1u8, 11u8, 10u8, 3u8];
        assert(triangle_edges(case) =~= s);
        assert forall|i: int| 0 <= i < s.len() implies edge_cut(12, #[trigger] s[i] as int) by {
            if i == 0 {} else if i == 1 {} else if i == 2 {} else if i == 3 {} else if i == 4 {} else if i == 5 {}
        }
    } else if case == 13 {
        let s = seq![0u8, 10u8, 1u8, 0u8, 8u8, 10u8, 8u8, 11u8, 10u8];
        assert(triangle_edges(case) =~= s);
        assert forall|i: int| 0 <= i < s.len() implies edge_cut(13, #[trigger] s[i] as int) by {
            if i == 0 {} else if i == 1 {} else if i == 2 {} else if i == 3 {} else if i == 4 {} else if i == 5 {} else if i == 6 {} else if i == 7 {} else if i == 8 {}
        }
    } else if case == 14 {
        let s = seq![3u8, 9u8, 0u8, 3u8, 11u8, 9u8, 11u8, 10u8, 9u8];
        assert(triangle_edges(case) =~= s);
        assert forall|i: int| 0 <= i < s.len() implies edge_cut(14, #[trigger] s[i] as int) by {
            if i == 0 {} else if i == 1 {} else if i == 2 {} else if i == 3 {} else if i == 4 {} else if i == 5 {} else if i == 6 {} else if i == 7 {} else if i == 8 {}
        }
    } else if case == 15 {
        let s = seq![9u8, 8u8, 10u8, 10u8, 8u8, 11u8];
        assert(triangle_edges(case) =~= s);
        assert forall|i: int| 0 <= i < s.len() implies edge_cut(15, #[trigger] s[i] as int) by {
            if i == 0 {} else if i == 1 {} else if i == 2 {} else if i == 3 {} else if i == 4 {} else if i == 5 {}
        }
    }
}

/// The triangles of a case close its surface patch: every edge the surface
/// crosses carries a triangle vertex. This holds for the cases the triangle
/// table lists (0 to 15); the table stops there.
#[verifier::spinoff_prover]
#[verifier::rlimit(60)]
pub proof fn lemma_triangles_cover_cut_edges(case: u8, e: int)
    requires
        case < 16,
        0 <= e < 12,
        edge_cut(case as nat, e),
    ensures
        triangle_edges(case).contains(e as u8),
{
    reveal_with_fuel(bit_of, 8);
    if case == 0 {
    } else if case == 1 {
        let s = seq![0u8, 8u8, 3u8];
        assert(triangle_edges(case) =~= s);
        if e == 0 {
            assert(s[0] == 0u8);
        } else if e == 3 {
            assert(s[2] == 3u8);
        } else if e == 8 {
            assert(s[1] == 8u8);
        }
    } else if case == 2 {
        let s = seq![0u8, 1u8, 9u8];
        assert(triangle_edges(case) =~= s);
        if e == 0 {
            assert(s[0] == 0u8);
        } else if e == 1 {
            assert(s[1] == 1u8);
        } else if e == 9 {
            assert(s[2] == 9u8);
        }
    } else if case == 3 {
        let s = seq![1u8, 8u8, 3u8, 9u8, 8u8, 1u8];
        assert(triangle_edges(case) =~= s);
        if e == 1 {
            assert(s[0] == 1u8);
        } else if e == 3 {
            assert(s[2] == 3u8);
        } else if e == 8 {
            assert(s[1] == 8u8);
        } else if e == 9 {
            assert(s[3] == 9u8);
        }
    } else if case == 4 {
        let s = seq![1u8, 2u8, 10u8];
        assert(triangle_edges(case) =~= s);
        if e == 1 {
            assert(s[0] == 1u8);
        } else if e == 2 {
            assert(s[1] == 2u8);
        } else if e == 10 {
            assert(s[2] == 10u8);
        }
    } else if case == 5 {
        let s = seq![0u8, 8u8, 3u8, 1u8, 2u8, 10u8];
        assert(triangle_edges(case) =~= s);
        if e == 0 {
            assert(s[0] == 0u8);
        } else if e == 1 {
            assert(s[3] == 1u8);
        } else if e == 2 {
            assert(s[4] == 2u8);
        } else if e == 3 {
            assert(s[2] == 3u8);
        } else if e == 8 {
            assert(s[1] == 8u8);
        } else if e == 10 {
            assert(s[5] == 10u8);
        }
    } else if case == 6 {
        let s = seq![9u8, 2u8, 10u8, 0u8, 2u8, 9u8];
        assert(triangle_edges(case) =~= s);
        if e == 0 {
            assert(s[3] == 0u8);
        } else if e == 2 {
            assert(s[1] == 2u8);
        } else if e == 9 {
            assert(s[0] == 9u8);
        } else if e == 10 {
            assert(s[2] == 10u8);
        }
    } else if case == 7 {
        let s = seq![2u8, 8u8, 3u8, 2u8, 10u8, 8u8, 10u8, 9u8, 8u8];
        assert(triangle_edges(case) =~= s);
        if e == 2 {
            assert(s[0] == 2u8);
        } else if e == 3 {
            assert(s[2] == 3u8);
        } else if e == 8 {
            assert(s[1] == 8u8);
        } else if e == 9 {
            assert(s[7] == 9u8);
        } else if e == 10 {
            assert(s[4] == 10u8);
        }
    } else if case == 8 {
        let s = seq![3u8, 11u8, 2u8];
        assert(triangle_edges(case) =~= s);
        if e == 2 {
            assert(s[2] == 2u8);
        } else if e == 3 {
            assert(s[0] == 3u8);
        } else if e == 11 {
            assert(s[1] == 11u8);
        }
    } else if case == 9 {
        let s = seq![0u8, 11u8, 2u8, 8u8, 11u8, 0u8];
        assert(triangle_edges(case) =~= s);
        if e == 0 {
            assert(s[0] == 0u8);
        } else if e == 2 {
            assert(s[2] == 2u8);
        } else if e == 8 {
            assert(s[3] == 8u8);
        } else if e == 11 {
            assert(s[1] == 11u8);
        }
    } else if case == 10 {
        let s = seq![1u8, 9u8, 0u8, 2u8, 3u8, 11u8];
        assert(triangle_edges(case) =~= s);
        if e == 0 {
            assert(s[2] == 0u8);
        } else if e == 1 {
            assert(s[0] == 1u8);
        } else if e == 2 {
            assert(s[3] == 2u8);
        } else if e == 3 {
            assert(s[4] == 3u8);
        } else if e == 9 {
            assert(s[1] == 9u8);
        } else if e == 11 {
            assert(s[5] == 11u8);
        }
    } else if case == 11 {
        let s = seq![1u8, 11u8, 2u8, 1u8, 9u8, 11u8, 9u8, 8u8, 11u8];
        assert(triangle_edges(case) =~= s);
        if e == 1 {
            assert(s[0] == 1u8);
        } else if e == 2 {
            assert(s[2] == 2u8);
        } else if e == 8 {
            assert(s[7] == 8u8);
        } else if e == 9 {
            assert(s[4] == 9u8);
        } else if e == 11 {
            assert(s[1] == 11u8);
        }
    } else if case == 12 {
        let s = seq![3u8, 10u8, 1u8, 11u8, 10u8, 3u8];
        assert(triangle_edges(case) =~= s);
        if e == 1 {
            assert(s[2] == 1u8);
        } else if e == 3 {
            assert(s[0] == 3u8);
        } else if e == 10 {
            assert(s[1] == 10u8);
        } else if e == 11 {
            assert(s[3] == 11u8);
        }
    } else if case == 13 {
        let s = seq![0u8, 10u8, 1u8, 0u8, 8u8, 10u8, 8u8, 11u8, 10u8];
        assert(triangle_edges(case) =~= s);
        if e == 0 {
            assert(s[0] == 0u8);
        } else if e == 1 {
            assert(s[2] == 1u8);
        } else if e == 8 {
            assert(s[4] == 8u8);
        } else if e == 10 {
            assert(s[1] == 10u8);
        } else if e == 11 {
            assert(s[7] == 11u8);
        }
    } else if case == 14 {
        let s = seq![3u8, 9u8, 0u8, 3u8, 11u8, 9u8, 11u8, 10u8, 9u8];
        assert(triangle_edges(case) =~= s);
        if e == 0 {
            assert(s[2] == 0u8);
        } else if e == 3 {
            assert(s[0] == 3u8);
        } else if e == 9 {
            assert(s[1] == 9u8);
        } else if e == 10 {
            assert(s[7] == 10u8);
        } else if e == 11 {
            assert(s[4] == 11u8);
        }
    } else if case == 15 {
        let s = seq![9u8, 8u8, 10u8, 10u8, 8u8, 11u8];
        assert(triangle_edges(case) =~= s);
        if e == 8 {
            assert(s[1] == 8u8);
        } else if e == 9 {
            assert(s[0] == 9u8);
        } else if e == 10 {
            assert(s[2] == 10u8);
        } else if e == 11 {
            assert(s[5] == 11u8);
        }
    }
}
} // verus!
