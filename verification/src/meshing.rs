//! Face-by-face voxel meshing: every face of a solid voxel that touches air
//! (or the chunk border) becomes a quad of two triangles.
use vstd::prelude::*;
use crate::chunk::{Chunk, Voxel, AIR};
use crate::coords::{spec_idx, idx_x, idx_y, idx_z, in_chunk, lemma_idx_compose, CHUNK_SIZE, CHUNK_VOLUME};

verus! {

/// Mesh with integer vertex positions (voxel corners), per-vertex tile
/// coordinates (0 or 1 in each axis) and triangle indices.
#[derive(Clone, Debug)]
pub struct MeshPosUv {
    pub positions: Vec<(i32, i32, i32)>,
    pub uvs: Vec<(u8, u8)>,
    pub indices: Vec<u32>,
}

/// Mesh produced by the meshing entry points (same layout as `MeshPosUv`).
#[derive(Clone, Debug)]
pub struct MeshData {
    pub positions: Vec<(i32, i32, i32)>,
    pub uvs: Vec<(u8, u8)>,
    pub indices: Vec<u32>,
}

impl MeshPosUv {
    /// An empty mesh.
    pub fn new() -> (r: Self)
        ensures
            r.positions@.len() == 0 && r.uvs@.len() == 0 && r.indices@.len() == 0,
    {
        MeshPosUv { positions: Vec::new(), uvs: Vec::new(), indices: Vec::new() }
    }
}

impl MeshData {
    /// An empty mesh.
    pub fn new() -> (r: Self)
        ensures
            r.positions@.len() == 0 && r.uvs@.len() == 0 && r.indices@.len() == 0,
    {
        MeshData { positions: Vec::new(), uvs: Vec::new(), indices: Vec::new() }
    }
}

/// Neighbour offset of face `f` (+X, -X, +Y, -Y, +Z, -Z).
pub open spec fn face_dir(f: int) -> (int, int, int) {
    if f == 0 {
        (1, 0, 0)
    } else if f == 1 {
        (-1, 0, 0)
    } else if f == 2 {
        (0, 1, 0)
    } else if f == 3 {
        (0, -1, 0)
    } else if f == 4 {
        (0, 0, 1)
    } else {
        (0, 0, -1)
    }
}

/// Voxel at local `(x, y, z)`, air outside the chunk.
pub open spec fn spec_sample(c: Seq<Voxel>, x: int, y: int, z: int) -> Voxel {
    if in_chunk(x, y, z) {
        c[spec_idx(x, y, z)]
    } else {
        AIR
    }
}

/// Face `f` of voxel `i` is emitted: the voxel is solid and its neighbour is air.
pub open spec fn face_visible(c: Seq<Voxel>, i: int, f: int) -> bool {
    let d = face_dir(f);
    c[i] != AIR && spec_sample(c, idx_x(i) + d.0, idx_y(i) + d.1, idx_z(i) + d.2) == AIR
}

/// Visible faces `(voxel index, face)` of voxel `i` among faces `0..k`, in face order.
pub open spec fn voxel_faces(c: Seq<Voxel>, i: int, k: int) -> Seq<(int, int)>
    decreases k,
{
    if k <= 0 {
        Seq::empty()
    } else {
        voxel_faces(c, i, k - 1) + (if face_visible(c, i, k - 1) {
            seq![(i, k - 1)]
        } else {
            Seq::empty()
        })
    }
}

/// Visible faces of the voxels with index `< n`, in index order.
pub open spec fn chunk_faces(c: Seq<Voxel>, n: int) -> Seq<(int, int)>
    decreases n,
{
    if n <= 0 {
        Seq::empty()
    } else {
        chunk_faces(c, n - 1) + voxel_faces(c, n - 1, 6)
    }
}

/// Corner `m` (0..4) of the unit quad of face `f`, relative to the voxel's minimum corner.
pub open spec fn quad_corner(f: int, m: int) -> (int, int, int) {
    if f == 0 {
        if m == 0 { (1, 0, 0) } else if m == 1 { (1, 0, 1) } else if m == 2 { (1, 1, 1) } else { (1, 1, 0) }
    } else if f == 1 {
        if m == 0 { (0, 0, 1) } else if m == 1 { (0, 0, 0) } else if m == 2 { (0, 1, 0) } else { (0, 1, 1) }
    } else if f == 2 {
        if m == 0 { (0, 1, 1) } else if m == 1 { (1, 1, 1) } else if m == 2 { (1, 1, 0) } else { (0, 1, 0) }
    } else if f == 3 {
        if m == 0 { (0, 0, 0) } else if m == 1 { (1, 0, 0) } else if m == 2 { (1, 0, 1) } else { (0, 0, 1) }
    } else if f == 4 {
        if m == 0 { (0, 0, 1) } else if m == 1 { (1, 0, 1) } else if m == 2 { (1, 1, 1) } else { (0, 1, 1) }
    } else {
        if m == 0 { (1, 0, 0) } else if m == 1 { (0, 0, 0) } else if m == 2 { (0, 1, 0) } else { (1, 1, 0) }
    }
}

/// Position of corner `m` of the quad of `face = (voxel index, face id)`.
pub open spec fn face_vertex(face: (int, int), m: int) -> (i32, i32, i32) {
    let q = quad_corner(face.1, m);
    ((idx_x(face.0) + q.0) as i32, (idx_y(face.0) + q.1) as i32, (idx_z(face.0) + q.2) as i32)
}

/// Tile coordinate of quad corner `m`.
pub open spec fn corner_uv(m: int) -> (u8, u8) {
    if m == 0 {
        (0, 0)
    } else if m == 1 {
        (1, 0)
    } else if m == 2 {
        (1, 1)
    } else {
        (0, 1)
    }
}

/// Index pattern of the two triangles `(0, 1, 2)` and `(0, 2, 3)` of a quad.
pub open spec fn quad_index(t: int) -> int {
    if t == 0 || t == 3 {
        0
    } else if t == 1 {
        1
    } else if t == 2 || t == 4 {
        2
    } else {
        3
    }
}

/// Buffers hold one quad per face of `faces`, in order: 4 vertices, 4 tile
/// coordinates and 6 indices per face.
pub open spec fn quads_of(
    pos: Seq<(i32, i32, i32)>,
    uvs: Seq<(u8, u8)>,
    idx: Seq<u32>,
    faces: Seq<(int, int)>,
) -> bool {
    &&& pos.len() == 4 * faces.len()
    &&& uvs.len() == 4 * faces.len()
    &&& idx.len() == 6 * faces.len()
    &&& forall|v: int| 0 <= v < pos.len() ==> #[trigger] pos[v] == face_vertex(faces[v / 4], v % 4)
    &&& forall|v: int| 0 <= v < uvs.len() ==> #[trigger] uvs[v] == corner_uv(v % 4)
    &&& forall|t: int| 0 <= t < idx.len() ==> #[trigger] idx[t] == 4 * (t / 6) + quad_index(t % 6)
}

proof fn lemma_voxel_faces_bounds(c: Seq<Voxel>, i: int, k: int)
    ensures
        voxel_faces(c, i, k).len() <= (if k < 0 { 0 } else { k }),
        forall|j: int|
            0 <= j < voxel_faces(c, i, k).len() ==> (#[trigger] voxel_faces(c, i, k)[j]).0 == i
                && 0 <= voxel_faces(c, i, k)[j].1 < 6 || k > 6,
    decreases k,
{
    if k > 0 {
        lemma_voxel_faces_bounds(c, i, k - 1);
        let a = voxel_faces(c, i, k - 1);
        let b: Seq<(int, int)> = if face_visible(c, i, k - 1) {
            seq![(i, k - 1)]
        } else {
            Seq::empty()
        };
        assert forall|j: int| 0 <= j < (a + b).len() implies (#[trigger] (a + b)[j]).0 == i && 0
            <= (a + b)[j].1 < 6 || k > 6 by {
            if j < a.len() {
                assert((a + b)[j] == a[j]);
            } else {
                assert((a + b)[j] == b[j - a.len()]);
            }
        }
    }
}

proof fn lemma_chunk_faces_bounds(c: Seq<Voxel>, n: int)
    requires
        0 <= n <= CHUNK_VOLUME,
    ensures
        chunk_faces(c, n).len() <= 6 * n,
        forall|j: int|
            0 <= j < chunk_faces(c, n).len() ==> 0 <= (#[trigger] chunk_faces(c, n)[j]).0 < n && 0
                <= chunk_faces(c, n)[j].1 < 6,
    decreases n,
{
    if n > 0 {
        lemma_chunk_faces_bounds(c, n - 1);
        lemma_voxel_faces_bounds(c, n - 1, 6);
        let a = chunk_faces(c, n - 1);
        let b = voxel_faces(c, n - 1, 6);
        assert forall|j: int| 0 <= j < (a + b).len() implies 0 <= (#[trigger] (a + b)[j]).0 < n
            && 0 <= (a + b)[j].1 < 6 by {
            if j < a.len() {
                assert((a + b)[j] == a[j]);
            } else {
                assert((a + b)[j] == b[j - a.len()]);
            }
        }
    }
}

/// Exec form of `quad_corner`.
fn quad_corner_exec(f: usize, m: usize) -> (r: (i32, i32, i32))
    requires
        f < 6,
        m < 4,
    ensures
        r.0 as int == quad_corner(f as int, m as int).0,
        r.1 as int == quad_corner(f as int, m as int).1,
        r.2 as int == quad_corner(f as int, m as int).2,
{
    if f == 0 {
        if m == 0 { (1, 0, 0) } else if m == 1 { (1, 0, 1) } else if m == 2 { (1, 1, 1) } else { (1, 1, 0) }
    } else if f == 1 {
        if m == 0 { (0, 0, 1) } else if m == 1 { (0, 0, 0) } else if m == 2 { (0, 1, 0) } else { (0, 1, 1) }
    } else if f == 2 {
        if m == 0 { (0, 1, 1) } else if m == 1 { (1, 1, 1) } else if m == 2 { (1, 1, 0) } else { (0, 1, 0) }
    } else if f == 3 {
        if m == 0 { (0, 0, 0) } else if m == 1 { (1, 0, 0) } else if m == 2 { (1, 0, 1) } else { (0, 0, 1) }
    } else if f == 4 {
        if m == 0 { (0, 0, 1) } else if m == 1 { (1, 0, 1) } else if m == 2 { (1, 1, 1) } else { (0, 1, 1) }
    } else {
        if m == 0 { (1, 0, 0) } else if m == 1 { (0, 0, 0) } else if m == 2 { (0, 1, 0) } else { (1, 1, 0) }
    }
}

/// Voxel at local `(x, y, z)` of `chunk`, air outside the chunk.
pub fn sample(chunk: &Chunk, x: i32, y: i32, z: i32) -> (r: Voxel)
    requires
        chunk.wf(),
    ensures
        r == spec_sample(chunk@, x as int, y as int, z as int),
{
    if x < 0 || y < 0 || z < 0 {
        return AIR;
    }
    let xu = x as usize;
    let yu = y as usize;
    let zu = z as usize;
    if xu >= CHUNK_SIZE || yu >= CHUNK_SIZE || zu >= CHUNK_SIZE {
        return AIR;
    }
    chunk.get(xu, yu, zu)
}

/// Appends the quad of face `face_id` of voxel index `vi`.
fn emit_face(m: &mut MeshPosUv, vi: usize, face_id: usize, Ghost(faces): Ghost<Seq<(int, int)>>)
    requires
        vi < CHUNK_VOLUME,
        face_id < 6,
        quads_of(old(m).positions@, old(m).uvs@, old(m).indices@, faces),
        old(m).positions@.len() + 4 <= u32::MAX,
    ensures
        quads_of(
            final(m).positions@,
            final(m).uvs@,
            final(m).indices@,
            faces.push((vi as int, face_id as int)),
        ),
{
    let ghost nf = faces.push((vi as int, face_id as int));
    let x = (vi % CHUNK_SIZE) as i32;
    let y = ((vi / CHUNK_SIZE) % CHUNK_SIZE) as i32;
    let z = (vi / 1024) as i32;
    let base = m.positions.len() as u32;
    m.indices.push(base);
    m.indices.push(base + 1);
    m.indices.push(base + 2);
    m.indices.push(base);
    m.indices.push(base + 2);
    m.indices.push(base + 3);
    let ghost idx_after = m.indices@;
    assert(forall|t: int| 6 * faces.len() <= t < 6 * faces.len() + 6 ==> #[trigger] idx_after[t] == base + quad_index(t - 6 * faces.len()));
    let mut k: usize = 0;
    while k < 4
        invariant
            0 <= k <= 4,
            vi < CHUNK_VOLUME,
            face_id < 6,
            x as int == idx_x(vi as int),
            y as int == idx_y(vi as int),
            z as int == idx_z(vi as int),
            base as int == 4 * faces.len(),
            nf == faces.push((vi as int, face_id as int)),
            m.positions@.len() == 4 * faces.len() + k,
            m.uvs@.len() == 4 * faces.len() + k,
            m.indices@ == idx_after,
            forall|v: int| 0 <= v < m.positions@.len() ==> #[trigger] m.positions@[v] == face_vertex(nf[v / 4], v % 4),
            forall|v: int| 0 <= v < m.uvs@.len() ==> #[trigger] m.uvs@[v] == corner_uv(v % 4),
        decreases 4 - k,
    {
        let q = quad_corner_exec(face_id, k);
        let uv: (u8, u8) = if k == 0 {
            (0, 0)
        } else if k == 1 {
            (1, 0)
        } else if k == 2 {
            (1, 1)
        } else {
            (0, 1)
        };
        m.positions.push((x + q.0, y + q.1, z + q.2));
        m.uvs.push(uv);
        k += 1;
    }
    assert forall|t: int| 0 <= t < m.indices@.len() implies #[trigger] m.indices@[t] == 4 * (t / 6)
        + quad_index(t % 6) by {
        if t >= 6 * faces.len() {
            assert(t / 6 == faces.len());
            assert(t % 6 == t - 6 * faces.len());
        }
    }
}

/// Meshes a chunk face by face: for each solid voxel in index order and each
/// of its 6 faces in order, a quad is emitted when the neighbour is air or
/// lies outside the chunk.
pub fn mesh_chunk_v2(chunk: &Chunk) -> (r: MeshPosUv)
    requires
        chunk.wf(),
    ensures
        quads_of(r.positions@, r.uvs@, r.indices@, chunk_faces(chunk@, CHUNK_VOLUME as int)),
{
    let mut m = MeshPosUv::new();
    let mut i: usize = 0;
    while i < CHUNK_VOLUME
        invariant
            chunk.wf(),
            i <= CHUNK_VOLUME,
            quads_of(m.positions@, m.uvs@, m.indices@, chunk_faces(chunk@, i as int)),
        decreases CHUNK_VOLUME - i,
    {
        proof {
            lemma_chunk_faces_bounds(chunk@, i as int);
        }
        let v = chunk.voxels_at(i);
        let x = (i % CHUNK_SIZE) as i32;
        let y = ((i / CHUNK_SIZE) % CHUNK_SIZE) as i32;
        let z = (i / 1024) as i32;
        let mut f: usize = 0;
        while f < 6
            invariant
                chunk.wf(),
                i < CHUNK_VOLUME,
                f <= 6,
                v == chunk@[i as int],
                x as int == idx_x(i as int),
                y as int == idx_y(i as int),
                z as int == idx_z(i as int),
                chunk_faces(chunk@, i as int).len() <= 6 * i,
                quads_of(
                    m.positions@,
                    m.uvs@,
                    m.indices@,
                    chunk_faces(chunk@, i as int) + voxel_faces(chunk@, i as int, f as int),
                ),
            decreases 6 - f,
        {
            proof {
                lemma_voxel_faces_bounds(chunk@, i as int, f as int);
            }
            let (dx, dy, dz): (i32, i32, i32) = if f == 0 {
                (1, 0, 0)
            } else if f == 1 {
                (-1, 0, 0)
            } else if f == 2 {
                (0, 1, 0)
            } else if f == 3 {
                (0, -1, 0)
            } else if f == 4 {
                (0, 0, 1)
            } else {
                (0, 0, -1)
            };
            let ghost before = chunk_faces(chunk@, i as int) + voxel_faces(chunk@, i as int, f as int);
            if v != AIR && sample(chunk, x + dx, y + dy, z + dz) == AIR {
                emit_face(&mut m, i, f, Ghost(before));
                proof {
                    assert(chunk_faces(chunk@, i as int) + voxel_faces(chunk@, i as int, f + 1)
                        =~= before.push((i as int, f as int)));
                }
            } else {
                proof {
                    assert(chunk_faces(chunk@, i as int) + voxel_faces(chunk@, i as int, f + 1)
                        =~= before);
                }
            }
            f += 1;
        }
        proof {
            assert(chunk_faces(chunk@, i + 1) == chunk_faces(chunk@, i as int) + voxel_faces(
                chunk@,
                i as int,
                6,
            ));
        }
        i += 1;
    }
    m
}

/// Meshes a chunk face by face (`mesh_chunk_v2`) into a `MeshData`.
pub fn mesh_chunk_with_ao(chunk: &Chunk) -> (r: MeshData)
    requires
        chunk.wf(),
    ensures
        quads_of(r.positions@, r.uvs@, r.indices@, chunk_faces(chunk@, CHUNK_VOLUME as int)),
{
    let legacy = mesh_chunk_v2(chunk);
    MeshData { positions: legacy.positions, uvs: legacy.uvs, indices: legacy.indices }
}


/// Each quad sits on its face of the voxel cube: every corner is a corner of
/// the unit cube, on the side of the face's neighbour (coordinate 1 along an
/// axis the face points up, 0 along an axis it points down), and the four
/// corners are distinct, so they cover the whole face.
pub proof fn lemma_quad_on_face(f: int, m: int, n: int)
    requires
        0 <= f < 6,
        0 <= m < 4,
        0 <= n < 4,
    ensures
        0 <= quad_corner(f, m).0 <= 1 && 0 <= quad_corner(f, m).1 <= 1 && 0 <= quad_corner(f, m).2 <= 1,
        face_dir(f).0 == 1 ==> quad_corner(f, m).0 == 1,
        face_dir(f).0 == -1 ==> quad_corner(f, m).0 == 0,
        face_dir(f).1 == 1 ==> quad_corner(f, m).1 == 1,
        face_dir(f).1 == -1 ==> quad_corner(f, m).1 == 0,
        face_dir(f).2 == 1 ==> quad_corner(f, m).2 == 1,
        face_dir(f).2 == -1 ==> quad_corner(f, m).2 == 0,
        m != n ==> quad_corner(f, m) != quad_corner(f, n),
{
}

/// Every face listed for a chunk is a visible face: its voxel is solid and
/// the neighbour in the face's direction is air (or outside the chunk).
proof fn lemma_chunk_faces_visible(c: Seq<Voxel>, n: int)
    ensures
        forall|j: int|
            0 <= j < chunk_faces(c, n).len() ==> face_visible(
                c,
                (#[trigger] chunk_faces(c, n)[j]).0,
                chunk_faces(c, n)[j].1,
            ),
    decreases n,
{
    if n > 0 {
        lemma_chunk_faces_visible(c, n - 1);
        lemma_voxel_faces_visible(c, n - 1, 6);
        let a = chunk_faces(c, n - 1);
        let b = voxel_faces(c, n - 1, 6);
        assert forall|j: int| 0 <= j < (a + b).len() implies face_visible(
            c,
            (#[trigger] (a + b)[j]).0,
            (a + b)[j].1,
        ) by {
            if j < a.len() {
                assert((a + b)[j] == a[j]);
            } else {
                assert((a + b)[j] == b[j - a.len()]);
            }
        }
    }
}

proof fn lemma_voxel_faces_visible(c: Seq<Voxel>, i: int, k: int)
    ensures
        forall|j: int|
            0 <= j < voxel_faces(c, i, k).len() ==> face_visible(
                c,
                (#[trigger] voxel_faces(c, i, k)[j]).0,
                voxel_faces(c, i, k)[j].1,
            ),
    decreases k,
{
    if k > 0 {
        lemma_voxel_faces_visible(c, i, k - 1);
        let a = voxel_faces(c, i, k - 1);
        let b: Seq<(int, int)> = if face_visible(c, i, k - 1) {
            seq![(i, k - 1)]
        } else {
            Seq::empty()
        };
        assert forall|j: int| 0 <= j < (a + b).len() implies face_visible(
            c,
            (#[trigger] (a + b)[j]).0,
            (a + b)[j].1,
        ) by {
            if j < a.len() {
                assert((a + b)[j] == a[j]);
            } else {
                assert((a + b)[j] == b[j - a.len()]);
            }
        }
    }
}

/// A mesh of a chunk (as `mesh_chunk_v2` builds it) draws each vertex on the
/// boundary between a solid voxel and an air neighbour: vertex `v` belongs to
/// the quad of voxel `i` and face direction `d`, voxel `i` is solid, the voxel
/// at `i + d` is air, and the vertex lies on the cube of voxel `i`, on its side
/// toward that neighbour.
pub proof fn lemma_mesh_on_air_boundary(
    c: Seq<Voxel>,
    pos: Seq<(i32, i32, i32)>,
    uvs: Seq<(u8, u8)>,
    idx: Seq<u32>,
    v: int,
)
    requires
        quads_of(pos, uvs, idx, chunk_faces(c, CHUNK_VOLUME as int)),
        0 <= v < pos.len(),
    ensures
        ({
            let (i, f) = chunk_faces(c, CHUNK_VOLUME as int)[v / 4];
            let d = face_dir(f);
            let (x, y, z) = (idx_x(i), idx_y(i), idx_z(i));
            &&& 0 <= i < CHUNK_VOLUME
            &&& 0 <= f < 6
            &&& c[i] != AIR
            &&& spec_sample(c, x + d.0, y + d.1, z + d.2) == AIR
            &&& x <= pos[v].0 <= x + 1 && y <= pos[v].1 <= y + 1 && z <= pos[v].2 <= z + 1
            &&& d.0 == 1 ==> pos[v].0 == x + 1
            &&& d.0 == -1 ==> pos[v].0 == x
            &&& d.1 == 1 ==> pos[v].1 == y + 1
            &&& d.1 == -1 ==> pos[v].1 == y
            &&& d.2 == 1 ==> pos[v].2 == z + 1
            &&& d.2 == -1 ==> pos[v].2 == z
        }),
{
    let faces = chunk_faces(c, CHUNK_VOLUME as int);
    lemma_chunk_faces_bounds(c, CHUNK_VOLUME as int);
    lemma_chunk_faces_visible(c, CHUNK_VOLUME as int);
    let j = v / 4;
    assert(0 <= j < faces.len());
    let (i, f) = faces[j];
    assert(face_visible(c, i, f));
    lemma_quad_on_face(f, v % 4, v % 4);
    lemma_idx_compose(i);
    assert(pos[v] == face_vertex(faces[v / 4], v % 4));
}
} // verus!
