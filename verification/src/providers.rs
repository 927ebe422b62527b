//! Voxel data providers: the voxel value model, dense voxel regions, the
//! in-memory grid store and the provider interface.
use vstd::prelude::*;
use vstd::arithmetic::div_mod::lemma_fundamental_div_mod_converse;
use crate::chunk::{BlockId, AIR};
use crate::coords::{
    split_world_pos, spec_world_to_chunk, spec_local_index, chunk_coord, local_coord, IVec3,
    CHUNK_VOLUME,
};
use crate::vec_map::VecMap;
use crate::voxel_schema::{Density, MaterialId, MAT_WATER, MAT_STONE, MAT_GRASS, MAT_DIRT};

verus! {

/// Errors of provider operations.
#[derive(Clone, Debug)]
pub enum ProviderError {
    /// Region is outside valid bounds.
    OutOfBounds,
    /// Provider is read-only.
    ReadOnly,
    /// Invalid level of detail.
    InvalidLOD,
    /// IO error during save/load.
    IoError(String),
    /// Other error.
    Other(String),
}

impl ProviderError {
    /// Human-readable message of the error.
    pub fn message(&self) -> (r: String)
        ensures
            r@ == (match *self {
                ProviderError::OutOfBounds => "Region out of bounds"@,
                ProviderError::ReadOnly => "Provider is read-only"@,
                ProviderError::InvalidLOD => "Invalid LOD level"@,
                ProviderError::IoError(s) => "IO error: "@ + s@,
                ProviderError::Other(s) => "Error: "@ + s@,
            }),
    {
        match self {
            ProviderError::OutOfBounds => "Region out of bounds".to_string(),
            ProviderError::ReadOnly => "Provider is read-only".to_string(),
            ProviderError::InvalidLOD => "Invalid LOD level".to_string(),
            ProviderError::IoError(s) => {
                let mut m = "IO error: ".to_string();
                m.append(s.as_str());
                m
            },
            ProviderError::Other(s) => {
                let mut m = "Error: ".to_string();
                m.append(s.as_str());
                m
            },
        }
    }
}

/// A voxel: a block id, or a density with a material.
#[derive(Clone, Copy, Debug, PartialEq, Eq, Structural)]
pub enum VoxelValue {
    Block(BlockId),
    Density(Density, MaterialId),
}

/// Whether a voxel value is solid: a non-air block, or density at least 128.
pub open spec fn value_solid(v: VoxelValue) -> bool {
    match v {
        VoxelValue::Block(id) => id != AIR,
        VoxelValue::Density(d, _) => d >= 128,
    }
}

impl VoxelValue {
    /// Whether this voxel is solid.
    pub fn is_solid(&self) -> (r: bool)
        ensures
            r == value_solid(*self),
    {
        match self {
            VoxelValue::Block(id) => *id != AIR,
            VoxelValue::Density(d, _) => *d >= 128,
        }
    }
}

/// Brush shapes.
#[derive(Clone, Copy, Debug, PartialEq, Eq, Structural)]
pub enum BrushShape {
    Sphere,
    Cube,
    Cylinder,
}

/// Noise mode for asteroid generation.
#[derive(Clone, Copy, Debug, PartialEq, Eq, Structural)]
pub enum NoiseMode {
    Standard,
    Ridge,
    Billowy,
}

/// Latitude biome of a planet.
#[derive(Clone, Copy, Debug, PartialEq, Eq, Structural)]
pub enum BiomeType {
    Ice,
    Tundra,
    Temperate,
    Desert,
    Tropical,
    Ocean,
}

/// Surface material of a biome.
pub open spec fn biome_material(b: BiomeType) -> MaterialId {
    match b {
        BiomeType::Ice => MAT_WATER,
        BiomeType::Tundra => MAT_STONE,
        BiomeType::Temperate => MAT_GRASS,
        BiomeType::Desert => MAT_DIRT,
        BiomeType::Tropical => MAT_GRASS,
        BiomeType::Ocean => MAT_WATER,
    }
}

impl BiomeType {
    /// Surface material of this biome.
    pub fn surface_material(&self) -> (r: MaterialId)
        ensures
            r == biome_material(*self),
    {
        match self {
            BiomeType::Ice => MAT_WATER,
            BiomeType::Tundra => MAT_STONE,
            BiomeType::Temperate => MAT_GRASS,
            BiomeType::Desert => MAT_DIRT,
            BiomeType::Tropical => MAT_GRASS,
            BiomeType::Ocean => MAT_WATER,
        }
    }
}

// ---------------------------------------------------------------------------
// Dense voxel regions
// ---------------------------------------------------------------------------

/// `(x, y, z)` lies in the box `0..size`.
pub open spec fn in_region(size: IVec3, x: int, y: int, z: int) -> bool {
    0 <= x < size.x && 0 <= y < size.y && 0 <= z < size.z
}

/// Linear index of `(x, y, z)` in a region of `size` (x fastest).
pub open spec fn region_idx(size: IVec3, x: int, y: int, z: int) -> int {
    x + y * size.x + z * size.x * size.y
}

/// Number of voxels of a region of `size` (`size.x * size.y * size.z`).
pub open spec fn region_volume(size: IVec3) -> int {
    size.x * size.y * size.z
}

/// Every axis of `size` is positive.
pub open spec fn region_positive(size: IVec3) -> bool {
    size.x > 0 && size.y > 0 && size.z > 0
}

/// Indices of a region with positive axes fit in `i32`.
pub open spec fn size_ok(size: IVec3) -> bool {
    region_positive(size) ==> region_volume(size) <= i32::MAX
}

/// Region coordinates of linear index `j`.
pub open spec fn region_coords(size: IVec3, j: int) -> (int, int, int) {
    (j % (size.x as int), (j / (size.x as int)) % (size.y as int), j / (size.x * size.y))
}

/// World position `min + (x, y, z)`.
pub open spec fn offset(min: IVec3, c: (int, int, int)) -> IVec3 {
    IVec3 { x: (min.x + c.0) as i32, y: (min.y + c.1) as i32, z: (min.z + c.2) as i32 }
}

/// Indices of a positive region lie in `0..volume`.
pub proof fn lemma_region_idx_bounds(size: IVec3, x: int, y: int, z: int)
    requires
        in_region(size, x, y, z),
    ensures
        0 <= region_idx(size, x, y, z) < region_volume(size),
        0 <= y * size.x <= region_volume(size),
        0 <= z * size.x * size.y <= region_volume(size),
        0 <= size.x * size.y <= region_volume(size),
        0 <= z * (size.x * size.y) <= region_volume(size),
{
    let sx = size.x as int;
    let sy = size.y as int;
    let sz = size.z as int;
    assert(0 <= x + y * sx + z * sx * sy < sx * sy * sz && 0 <= y * sx <= sx * sy * sz && 0 <= z
        * sx * sy <= sx * sy * sz && 0 <= sx * sy <= sx * sy * sz && 0 <= z * (sx * sy) <= sx * sy
        * sz) by (nonlinear_arith)
        requires
            0 <= x < sx,
            0 <= y < sy,
            0 <= z < sz,
    ;
}

/// A linear index of a positive region decomposes into region coordinates.
pub proof fn lemma_region_coords(size: IVec3, j: int)
    requires
        region_positive(size),
        0 <= j < region_volume(size),
    ensures
        in_region(size, region_coords(size, j).0, region_coords(size, j).1, region_coords(size, j).2),
        region_idx(size, region_coords(size, j).0, region_coords(size, j).1, region_coords(size, j).2)
            == j,
{
    let sx = size.x as int;
    let sy = size.y as int;
    let sz = size.z as int;
    let x = j % sx;
    let q = j / sx;
    let y = q % sy;
    let z = q / sy;
    assert(j == q * sx + x && 0 <= x < sx) by {
        vstd::arithmetic::div_mod::lemma_fundamental_div_mod(j, sx);
        vstd::arithmetic::div_mod::lemma_mod_bound(j, sx);
    }
    assert(q == z * sy + y && 0 <= y < sy) by {
        vstd::arithmetic::div_mod::lemma_fundamental_div_mod(q, sy);
        vstd::arithmetic::div_mod::lemma_mod_bound(q, sy);
        vstd::arithmetic::div_mod::lemma_div_pos_is_pos(j, sx);
    }
    assert(j == x + y * sx + z * (sx * sy)) by (nonlinear_arith)
        requires
            j == q * sx + x,
            q == z * sy + y,
    ;
    assert(0 <= z < sz) by (nonlinear_arith)
        requires
            j == x + y * sx + z * (sx * sy),
            0 <= x < sx,
            0 <= y < sy,
            0 <= j < sx * sy * sz,
            sx > 0,
            sy > 0,
    ;
    assert(0 <= x + y * sx < sx * sy) by (nonlinear_arith)
        requires
            0 <= x < sx,
            0 <= y < sy,
    ;
    lemma_fundamental_div_mod_converse(j, sx * sy, z, x + y * sx);
    assert(z * sx * sy == z * (sx * sy)) by (nonlinear_arith);
}

/// Region coordinates are determined by their linear index.
pub proof fn lemma_region_idx_injective(size: IVec3, a: (int, int, int), b: (int, int, int))
    requires
        in_region(size, a.0, a.1, a.2),
        in_region(size, b.0, b.1, b.2),
        region_idx(size, a.0, a.1, a.2) == region_idx(size, b.0, b.1, b.2),
    ensures
        a == b,
{
    let sx = size.x as int;
    let sy = size.y as int;
    let j = region_idx(size, a.0, a.1, a.2);
    assert(j == (a.1 + a.2 * sy) * sx + a.0 && j == (b.1 + b.2 * sy) * sx + b.0) by (nonlinear_arith)
        requires
            j == a.0 + a.1 * sx + a.2 * sx * sy,
            j == b.0 + b.1 * sx + b.2 * sx * sy,
    ;
    lemma_fundamental_div_mod_converse(j, sx, a.1 + a.2 * sy, a.0);
    lemma_fundamental_div_mod_converse(j, sx, b.1 + b.2 * sy, b.0);
    lemma_fundamental_div_mod_converse(a.1 + a.2 * sy, sy, a.2, a.1);
    lemma_fundamental_div_mod_converse(b.1 + b.2 * sy, sy, b.2, b.1);
}

/// Dense box of voxel values.
#[derive(Clone, Debug)]
pub struct VoxelData {
    /// Dimensions in voxels.
    pub size: IVec3,
    /// Values in linear order (`size.x * size.y * size.z` of them).
    pub values: Vec<VoxelValue>,
}

impl VoxelData {
    /// Value at region coordinates `(x, y, z)`, if they are in the region and stored.
    pub open spec fn spec_get(&self, x: int, y: int, z: int) -> Option<VoxelValue> {
        if in_region(self.size, x, y, z) && region_idx(self.size, x, y, z) < self.values@.len() {
            Some(self.values@[region_idx(self.size, x, y, z)])
        } else {
            None
        }
    }

    /// A region of `size` filled with air blocks.
    pub fn new(size: IVec3) -> (r: Self)
        requires
            i32::MIN <= size.x * size.y <= i32::MAX,
            0 <= region_volume(size) <= i32::MAX,
        ensures
            r.size == size,
            r.values@ == Seq::new(region_volume(size) as nat, |i: int| VoxelValue::Block(AIR)),
            size_ok(r.size),
    {
        let volume = size.x * size.y * size.z;
        let values = vec![VoxelValue::Block(AIR); volume as usize];
        assert(values@ =~= Seq::new(region_volume(size) as nat, |i: int| VoxelValue::Block(AIR)));
        VoxelData { size, values }
    }

    /// Linear index of in-region coordinates.
    fn index_of(&self, x: i32, y: i32, z: i32) -> (r: usize)
        requires
            size_ok(self.size),
            in_region(self.size, x as int, y as int, z as int),
        ensures
            r as int == region_idx(self.size, x as int, y as int, z as int),
    {
        proof {
            lemma_region_idx_bounds(self.size, x as int, y as int, z as int);
            let a = z as int;
            let b = self.size.x as int;
            let c = self.size.y as int;
            assert(a * b * c == a * (b * c)) by (nonlinear_arith);
        }
        let sx = self.size.x as i64;
        let sy = self.size.y as i64;
        let plane = sx * sy;
        (x as i64 + y as i64 * sx + z as i64 * plane) as usize
    }

    /// Value at region coordinates `(x, y, z)`; `None` outside the region.
    pub fn get(&self, x: i32, y: i32, z: i32) -> (r: Option<VoxelValue>)
        requires
            size_ok(self.size),
        ensures
            r == self.spec_get(x as int, y as int, z as int),
    {
        if x < 0 || y < 0 || z < 0 || x >= self.size.x || y >= self.size.y || z >= self.size.z {
            return None;
        }
        let idx = self.index_of(x, y, z);
        if idx < self.values.len() {
            Some(self.values[idx])
        } else {
            None
        }
    }

    /// Writes `value` at region coordinates `(x, y, z)`; ignored outside the region.
    pub fn set(&mut self, x: i32, y: i32, z: i32, value: VoxelValue)
        requires
            size_ok(old(self).size),
        ensures
            final(self).size == old(self).size,
            final(self).values@ == (if old(self).spec_get(x as int, y as int, z as int) is Some {
                old(self).values@.update(
                    region_idx(old(self).size, x as int, y as int, z as int),
                    value,
                )
            } else {
                old(self).values@
            }),
    {
        if x < 0 || y < 0 || z < 0 || x >= self.size.x || y >= self.size.y || z >= self.size.z {
            return;
        }
        let idx = self.index_of(x, y, z);
        if idx < self.values.len() {
            self.values.set(idx, value);
        }
    }
}

// ---------------------------------------------------------------------------
// Provider interface
// ---------------------------------------------------------------------------

/// Size and values of a voxel region.
pub open spec fn data_view(d: VoxelData) -> (IVec3, Seq<VoxelValue>) {
    (d.size, d.values@)
}

/// `data_view` of a read result.
pub open spec fn read_view(r: Result<VoxelData, ProviderError>) -> Result<
    (IVec3, Seq<VoxelValue>),
    ProviderError,
> {
    match r {
        Ok(d) => Ok(data_view(d)),
        Err(e) => Err(e),
    }
}

/// Size `max - min + 1` of the inclusive box `[min, max]`.
pub open spec fn range_size(min: IVec3, max: IVec3) -> IVec3 {
    IVec3 {
        x: (max.x - min.x + 1) as i32,
        y: (max.y - min.y + 1) as i32,
        z: (max.z - min.z + 1) as i32,
    }
}

/// The box `[min, max]` has a size that a `VoxelData` can hold.
pub open spec fn range_ok(min: IVec3, max: IVec3) -> bool {
    let sx = max.x - min.x + 1;
    let sy = max.y - min.y + 1;
    let sz = max.z - min.z + 1;
    &&& i32::MIN <= sx <= i32::MAX
    &&& i32::MIN <= sy <= i32::MAX
    &&& i32::MIN <= sz <= i32::MAX
    &&& i32::MIN <= sx * sy <= i32::MAX
    &&& 0 <= sx * sy * sz <= i32::MAX
}

/// Source of voxel data over world coordinates.
pub trait VoxelProvider {
    /// Result of reading the inclusive box `[min, max]` at level of detail `lod`.
    spec fn spec_read_range(&self, min: IVec3, max: IVec3, lod: u32) -> Result<
        (IVec3, Seq<VoxelValue>),
        ProviderError,
    >;

    /// Inputs on which a read is defined.
    spec fn read_ok(&self, min: IVec3, max: IVec3, lod: u32) -> bool;

    /// Inputs on which a write is defined.
    spec fn write_ok(&self, pos: IVec3, value: VoxelValue) -> bool;

    /// Whether the provider accepts writes.
    spec fn spec_writable(&self) -> bool;

    /// Reads voxel data in the inclusive box `[min, max]`.
    fn read_range(&self, min: IVec3, max: IVec3, lod: u32) -> (r: Result<VoxelData, ProviderError>)
        requires
            self.read_ok(min, max, lod),
        ensures
            read_view(r) == self.spec_read_range(min, max, lod),
            r matches Ok(d) ==> size_ok(d.size),
    ;

    /// Writes one voxel.
    fn write_voxel(&mut self, pos: IVec3, value: VoxelValue) -> (r: Result<(), ProviderError>)
        requires
            old(self).write_ok(pos, value),
    ;

    /// Internal consistency that the provider's own constructors establish
    /// and its operations keep.
    spec fn provider_wf(&self) -> bool;

    /// Whether `write_voxel(pos, value)` may be called now (`write_ok`), so
    /// that a caller can test it before writing.
    fn can_write(&self, pos: IVec3, value: VoxelValue) -> (r: bool)
        requires
            self.provider_wf(),
        ensures
            r == self.write_ok(pos, value),
    ;

    /// Name of the provider, for debugging.
    fn provider_name(&self) -> &'static str;

    /// Whether the provider accepts writes.
    fn is_writable(&self) -> (r: bool)
        ensures
            r == self.spec_writable(),
    ;
}

// ---------------------------------------------------------------------------
// GridStoreProvider
// ---------------------------------------------------------------------------

/// Configuration of a grid store.
#[derive(Clone, Debug)]
pub struct GridStoreConfig {
    /// Enable palette compression.
    pub use_palette: bool,
    /// Palette size above which a chunk is compacted.
    pub max_palette_size: usize,
    /// Record chunks touched by writes.
    pub track_dirty: bool,
}

impl GridStoreConfig {
    /// Palette on, 256 palette entries, dirty tracking on.
    pub fn default() -> (r: Self)
        ensures
            r.use_palette && r.max_palette_size == 256 && r.track_dirty,
    {
        GridStoreConfig { use_palette: true, max_palette_size: 256, track_dirty: true }
    }
}

/// Block data of one chunk, with a palette and a version counter.
#[derive(Clone, Debug)]
pub struct ChunkData {
    /// One block per voxel, in linear local order.
    pub blocks: Vec<BlockId>,
    /// Palette of the chunk.
    pub palette: Vec<BlockId>,
    /// Version, raised on every modification.
    pub version: u32,
}

/// Contents of a `ChunkData`.
pub struct ChunkView {
    pub blocks: Seq<BlockId>,
    pub palette: Seq<BlockId>,
    pub version: u32,
}

impl View for ChunkData {
    type V = ChunkView;

    open spec fn view(&self) -> ChunkView {
        ChunkView { blocks: self.blocks@, palette: self.palette@, version: self.version }
    }
}

/// Contents of `ChunkData::new()`.
pub open spec fn empty_chunk_view() -> ChunkView {
    ChunkView { blocks: Seq::new(CHUNK_VOLUME as nat, |i: int| AIR), palette: seq![AIR], version: 0 }
}

/// Copies a vector of block ids.
fn copy_blocks(v: &Vec<BlockId>) -> (r: Vec<BlockId>)
    ensures
        r@ == v@,
{
    let mut r: Vec<BlockId> = Vec::with_capacity(v.len());
    let mut i: usize = 0;
    while i < v.len()
        invariant
            i <= v@.len(),
            r@ == v@.subrange(0, i as int),
        decreases v@.len() - i,
    {
        r.push(v[i]);
        i += 1;
        assert(r@ =~= v@.subrange(0, i as int));
    }
    assert(r@ =~= v@);
    r
}

impl ChunkData {
    /// An all-air chunk with palette `[AIR]` and version 0.
    pub fn new() -> (r: Self)
        ensures
            r@ == empty_chunk_view(),
    {
        let blocks = vec![AIR; CHUNK_VOLUME];
        let mut palette = Vec::new();
        palette.push(AIR);
        assert(blocks@ =~= Seq::new(CHUNK_VOLUME as nat, |i: int| AIR));
        assert(palette@ =~= seq![AIR]);
        ChunkData { blocks, palette, version: 0 }
    }

    /// A chunk filled with `block`, palette `[block]`, version 0.
    pub fn filled(block: BlockId) -> (r: Self)
        ensures
            r.blocks@ == Seq::new(CHUNK_VOLUME as nat, |i: int| block),
            r.palette@ == seq![block],
            r.version == 0,
    {
        let blocks = vec![block; CHUNK_VOLUME];
        let mut palette = Vec::new();
        palette.push(block);
        assert(blocks@ =~= Seq::new(CHUNK_VOLUME as nat, |i: int| block));
        assert(palette@ =~= seq![block]);
        ChunkData { blocks, palette, version: 0 }
    }

    /// A copy with the same blocks, palette and version.
    pub fn duplicate(&self) -> (r: Self)
        ensures
            r@ == self@,
    {
        ChunkData {
            blocks: copy_blocks(&self.blocks),
            palette: copy_blocks(&self.palette),
            version: self.version,
        }
    }
}

/// In-memory chunk storage over world voxel coordinates.
pub struct GridStoreProvider {
    chunks: VecMap<IVec3, ChunkData>,
    dirty_regions: VecMap<IVec3, ()>,
    config: GridStoreConfig,
}

/// Block stored at world voxel `p` in `chunks`: air where no chunk is stored.
pub open spec fn stored_block(chunks: Map<IVec3, ChunkView>, p: IVec3) -> BlockId {
    let c = spec_world_to_chunk(p);
    if chunks.contains_key(c) {
        chunks[c].blocks[spec_local_index(p)]
    } else {
        AIR
    }
}

/// Values of a grid-store read of `[min, max]` at full resolution.
pub open spec fn grid_read_values(chunks: Map<IVec3, ChunkView>, min: IVec3, max: IVec3) -> Seq<
    VoxelValue,
> {
    let size = range_size(min, max);
    Seq::new(
        region_volume(size) as nat,
        |j: int|
            if region_positive(size) {
                VoxelValue::Block(stored_block(chunks, offset(min, region_coords(size, j))))
            } else {
                VoxelValue::Block(AIR)
            },
    )
}

impl GridStoreProvider {
    /// Chunks stored, by chunk position.
    pub closed spec fn chunk_map(&self) -> Map<IVec3, ChunkView> {
        self.chunks@.map_values(|d: ChunkData| d@)
    }

    /// Chunk positions touched since the dirty set was last taken.
    pub closed spec fn dirty_set(&self) -> Set<IVec3> {
        self.dirty_regions@.dom()
    }

    /// Configuration of the store.
    pub closed spec fn spec_config(&self) -> GridStoreConfig {
        self.config
    }

    /// Internal consistency: every stored chunk holds one block per voxel.
    pub closed spec fn wf(&self) -> bool {
        &&& self.chunks.wf()
        &&& self.dirty_regions.wf()
        &&& forall|c: IVec3| #[trigger]
            self.chunks@.contains_key(c) ==> self.chunks@[c].blocks@.len() == CHUNK_VOLUME
    }

    /// Block at world voxel `p` (air where no chunk is stored).
    pub open spec fn block_at(&self, p: IVec3) -> BlockId {
        stored_block(self.chunk_map(), p)
    }

    /// An empty store.
    pub fn new(config: GridStoreConfig) -> (r: Self)
        ensures
            r.wf(),
            r.chunk_map() == Map::<IVec3, ChunkView>::empty(),
            r.dirty_set() == Set::<IVec3>::empty(),
            r.spec_config() == config,
    {
        let r = GridStoreProvider { chunks: VecMap::new(), dirty_regions: VecMap::new(), config };
        assert(r.dirty_set() =~= Set::<IVec3>::empty());
        assert(r.chunk_map() =~= Map::<IVec3, ChunkView>::empty());
        r
    }

    /// Stores `data` as the chunk at `chunk_pos`, marking it dirty when tracking.
    pub fn insert_chunk(&mut self, chunk_pos: IVec3, data: ChunkData)
        requires
            old(self).wf(),
            data.blocks@.len() == CHUNK_VOLUME,
        ensures
            final(self).wf(),
            final(self).chunk_map() == old(self).chunk_map().insert(chunk_pos, data@),
            final(self).dirty_set() == (if old(self).spec_config().track_dirty {
                old(self).dirty_set().insert(chunk_pos)
            } else {
                old(self).dirty_set()
            }),
            final(self).spec_config() == old(self).spec_config(),
    {
        let ghost dv = data@;
        self.chunks.insert(chunk_pos, data);
        assert(self.chunk_map() =~= old(self).chunk_map().insert(chunk_pos, dv));
        if self.config.track_dirty {
            self.dirty_regions.insert(chunk_pos, ());
            assert(self.dirty_set() =~= old(self).dirty_set().insert(chunk_pos));
        }
    }

    /// A copy of the chunk at `chunk_pos`, if stored.
    pub fn get_chunk(&self, chunk_pos: IVec3) -> (r: Option<ChunkData>)
        requires
            self.wf(),
        ensures
            r is None <==> !self.chunk_map().contains_key(chunk_pos),
            r matches Some(d) ==> d@ == self.chunk_map()[chunk_pos],
    {
        match self.chunks.get(&chunk_pos) {
            Some(d) => Some(d.duplicate()),
            None => None,
        }
    }

    /// Returns the dirty chunk positions (each once) and clears the dirty set.
    pub fn take_dirty_chunks(&mut self) -> (r: Vec<IVec3>)
        requires
            old(self).wf(),
        ensures
            final(self).wf(),
            r@.to_set() == old(self).dirty_set(),
            r@.no_duplicates(),
            final(self).dirty_set() == Set::<IVec3>::empty(),
            final(self).chunk_map() == old(self).chunk_map(),
            final(self).spec_config() == old(self).spec_config(),
    {
        let r = key_list(&self.dirty_regions);
        self.dirty_regions.clear();
        assert(self.dirty_set() =~= Set::<IVec3>::empty());
        r
    }

    /// Raises the version of every chunk whose palette is larger than the
    /// configured maximum.
    pub fn compact_palettes(&mut self)
        requires
            old(self).wf(),
            forall|c: IVec3| #[trigger]
                old(self).chunk_map().contains_key(c) ==> old(self).chunk_map()[c].version < u32::MAX,
        ensures
            final(self).wf(),
            final(self).chunk_map().dom() == old(self).chunk_map().dom(),
            forall|c: IVec3| #[trigger]
                final(self).chunk_map().contains_key(c) ==> {
                    let o = old(self).chunk_map()[c];
                    let n = final(self).chunk_map()[c];
                    &&& n.blocks == o.blocks
                    &&& n.palette == o.palette
                    &&& n.version == (if o.palette.len() > old(self).spec_config().max_palette_size {
                        o.version + 1
                    } else {
                        o.version as int
                    })
                },
            final(self).dirty_set() == old(self).dirty_set(),
            final(self).spec_config() == old(self).spec_config(),
    {
        let n = self.chunks.len();
        let ghost ks = self.chunks.key_seq();
        proof {
            self.chunks.lemma_view();
            assert forall|c: IVec3| #[trigger] old(self).chunks@.contains_key(c) implies old(
                self,
            ).chunks@[c]@.version < u32::MAX by {
                assert(old(self).chunk_map().contains_key(c));
            }
        }
        let mut i: usize = 0;
        while i < n
            invariant
                old(self).wf(),
                self.chunks.wf(),
                self.dirty_regions.wf(),
                self.dirty_regions@ == old(self).dirty_regions@,
                self.config == old(self).config,
                n == ks.len(),
                i <= n,
                self.chunks.key_seq() == ks,
                ks == old(self).chunks.key_seq(),
                self.chunks@.dom() == old(self).chunks@.dom(),
                forall|c: IVec3| #[trigger]
                    old(self).chunks@.contains_key(c) ==> old(self).chunks@[c]@.version < u32::MAX,
                forall|c: IVec3| #[trigger]
                    old(self).chunks@.contains_key(c) ==> old(self).chunks@[c].blocks@.len()
                        == CHUNK_VOLUME,
                forall|j: int|
                    0 <= j < n ==> {
                        let c = #[trigger] ks[j];
                        let o = old(self).chunks@[c];
                        let m = self.chunks@[c];
                        &&& m.blocks@ == o.blocks@
                        &&& m.palette@ == o.palette@
                        &&& m.version == (if j < i && o.palette@.len() > self.config.max_palette_size {
                            o.version + 1
                        } else {
                            o.version as int
                        })
                    },
            decreases n - i,
        {
            proof {
                self.chunks.lemma_view();
                old(self).chunks.lemma_view();
                assert(self.chunks.key_seq().contains(ks[i as int]));
                assert(self.chunks@.contains_key(ks[i as int]));
                assert(old(self).chunks@.contains_key(ks[i as int]));
            }
            let max = self.config.max_palette_size;
            let data = self.chunks.value_at_mut(i);
            if data.palette.len() > max {
                data.version = data.version + 1;
            }
            proof {
                self.chunks.lemma_view();
                assert forall|j: int| 0 <= j < n && j != i implies ks[j] != ks[i as int] by {}
            }
            i += 1;
        }
        proof {
            self.chunks.lemma_view();
            assert forall|c: IVec3| #[trigger] self.chunks@.contains_key(c) implies self.chunks@[c].blocks@.len()
                == CHUNK_VOLUME by {
                let j = choose|j: int| 0 <= j < ks.len() && ks[j] == c;
            }
            assert(self.chunk_map().dom() =~= old(self).chunk_map().dom());
            assert forall|c: IVec3| #[trigger] self.chunk_map().contains_key(c) implies {
                let o = old(self).chunk_map()[c];
                let m = self.chunk_map()[c];
                &&& m.blocks == o.blocks
                &&& m.palette == o.palette
                &&& m.version == (if o.palette.len() > old(self).spec_config().max_palette_size {
                    o.version + 1
                } else {
                    o.version as int
                })
            } by {
                let j = choose|j: int| 0 <= j < ks.len() && ks[j] == c;
            }
        }
    }

    /// Number of stored chunks.
    pub fn chunk_count(&self) -> (r: usize)
        requires
            self.wf(),
        ensures
            r == self.chunk_map().dom().len(),
    {
        assert(self.chunk_map().dom() =~= self.chunks@.dom());
        self.chunks.len()
    }

    /// Block at world voxel `p` (air where no chunk is stored).
    fn lookup(&self, p: IVec3) -> (r: BlockId)
        requires
            self.wf(),
        ensures
            r == self.block_at(p),
    {
        let (c, local) = split_world_pos(p);
        match self.chunks.get(&c) {
            Some(d) => d.blocks[local],
            None => AIR,
        }
    }
}

/// The keys of a map, in storage order.
pub fn key_list<V>(m: &VecMap<IVec3, V>) -> (r: Vec<IVec3>)
    requires
        m.wf(),
    ensures
        r@ == m.key_seq(),
        r@.to_set() == m@.dom(),
        r@.no_duplicates(),
{
    proof {
        m.lemma_view();
    }
    let mut r: Vec<IVec3> = Vec::new();
    let n = m.len();
    let mut i: usize = 0;
    while i < n
        invariant
            m.wf(),
            n == m.key_seq().len(),
            i <= n,
            r@ == m.key_seq().subrange(0, i as int),
        decreases n - i,
    {
        r.push(m.key_at(i));
        i += 1;
        assert(r@ =~= m.key_seq().subrange(0, i as int));
    }
    assert(r@ =~= m.key_seq());
    assert(r@.to_set() =~= m@.dom());
    r
}

/// Size of the box `[min, max]`.
fn box_size(min: IVec3, max: IVec3) -> (r: IVec3)
    requires
        range_ok(min, max),
    ensures
        r == range_size(min, max),
{
    IVec3 {
        x: (max.x as i64 - min.x as i64 + 1) as i32,
        y: (max.y as i64 - min.y as i64 + 1) as i32,
        z: (max.z as i64 - min.z as i64 + 1) as i32,
    }
}

impl VoxelProvider for GridStoreProvider {
    open spec fn spec_read_range(&self, min: IVec3, max: IVec3, lod: u32) -> Result<
        (IVec3, Seq<VoxelValue>),
        ProviderError,
    > {
        if lod > 0 {
            Err(ProviderError::InvalidLOD)
        } else {
            Ok((range_size(min, max), grid_read_values(self.chunk_map(), min, max)))
        }
    }

    open spec fn read_ok(&self, min: IVec3, max: IVec3, lod: u32) -> bool {
        self.wf() && (lod == 0 ==> range_ok(min, max))
    }

    open spec fn write_ok(&self, pos: IVec3, value: VoxelValue) -> bool {
        &&& self.wf()
        &&& (value is Block && self.chunk_map().contains_key(spec_world_to_chunk(pos)))
            ==> self.chunk_map()[spec_world_to_chunk(pos)].version < u32::MAX
    }

    open spec fn spec_writable(&self) -> bool {
        true
    }

    open spec fn provider_wf(&self) -> bool {
        self.wf()
    }

    /// A block write into a stored chunk needs room in the chunk's version
    /// counter; every other write may be made.
    fn can_write(&self, pos: IVec3, value: VoxelValue) -> (r: bool) {
        match value {
            VoxelValue::Block(_) => {
                let (chunk_pos, _) = split_world_pos(pos);
                match self.chunks.get(&chunk_pos) {
                    Some(d) => d.version < u32::MAX,
                    None => true,
                }
            },
            VoxelValue::Density(_, _) => true,
        }
    }

    /// Reads the box `[min, max]` at full resolution (`lod` 0); other levels are refused.
    fn read_range(&self, min: IVec3, max: IVec3, lod: u32) -> (r: Result<VoxelData, ProviderError>) {
        if lod > 0 {
            return Err(ProviderError::InvalidLOD);
        }
        let size = box_size(min, max);
        let volume = (size.x * size.y * size.z) as usize;
        let positive = size.x > 0 && size.y > 0 && size.z > 0;
        let ghost target = grid_read_values(self.chunk_map(), min, max);
        let mut values: Vec<VoxelValue> = Vec::with_capacity(volume);
        let mut j: usize = 0;
        while j < volume
            invariant
                self.wf(),
                range_ok(min, max),
                size == range_size(min, max),
                volume as int == region_volume(size),
                positive == region_positive(size),
                target == grid_read_values(self.chunk_map(), min, max),
                j <= volume,
                values@ == target.subrange(0, j as int),
            decreases volume - j,
        {
            let v = if positive {
                let sx = size.x as usize;
                let sy = size.y as usize;
                proof {
                    lemma_region_coords(size, j as int);
                    assert(sx * sy <= volume) by (nonlinear_arith)
                        requires
                            sx * sy * (size.z as int) == volume as int,
                            size.z > 0,
                            sx > 0,
                            sy > 0,
                    ;
                }
                let x = (j % sx) as i32;
                let y = ((j / sx) % sy) as i32;
                let z = (j / (sx * sy)) as i32;
                proof {
                    let c = region_coords(size, j as int);
                    assert(c == (x as int, y as int, z as int));
                }
                let p = IVec3 { x: min.x + x, y: min.y + y, z: min.z + z };
                VoxelValue::Block(self.lookup(p))
            } else {
                VoxelValue::Block(AIR)
            };
            values.push(v);
            j += 1;
            assert(values@ =~= target.subrange(0, j as int));
        }
        assert(values@ =~= target);
        assert(size_ok(size));
        Ok(VoxelData { size, values })
    }

    /// Writes a block at world voxel `pos`; density values are refused.
    fn write_voxel(&mut self, pos: IVec3, value: VoxelValue) -> (r: Result<(), ProviderError>)
        ensures
            value is Density ==> (final(self).chunk_map() == old(self).chunk_map()
                && final(self).dirty_set() == old(self).dirty_set() && (r matches Err(
                ProviderError::Other(s),
            ) && s@ == "GridStore only supports blocks"@)),
            value matches VoxelValue::Block(b) ==> r is Ok && final(self).chunk_map()
                == old(self).chunk_map().insert(
                spec_world_to_chunk(pos),
                written_chunk(old(self).chunk_map(), pos, b),
            ) && final(self).dirty_set() == (if old(self).spec_config().track_dirty {
                old(self).dirty_set().insert(spec_world_to_chunk(pos))
            } else {
                old(self).dirty_set()
            }),
            final(self).wf(),
            final(self).spec_config() == old(self).spec_config(),
    {
        let (chunk_pos, idx) = split_world_pos(pos);
        if idx >= CHUNK_VOLUME {
            return Err(ProviderError::OutOfBounds);
        }
        let block = match value {
            VoxelValue::Block(b) => b,
            VoxelValue::Density(_, _) => {
                return Err(ProviderError::Other("GridStore only supports blocks".to_string()));
            },
        };
        let ghost old_map = self.chunks@;
        match self.chunks.find(&chunk_pos) {
            Some(i) => {
                let data = self.chunks.value_at_mut(i);
                data.blocks.set(idx, block);
                data.version = data.version + 1;
            },
            None => {
                let mut data = ChunkData::new();
                data.blocks.set(idx, block);
                data.version = data.version + 1;
                self.chunks.insert(chunk_pos, data);
            },
        }
        proof {
            assert(self.chunk_map() =~= old(self).chunk_map().insert(
                chunk_pos,
                written_chunk(old(self).chunk_map(), pos, block),
            ));
        }
        if self.config.track_dirty {
            self.dirty_regions.insert(chunk_pos, ());
            assert(self.dirty_set() =~= old(self).dirty_set().insert(chunk_pos));
        }
        Ok(())
    }

    fn provider_name(&self) -> (r: &'static str)
        ensures
            r@ == "GridStoreProvider"@,
    {
        "GridStoreProvider"
    }

    fn is_writable(&self) -> (r: bool) {
        true
    }
}

/// Chunk at `spec_world_to_chunk(pos)` after writing block `b` at `pos`: the
/// stored chunk (or a new all-air one) with that voxel set and version raised.
pub open spec fn written_chunk(chunks: Map<IVec3, ChunkView>, pos: IVec3, b: BlockId) -> ChunkView {
    let c = spec_world_to_chunk(pos);
    let base = if chunks.contains_key(c) {
        chunks[c]
    } else {
        empty_chunk_view()
    };
    ChunkView {
        blocks: base.blocks.update(spec_local_index(pos), b),
        palette: base.palette,
        version: (base.version + 1) as u32,
    }
}


/// Index, in a read of the box `[min, max]`, of the world voxel `p` of the box.
pub open spec fn box_index(min: IVec3, max: IVec3, p: IVec3) -> int {
    region_idx(range_size(min, max), p.x - min.x, p.y - min.y, p.z - min.z)
}

/// `p` lies in the inclusive box `[min, max]`.
pub open spec fn in_box(min: IVec3, max: IVec3, p: IVec3) -> bool {
    min.x <= p.x <= max.x && min.y <= p.y <= max.y && min.z <= p.z <= max.z
}

/// The index of a voxel of the box is a valid index of a read of the box, and
/// its region coordinates lead back to the voxel.
pub proof fn lemma_box_index(min: IVec3, max: IVec3, p: IVec3)
    requires
        range_ok(min, max),
        in_box(min, max, p),
    ensures
        region_positive(range_size(min, max)),
        0 <= box_index(min, max, p) < region_volume(range_size(min, max)),
        region_coords(range_size(min, max), box_index(min, max, p)) == (
            p.x - min.x,
            p.y - min.y,
            p.z - min.z,
        ),
        offset(min, region_coords(range_size(min, max), box_index(min, max, p))) == p,
{
    let size = range_size(min, max);
    let d = (p.x - min.x, p.y - min.y, p.z - min.z);
    let j = box_index(min, max, p);
    lemma_region_idx_bounds(size, d.0, d.1, d.2);
    lemma_region_coords(size, j);
    lemma_region_idx_injective(size, region_coords(size, j), d);
}

/// A grid-store read of `[min, max]` holds, at the index of each voxel of the
/// box, the block stored there.
pub proof fn lemma_grid_read_at(chunks: Map<IVec3, ChunkView>, min: IVec3, max: IVec3, p: IVec3)
    requires
        range_ok(min, max),
        in_box(min, max, p),
    ensures
        0 <= box_index(min, max, p) < grid_read_values(chunks, min, max).len(),
        grid_read_values(chunks, min, max)[box_index(min, max, p)] == VoxelValue::Block(
            stored_block(chunks, p),
        ),
{
    lemma_box_index(min, max, p);
}

/// Writing block `b` at `pos` makes `b` the block at `pos` and leaves every
/// other voxel as it was.
pub proof fn lemma_write_then_block_at(
    chunks: Map<IVec3, ChunkView>,
    pos: IVec3,
    b: BlockId,
    q: IVec3,
)
    requires
        forall|c: IVec3| #[trigger] chunks.contains_key(c) ==> chunks[c].blocks.len() == CHUNK_VOLUME,
    ensures
        stored_block(
            chunks.insert(spec_world_to_chunk(pos), written_chunk(chunks, pos, b)),
            q,
        ) == (if q == pos {
            b
        } else {
            stored_block(chunks, q)
        }),
{
    crate::coords::lemma_local_index_range(pos);
    if q != pos && spec_world_to_chunk(q) == spec_world_to_chunk(pos) {
        if spec_local_index(q) == spec_local_index(pos) {
            crate::coords::lemma_split_injective(q, pos);
        }
    }
}


/// A value written into a region with `VoxelData::set` reads back with
/// `get`; every other voxel of the region keeps its value.
pub proof fn lemma_region_set_then_get(
    before: VoxelData,
    after: VoxelData,
    x: int,
    y: int,
    z: int,
    v: VoxelValue,
    a: int,
    b: int,
    c: int,
)
    requires
        before.spec_get(x, y, z) is Some,
        after.size == before.size,
        after.values@ == before.values@.update(region_idx(before.size, x, y, z), v),
    ensures
        after.spec_get(x, y, z) == Some(v),
        (a, b, c) != (x, y, z) ==> after.spec_get(a, b, c) == before.spec_get(a, b, c),
{
    if (a, b, c) != (x, y, z) && in_region(before.size, a, b, c) {
        if region_idx(before.size, a, b, c) == region_idx(before.size, x, y, z) {
            lemma_region_idx_injective(before.size, (a, b, c), (x, y, z));
        }
    }
}
} // verus!
