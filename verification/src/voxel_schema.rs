//! Per-chunk voxel schemas: discrete blocks (`BlockSchema`) and 8-bit density
//! plus material (`DensitySchema`).
use vstd::prelude::*;
use crate::chunk::{BlockId, AIR, STONE, DIRT, GRASS, WOOD, WATER};
use crate::coords::{spec_idx, in_chunk, lemma_idx_decompose, IVec3, CHUNK_VOLUME};

verus! {

/// Material identifier.
pub type MaterialId = u8;

/// Density value: 0 is empty, 255 fully solid.
pub type Density = u8;

pub const MAT_AIR: MaterialId = 0;
pub const MAT_STONE: MaterialId = 1;
pub const MAT_DIRT: MaterialId = 2;
pub const MAT_GRASS: MaterialId = 3;
pub const MAT_WOOD: MaterialId = 4;
pub const MAT_WATER: MaterialId = 5;

/// Material of a block id: air, stone, dirt, grass, wood and water map to
/// their material, every other block to stone.
pub open spec fn block_material(b: BlockId) -> MaterialId {
    if b == AIR {
        MAT_AIR
    } else if b == STONE {
        MAT_STONE
    } else if b == DIRT {
        MAT_DIRT
    } else if b == GRASS {
        MAT_GRASS
    } else if b == WOOD {
        MAT_WOOD
    } else if b == WATER {
        MAT_WATER
    } else {
        MAT_STONE
    }
}

/// Local coordinates of world voxel `pos` relative to chunk `chunk_pos`
/// (`pos - 32 * chunk_pos`), when they fall inside the chunk.
pub open spec fn spec_world_to_local(chunk_pos: IVec3, pos: IVec3) -> Option<(int, int, int)> {
    let lx = pos.x - 32 * chunk_pos.x;
    let ly = pos.y - 32 * chunk_pos.y;
    let lz = pos.z - 32 * chunk_pos.z;
    if in_chunk(lx, ly, lz) {
        Some((lx, ly, lz))
    } else {
        None
    }
}

/// Exec form of `spec_world_to_local`.
fn world_to_local(chunk_pos: IVec3, pos: IVec3) -> (r: Option<(usize, usize, usize)>)
    ensures
        r is None <==> spec_world_to_local(chunk_pos, pos) is None,
        r matches Some(t) ==> spec_world_to_local(chunk_pos, pos) == Some(
            (t.0 as int, t.1 as int, t.2 as int),
        ),
{
    let lx = pos.x as i64 - 32 * chunk_pos.x as i64;
    let ly = pos.y as i64 - 32 * chunk_pos.y as i64;
    let lz = pos.z as i64 - 32 * chunk_pos.z as i64;
    if lx >= 0 && lx < 32 && ly >= 0 && ly < 32 && lz >= 0 && lz < 32 {
        Some((lx as usize, ly as usize, lz as usize))
    } else {
        None
    }
}

/// Block-based chunk schema: one block id per voxel.
#[derive(Clone, Debug)]
pub struct BlockSchema {
    blocks: Vec<BlockId>,
    chunk_pos: IVec3,
}

impl BlockSchema {
    /// Block ids in linear local order.
    pub closed spec fn blocks(&self) -> Seq<BlockId> {
        self.blocks@
    }

    /// Chunk position of the schema.
    pub closed spec fn spec_chunk_pos(&self) -> IVec3 {
        self.chunk_pos
    }

    /// The schema holds one block per voxel of a chunk.
    pub open spec fn wf(&self) -> bool {
        self.blocks().len() == CHUNK_VOLUME
    }

    /// Block at world position `pos`, air outside the chunk.
    pub open spec fn block_at(&self, pos: IVec3) -> BlockId {
        match spec_world_to_local(self.spec_chunk_pos(), pos) {
            Some(l) => self.blocks()[spec_idx(l.0, l.1, l.2)],
            None => AIR,
        }
    }

    /// An all-air schema at `chunk_pos`.
    pub fn new(chunk_pos: IVec3) -> (r: Self)
        ensures
            r.wf(),
            r.blocks() == Seq::new(CHUNK_VOLUME as nat, |i: int| AIR),
            r.spec_chunk_pos() == chunk_pos,
    {
        let blocks = vec![AIR; CHUNK_VOLUME];
        assert(blocks@ =~= Seq::new(CHUNK_VOLUME as nat, |i: int| AIR));
        BlockSchema { blocks, chunk_pos }
    }

    /// A schema from existing block data (one block per voxel).
    pub fn from_blocks(chunk_pos: IVec3, blocks: Vec<BlockId>) -> (r: Self)
        requires
            blocks.len() == CHUNK_VOLUME,
        ensures
            r.wf(),
            r.blocks() == blocks@,
            r.spec_chunk_pos() == chunk_pos,
    {
        BlockSchema { blocks, chunk_pos }
    }

    /// Sets the block at local `(x, y, z)`.
    pub fn set_local(&mut self, x: usize, y: usize, z: usize, block: BlockId)
        requires
            old(self).wf(),
            spec_idx(x as int, y as int, z as int) < CHUNK_VOLUME,
        ensures
            final(self).wf(),
            final(self).blocks() == old(self).blocks().update(spec_idx(x as int, y as int, z as int), block),
            final(self).spec_chunk_pos() == old(self).spec_chunk_pos(),
    {
        let idx = x + y * 32 + z * 1024;
        self.blocks.set(idx, block);
    }

    /// Block at local `(x, y, z)`.
    pub fn get_local(&self, x: usize, y: usize, z: usize) -> (r: BlockId)
        requires
            self.wf(),
            spec_idx(x as int, y as int, z as int) < CHUNK_VOLUME,
        ensures
            r == self.blocks()[spec_idx(x as int, y as int, z as int)],
    {
        self.blocks[x + y * 32 + z * 1024]
    }

    /// Whether the voxel at world position `pos` is solid (outside the chunk: not solid).
    pub fn is_solid(&self, pos: IVec3) -> (r: bool)
        requires
            self.wf(),
        ensures
            r == (self.block_at(pos) != AIR),
    {
        match world_to_local(self.chunk_pos, pos) {
            Some((x, y, z)) => {
                proof {
                    lemma_idx_decompose(x as int, y as int, z as int);
                }
                self.get_local(x, y, z) != AIR
            },
            None => false,
        }
    }

    /// Material at world position `pos` (`block_material`, air outside the chunk).
    pub fn material_at(&self, pos: IVec3) -> (r: MaterialId)
        requires
            self.wf(),
        ensures
            r == block_material(self.block_at(pos)),
    {
        match world_to_local(self.chunk_pos, pos) {
            Some((x, y, z)) => {
                proof {
                    lemma_idx_decompose(x as int, y as int, z as int);
                }
                let block = self.get_local(x, y, z);
                if block == AIR {
                    MAT_AIR
                } else if block == STONE {
                    MAT_STONE
                } else if block == DIRT {
                    MAT_DIRT
                } else if block == GRASS {
                    MAT_GRASS
                } else if block == WOOD {
                    MAT_WOOD
                } else if block == WATER {
                    MAT_WATER
                } else {
                    MAT_STONE
                }
            },
            None => MAT_AIR,
        }
    }

    /// Surface sign at `pos` as an integer: `1` inside solid, `-1` elsewhere.
    pub fn surface_sign(&self, pos: IVec3) -> (r: i8)
        requires
            self.wf(),
        ensures
            r == (if self.block_at(pos) != AIR { 1i8 } else { -1i8 }),
    {
        if self.is_solid(pos) {
            1
        } else {
            -1
        }
    }

    /// Name of the schema kind.
    pub fn schema_name(&self) -> (r: &'static str)
        ensures
            r@ == "BlockSchema"@,
    {
        "BlockSchema"
    }
}

/// Density-based chunk schema: a density and a material per voxel.
#[derive(Clone, Debug)]
pub struct DensitySchema {
    data: Vec<u8>,
    chunk_pos: IVec3,
    solid_threshold: Density,
}

impl DensitySchema {
    /// Interleaved `(density, material)` bytes in linear local order.
    pub closed spec fn data(&self) -> Seq<u8> {
        self.data@
    }

    /// Chunk position of the schema.
    pub closed spec fn spec_chunk_pos(&self) -> IVec3 {
        self.chunk_pos
    }

    /// Density from which a voxel counts as solid.
    pub closed spec fn threshold(&self) -> Density {
        self.solid_threshold
    }

    /// The schema holds two bytes per voxel of a chunk.
    pub open spec fn wf(&self) -> bool {
        self.data().len() == 2 * CHUNK_VOLUME
    }

    /// Density at local linear index `i`.
    pub open spec fn density_at_index(&self, i: int) -> Density {
        self.data()[2 * i]
    }

    /// Material at local linear index `i`.
    pub open spec fn material_at_index(&self, i: int) -> MaterialId {
        self.data()[2 * i + 1]
    }

    /// Density at world position `pos`, 0 outside the chunk.
    pub open spec fn density_world(&self, pos: IVec3) -> Density {
        match spec_world_to_local(self.spec_chunk_pos(), pos) {
            Some(l) => self.density_at_index(spec_idx(l.0, l.1, l.2)),
            None => 0,
        }
    }

    /// Material at world position `pos`, air outside the chunk.
    pub open spec fn material_world(&self, pos: IVec3) -> MaterialId {
        match spec_world_to_local(self.spec_chunk_pos(), pos) {
            Some(l) => self.material_at_index(spec_idx(l.0, l.1, l.2)),
            None => MAT_AIR,
        }
    }

    /// An empty schema (density 0, material air) with solid threshold 128.
    pub fn new(chunk_pos: IVec3) -> (r: Self)
        ensures
            r.wf(),
            r.data() == Seq::new(2 * CHUNK_VOLUME as nat, |i: int| 0u8),
            r.spec_chunk_pos() == chunk_pos,
            r.threshold() == 128,
    {
        let data = vec![0u8; 2 * CHUNK_VOLUME];
        assert(data@ =~= Seq::new(2 * CHUNK_VOLUME as nat, |i: int| 0u8));
        DensitySchema { data, chunk_pos, solid_threshold: 128 }
    }

    /// Sets density and material at local `(x, y, z)`.
    pub fn set_local(&mut self, x: usize, y: usize, z: usize, density: Density, material: MaterialId)
        requires
            old(self).wf(),
            spec_idx(x as int, y as int, z as int) < CHUNK_VOLUME,
        ensures
            final(self).wf(),
            final(self).data() == old(self).data().update(
                2 * spec_idx(x as int, y as int, z as int),
                density,
            ).update(2 * spec_idx(x as int, y as int, z as int) + 1, material),
            final(self).spec_chunk_pos() == old(self).spec_chunk_pos(),
            final(self).threshold() == old(self).threshold(),
    {
        let idx = (x + y * 32 + z * 1024) * 2;
        self.data.set(idx, density);
        self.data.set(idx + 1, material);
    }

    /// Density at local `(x, y, z)`.
    pub fn get_density_local(&self, x: usize, y: usize, z: usize) -> (r: Density)
        requires
            self.wf(),
            spec_idx(x as int, y as int, z as int) < CHUNK_VOLUME,
        ensures
            r == self.density_at_index(spec_idx(x as int, y as int, z as int)),
    {
        self.data[(x + y * 32 + z * 1024) * 2]
    }

    /// Material at local `(x, y, z)`.
    pub fn get_material_local(&self, x: usize, y: usize, z: usize) -> (r: MaterialId)
        requires
            self.wf(),
            spec_idx(x as int, y as int, z as int) < CHUNK_VOLUME,
        ensures
            r == self.material_at_index(spec_idx(x as int, y as int, z as int)),
    {
        self.data[(x + y * 32 + z * 1024) * 2 + 1]
    }

    /// Sets the density from which voxels count as solid.
    pub fn set_solid_threshold(&mut self, threshold: Density)
        ensures
            final(self).data() == old(self).data(),
            final(self).spec_chunk_pos() == old(self).spec_chunk_pos(),
            final(self).threshold() == threshold,
    {
        self.solid_threshold = threshold;
    }

    /// Chunk position of the schema.
    pub fn chunk_position(&self) -> (r: IVec3)
        ensures
            r == self.spec_chunk_pos(),
    {
        self.chunk_pos
    }

    /// Density at world position `pos` (0 outside the chunk).
    pub fn get_density_world(&self, pos: IVec3) -> (r: Density)
        requires
            self.wf(),
        ensures
            r == self.density_world(pos),
    {
        match world_to_local(self.chunk_pos, pos) {
            Some((x, y, z)) => {
                proof {
                    lemma_idx_decompose(x as int, y as int, z as int);
                }
                self.get_density_local(x, y, z)
            },
            None => 0,
        }
    }

    /// Material at world position `pos` (air outside the chunk).
    pub fn get_material_world(&self, pos: IVec3) -> (r: MaterialId)
        requires
            self.wf(),
        ensures
            r == self.material_world(pos),
    {
        match world_to_local(self.chunk_pos, pos) {
            Some((x, y, z)) => {
                proof {
                    lemma_idx_decompose(x as int, y as int, z as int);
                }
                self.get_material_local(x, y, z)
            },
            None => MAT_AIR,
        }
    }

    /// Whether the voxel at `pos` is solid: inside the chunk and at least the threshold.
    pub fn is_solid(&self, pos: IVec3) -> (r: bool)
        requires
            self.wf(),
        ensures
            r == (spec_world_to_local(self.spec_chunk_pos(), pos) is Some && self.density_world(pos)
                >= self.threshold()),
    {
        match world_to_local(self.chunk_pos, pos) {
            Some((x, y, z)) => {
                proof {
                    lemma_idx_decompose(x as int, y as int, z as int);
                }
                self.get_density_local(x, y, z) >= self.solid_threshold
            },
            None => false,
        }
    }

    /// Material at world position `pos` (air outside the chunk).
    pub fn material_at(&self, pos: IVec3) -> (r: MaterialId)
        requires
            self.wf(),
        ensures
            r == self.material_world(pos),
    {
        self.get_material_world(pos)
    }

    /// Name of the schema kind.
    pub fn schema_name(&self) -> (r: &'static str)
        ensures
            r@ == "DensitySchema"@,
    {
        "DensitySchema"
    }
}

} // verus!
