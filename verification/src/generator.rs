//! Terrain block placement: given the surface height of each column of a
//! chunk, fills the chunk with stone, dirt, grass and air.
use vstd::prelude::*;
use crate::chunk::{BlockId, Chunk, Voxel, AIR, DIRT, GRASS, STONE};
use crate::coords::{idx_x, idx_y, idx_z, lemma_idx_compose, IVec3, CHUNK_VOLUME};

verus! {

/// Block at height `world_y` of a column whose surface is at `height`: stone
/// more than 4 blocks below the surface, dirt 2 to 4 below, grass just below,
/// air at and above the surface.
pub open spec fn column_block(height: int, world_y: int) -> BlockId {
    if world_y < height {
        let depth = height - world_y;
        if depth > 4 {
            STONE
        } else if depth > 1 {
            DIRT
        } else {
            GRASS
        }
    } else {
        AIR
    }
}

/// Index of column `(x, z)` in a chunk's height list (x fastest).
pub open spec fn column_index(x: int, z: int) -> int {
    x + 32 * z
}

/// The chunk lies entirely below the surface at its four corner columns and
/// its centre column.
pub open spec fn fully_underground(position: IVec3, heights: Seq<i32>) -> bool {
    let top = 32 * position.y + 32;
    &&& top <= heights[column_index(0, 0)]
    &&& top <= heights[column_index(31, 0)]
    &&& top <= heights[column_index(0, 31)]
    &&& top <= heights[column_index(31, 31)]
    &&& top <= heights[column_index(16, 16)]
}

/// Block at linear index `i` of the chunk at `position` generated from the
/// column heights `heights`: all stone when the chunk is fully underground,
/// else the column rule.
pub open spec fn generated_voxel(position: IVec3, heights: Seq<i32>, i: int) -> BlockId {
    if fully_underground(position, heights) {
        STONE
    } else {
        column_block(
            heights[column_index(idx_x(i), idx_z(i))] as int,
            32 * position.y + idx_y(i),
        )
    }
}

/// Exec form of `column_block`.
fn block_for(height: i32, world_y: i32) -> (r: BlockId)
    ensures
        r == column_block(height as int, world_y as int),
{
    if world_y < height {
        let depth = height as i64 - world_y as i64;
        if depth > 4 {
            STONE
        } else if depth > 1 {
            DIRT
        } else {
            GRASS
        }
    } else {
        AIR
    }
}

/// Whether the chunk at `position` lies below the surface at its four corner
/// columns and its centre column (`heights` as for `generate_chunk_from_heights`).
pub fn is_fully_underground(position: IVec3, heights: &Vec<i32>) -> (r: bool)
    requires
        heights@.len() == 1024,
        i32::MIN <= 32 * position.y,
        32 * position.y + 32 <= i32::MAX,
    ensures
        r == fully_underground(position, heights@),
{
    let top = position.y * 32 + 32;
    top <= heights[0] && top <= heights[31] && top <= heights[31 * 32] && top <= heights[31 + 31 * 32]
        && top <= heights[16 + 16 * 32]
}

/// The chunk at `position` generated from `heights`, the surface height of
/// each of its 32×32 columns (index `x + 32 * z`).
pub fn generate_chunk_from_heights(position: IVec3, heights: &Vec<i32>) -> (r: Chunk)
    requires
        heights@.len() == 1024,
        i32::MIN <= 32 * position.y,
        32 * position.y + 32 <= i32::MAX,
    ensures
        r.wf(),
        r.spec_position() == position,
        forall|i: int| 0 <= i < CHUNK_VOLUME ==> #[trigger] r@[i] == generated_voxel(position, heights@, i),
{
    let y_start = position.y * 32;
    let underground = is_fully_underground(position, heights);
    let mut voxels: Vec<Voxel> = Vec::with_capacity(CHUNK_VOLUME);
    let mut i: usize = 0;
    while i < CHUNK_VOLUME
        invariant
            heights@.len() == 1024,
            y_start == 32 * position.y,
            32 * position.y + 32 <= i32::MAX,
            underground == fully_underground(position, heights@),
            i <= CHUNK_VOLUME,
            voxels@.len() == i,
            forall|j: int| 0 <= j < i ==> #[trigger] voxels@[j] == generated_voxel(position, heights@, j),
        decreases CHUNK_VOLUME - i,
    {
        let v = if underground {
            STONE
        } else {
            let x = i % 32;
            let y = (i / 32) % 32;
            let z = i / 1024;
            proof {
                lemma_idx_compose(i as int);
            }
            block_for(heights[x + 32 * z], y_start + y as i32)
        };
        voxels.push(v);
        i += 1;
    }
    Chunk::from_voxels(voxels, position)
}

/// Generation takes the all-stone shortcut exactly when the chunk's top
/// (`32 * y + 32`) is at or below the surface of each of the columns (0, 0),
/// (31, 0), (0, 31), (31, 31) and (16, 16); when any of them is lower, every
/// voxel follows the column rule for its own column's height.
pub proof fn lemma_generated_voxel_rule(position: IVec3, heights: Seq<i32>, i: int)
    requires
        heights.len() == 1024,
        0 <= i < CHUNK_VOLUME,
    ensures
        ({
            let top = 32 * position.y + 32;
            let sampled_below = heights[0] < top || heights[31] < top || heights[992] < top
                || heights[1023] < top || heights[528] < top;
            &&& !sampled_below ==> generated_voxel(position, heights, i) == STONE
            &&& sampled_below ==> generated_voxel(position, heights, i) == column_block(
                heights[idx_x(i) + 32 * idx_z(i)] as int,
                32 * position.y + idx_y(i),
            )
        }),
{
}

/// Biome kinds.
#[derive(Clone, Copy, Debug, PartialEq, Eq, Structural)]
pub enum Biome {
    Plains,
    Forest,
    Mountains,
    Desert,
    Ocean,
}

impl Biome {
    /// Surface block: grass for plains and forest, stone for mountains, dirt otherwise.
    pub fn surface_block(&self) -> (r: BlockId)
        ensures
            r == (match *self {
                Biome::Plains | Biome::Forest => GRASS,
                Biome::Mountains => STONE,
                Biome::Desert | Biome::Ocean => DIRT,
            }),
    {
        match self {
            Biome::Plains | Biome::Forest => GRASS,
            Biome::Mountains => STONE,
            Biome::Desert => DIRT,
            Biome::Ocean => DIRT,
        }
    }
}

} // verus!
