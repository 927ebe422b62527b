//! Texture atlas: which tile of a 16×16 tile grid each block face shows.
//! Tiles are given by their grid column and row; the caller turns them into
//! texture coordinates (a tile spans 1/16 of the texture on each axis).
use vstd::prelude::*;
use crate::chunk::{BlockId, AIR, DIRT, GLASS, GRASS, LEAVES, STONE, WATER, WOOD};
use crate::vec_map::{MapKey, VecMap};

verus! {

/// Face of a block.
#[derive(Clone, Copy, Debug, PartialEq, Eq, Structural, Hash)]
pub enum FaceDir {
    Top,
    Bottom,
    North,
    South,
    East,
    West,
}

/// A face of a block, as a key of the tile table.
#[derive(Clone, Copy, Debug, PartialEq, Eq, Structural)]
pub struct FaceKey {
    pub block: BlockId,
    pub face: FaceDir,
}

/// The key of face `face` of block `block`.
pub open spec fn fk(block: BlockId, face: FaceDir) -> FaceKey {
    FaceKey { block, face }
}

impl MapKey for FaceKey {
    fn key_eq(&self, other: &Self) -> (r: bool) {
        self.block == other.block && self.face == other.face
    }
}

/// Tile `(column, row)` of the default atlas for a face of a block, if it has one:
/// stone (1,0), dirt (2,0), grass (0,0) on top, (2,0) below and (3,0) on the
/// sides, wood (4,0), leaves (5,0), water (6,0), glass (7,0).
pub open spec fn default_tile(block: BlockId, face: FaceDir) -> Option<(usize, usize)> {
    if block == STONE {
        Some((1, 0))
    } else if block == DIRT {
        Some((2, 0))
    } else if block == GRASS {
        match face {
            FaceDir::Top => Some((0, 0)),
            FaceDir::Bottom => Some((2, 0)),
            _ => Some((3, 0)),
        }
    } else if block == WOOD {
        Some((4, 0))
    } else if block == LEAVES {
        Some((5, 0))
    } else if block == WATER {
        Some((6, 0))
    } else if block == GLASS {
        Some((7, 0))
    } else {
        None
    }
}

/// Tiles by block face, with a fallback tile for faces without one.
pub struct TextureAtlas {
    mapping: VecMap<FaceKey, (usize, usize)>,
    fallback: (usize, usize),
}

impl TextureAtlas {
    /// Tiles of the mapped block faces.
    pub closed spec fn tiles(&self) -> Map<FaceKey, (usize, usize)> {
        self.mapping@
    }

    /// Tile of unmapped faces.
    pub closed spec fn fallback_tile(&self) -> (usize, usize) {
        self.fallback
    }

    /// Internal consistency.
    pub closed spec fn wf(&self) -> bool {
        self.mapping.wf()
    }

    /// The tile shown on face `face` of block `block`.
    pub open spec fn tile_of(&self, block: BlockId, face: FaceDir) -> (usize, usize) {
        if self.tiles().contains_key(fk(block, face)) {
            self.tiles()[fk(block, face)]
        } else {
            self.fallback_tile()
        }
    }

    /// Shows tile `(tile_x, tile_y)` on every face of `block_id`.
    fn add_uniform_block(&mut self, block_id: BlockId, tile_x: usize, tile_y: usize)
        requires
            old(self).wf(),
        ensures
            final(self).wf(),
            final(self).fallback_tile() == old(self).fallback_tile(),
            final(self).tiles() == old(self).tiles().insert(fk(block_id, FaceDir::Top), (tile_x, tile_y)).insert(
                fk(block_id, FaceDir::Bottom),
                (tile_x, tile_y),
            ).insert(fk(block_id, FaceDir::North), (tile_x, tile_y)).insert(
                fk(block_id, FaceDir::South),
                (tile_x, tile_y),
            ).insert(fk(block_id, FaceDir::East), (tile_x, tile_y)).insert(
                fk(block_id, FaceDir::West),
                (tile_x, tile_y),
            ),
    {
        let t = (tile_x, tile_y);
        self.mapping.insert(FaceKey { block: block_id, face: FaceDir::Top }, t);
        self.mapping.insert(FaceKey { block: block_id, face: FaceDir::Bottom }, t);
        self.mapping.insert(FaceKey { block: block_id, face: FaceDir::North }, t);
        self.mapping.insert(FaceKey { block: block_id, face: FaceDir::South }, t);
        self.mapping.insert(FaceKey { block: block_id, face: FaceDir::East }, t);
        self.mapping.insert(FaceKey { block: block_id, face: FaceDir::West }, t);
    }

    /// Shows `top` on the top face, `bottom` on the bottom face and `side` on the four sides.
    fn add_custom_block(
        &mut self,
        block_id: BlockId,
        top: (usize, usize),
        bottom: (usize, usize),
        side: (usize, usize),
    )
        requires
            old(self).wf(),
        ensures
            final(self).wf(),
            final(self).fallback_tile() == old(self).fallback_tile(),
            final(self).tiles() == old(self).tiles().insert(fk(block_id, FaceDir::Top), top).insert(
                fk(block_id, FaceDir::Bottom),
                bottom,
            ).insert(fk(block_id, FaceDir::North), side).insert(fk(block_id, FaceDir::South), side).insert(
                fk(block_id, FaceDir::East),
                side,
            ).insert(fk(block_id, FaceDir::West), side),
    {
        self.mapping.insert(FaceKey { block: block_id, face: FaceDir::Top }, top);
        self.mapping.insert(FaceKey { block: block_id, face: FaceDir::Bottom }, bottom);
        self.mapping.insert(FaceKey { block: block_id, face: FaceDir::North }, side);
        self.mapping.insert(FaceKey { block: block_id, face: FaceDir::South }, side);
        self.mapping.insert(FaceKey { block: block_id, face: FaceDir::East }, side);
        self.mapping.insert(FaceKey { block: block_id, face: FaceDir::West }, side);
    }

    /// The default atlas: the tiles of `default_tile`, fallback tile (0,0).
    pub fn new_16x16() -> (r: Self)
        ensures
            r.wf(),
            r.fallback_tile() == (0usize, 0usize),
            forall|b: BlockId, f: FaceDir|
                #[trigger] r.tiles().contains_key(fk(b, f)) <==> default_tile(b, f) is Some,
            forall|b: BlockId, f: FaceDir|
                #[trigger] r.tiles().contains_key(fk(b, f)) ==> r.tiles()[fk(b, f)] == default_tile(
                    b,
                    f,
                )->Some_0,
            forall|f: FaceDir| #[trigger] r.tile_of(DIRT, f) == (2usize, 0usize),
            forall|f: FaceDir| #[trigger] r.tile_of(STONE, f) == (1usize, 0usize),
            r.tile_of(GRASS, FaceDir::Top) == (0usize, 0usize),
            r.tile_of(GRASS, FaceDir::Bottom) == (2usize, 0usize),
    {
        let mut atlas = TextureAtlas { mapping: VecMap::new(), fallback: (0, 0) };
        atlas.add_uniform_block(STONE, 1, 0);
        atlas.add_uniform_block(DIRT, 2, 0);
        atlas.add_custom_block(GRASS, (0, 0), (2, 0), (3, 0));
        atlas.add_uniform_block(WOOD, 4, 0);
        atlas.add_uniform_block(LEAVES, 5, 0);
        atlas.add_uniform_block(WATER, 6, 0);
        atlas.add_uniform_block(GLASS, 7, 0);
        proof {
            assert forall|b: BlockId, f: FaceDir| #[trigger]
                atlas.tiles().contains_key(fk(b, f)) <==> default_tile(b, f) is Some by {
                match f {
                    FaceDir::Top => {},
                    FaceDir::Bottom => {},
                    FaceDir::North => {},
                    FaceDir::South => {},
                    FaceDir::East => {},
                    FaceDir::West => {},
                }
            }
            assert forall|b: BlockId, f: FaceDir| #[trigger]
                atlas.tiles().contains_key(fk(b, f)) implies atlas.tiles()[fk(b, f)] == default_tile(
                b,
                f,
            )->Some_0 by {
                match f {
                    FaceDir::Top => {},
                    FaceDir::Bottom => {},
                    FaceDir::North => {},
                    FaceDir::South => {},
                    FaceDir::East => {},
                    FaceDir::West => {},
                }
            }
            assert forall|f: FaceDir| #[trigger] atlas.tile_of(DIRT, f) == (2usize, 0usize) by {
                lemma_default_atlas_tiles(atlas, f, AIR);
            }
            assert forall|f: FaceDir| #[trigger] atlas.tile_of(STONE, f) == (1usize, 0usize) by {
                lemma_default_atlas_tiles(atlas, f, AIR);
            }
            lemma_default_atlas_tiles(atlas, FaceDir::Top, AIR);
        }
        atlas
    }

    /// The default atlas.
    pub fn default() -> (r: Self)
        ensures
            r.wf(),
            r.fallback_tile() == (0usize, 0usize),
            forall|b: BlockId, f: FaceDir|
                #[trigger] r.tiles().contains_key(fk(b, f)) <==> default_tile(b, f) is Some,
            forall|b: BlockId, f: FaceDir|
                #[trigger] r.tiles().contains_key(fk(b, f)) ==> r.tiles()[fk(b, f)] == default_tile(
                    b,
                    f,
                )->Some_0,
    {
        Self::new_16x16()
    }

    /// Tile of face `face` of block `block_id`, or the fallback tile.
    pub fn get_tile(&self, block_id: BlockId, face: FaceDir) -> (r: (usize, usize))
        requires
            self.wf(),
        ensures
            r == self.tile_of(block_id, face),
    {
        match self.mapping.get(&FaceKey { block: block_id, face: face }) {
            Some(t) => *t,
            None => self.fallback,
        }
    }
}


/// The default atlas shows stone (1,0), dirt (2,0), wood (4,0), leaves (5,0),
/// water (6,0) and glass (7,0) on every face; grass shows (0,0) on top, the
/// dirt tile (2,0) below and (3,0) on its four sides; any other block shows
/// the fallback tile (0,0). Stated for any atlas with the contract of
/// `TextureAtlas::new_16x16`.
pub proof fn lemma_default_atlas_tiles(a: TextureAtlas, f: FaceDir, b: BlockId)
    requires
        a.fallback_tile() == (0usize, 0usize),
        forall|b: BlockId, f: FaceDir|
            #[trigger] a.tiles().contains_key(fk(b, f)) <==> default_tile(b, f) is Some,
        forall|b: BlockId, f: FaceDir|
            #[trigger] a.tiles().contains_key(fk(b, f)) ==> a.tiles()[fk(b, f)] == default_tile(
                b,
                f,
            )->Some_0,
    ensures
        a.tile_of(STONE, f) == (1usize, 0usize),
        a.tile_of(DIRT, f) == (2usize, 0usize),
        a.tile_of(WOOD, f) == (4usize, 0usize),
        a.tile_of(LEAVES, f) == (5usize, 0usize),
        a.tile_of(WATER, f) == (6usize, 0usize),
        a.tile_of(GLASS, f) == (7usize, 0usize),
        a.tile_of(GRASS, FaceDir::Top) == (0usize, 0usize),
        a.tile_of(GRASS, FaceDir::Bottom) == a.tile_of(DIRT, f),
        f != FaceDir::Top && f != FaceDir::Bottom ==> a.tile_of(GRASS, f) == (3usize, 0usize),
        b != STONE && b != DIRT && b != GRASS && b != WOOD && b != LEAVES && b != WATER && b
            != GLASS ==> a.tile_of(b, f) == (0usize, 0usize),
{
    assert(a.tiles().contains_key(fk(STONE, f)));
    assert(a.tiles().contains_key(fk(DIRT, f)));
    assert(a.tiles().contains_key(fk(WOOD, f)));
    assert(a.tiles().contains_key(fk(LEAVES, f)));
    assert(a.tiles().contains_key(fk(WATER, f)));
    assert(a.tiles().contains_key(fk(GLASS, f)));
    assert(a.tiles().contains_key(fk(GRASS, f)));
    assert(a.tiles().contains_key(fk(GRASS, FaceDir::Top)));
    assert(a.tiles().contains_key(fk(GRASS, FaceDir::Bottom)));
    if !a.tiles().contains_key(fk(b, f)) {
    } else {
        assert(default_tile(b, f) is Some);
    }
}
} // verus!
