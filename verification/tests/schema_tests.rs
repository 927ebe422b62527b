use voxel_engine::chunk::{is_solid, is_transparent, Chunk, AIR, DIRT, GLASS, GRASS, SOLID, STONE, WATER, WOOD};
use voxel_engine::coords::{div_chunk, split_world_pos, IVec3};
use voxel_engine::meshing::sample;
use voxel_engine::providers::{BiomeType, ChunkData};
use voxel_engine::voxel_schema::{
    BlockSchema, DensitySchema, MAT_AIR, MAT_DIRT, MAT_GRASS, MAT_STONE, MAT_WATER, MAT_WOOD,
};

fn v(x: i32, y: i32, z: i32) -> IVec3 {
    IVec3::new(x, y, z)
}

#[test]
fn block_predicates() {
    assert!(!is_solid(AIR));
    assert!(is_solid(GLASS));
    assert!(is_transparent(AIR) && is_transparent(WATER) && is_transparent(GLASS));
    assert!(!is_transparent(STONE));
}

#[test]
fn chunk_set_then_get() {
    let mut c = Chunk::new_filled(DIRT);
    assert_eq!(c.position(), v(0, 0, 0));
    c.set(31, 0, 17, WOOD);
    assert_eq!(c.get(31, 0, 17), WOOD);
    assert_eq!(c.get(30, 0, 17), DIRT);
    assert_eq!(c.voxels_at(31 + 17 * 1024), WOOD);
    c.set_position(v(4, -2, 9));
    assert_eq!(c.position(), v(4, -2, 9));
    assert_eq!(c.get(31, 0, 17), WOOD);
    assert_eq!(Chunk::new_empty().get(5, 5, 5), AIR);
}

#[test]
fn debug_column_pattern() {
    let mut c = Chunk::new_empty();
    c.fill_debug_column();
    assert_eq!(c.get(1, 0, 1), SOLID);
    assert_eq!(c.get(4, 7, 8), SOLID);
    assert_eq!(c.get(4, 8, 8), AIR);
    assert_eq!(c.get(5, 3, 8), AIR);
}

#[test]
fn sample_outside_is_air() {
    let c = Chunk::new_filled(STONE);
    assert_eq!(sample(&c, 0, 0, 0), STONE);
    assert_eq!(sample(&c, -1, 0, 0), AIR);
    assert_eq!(sample(&c, 0, 32, 0), AIR);
}

#[test]
fn world_positions_split_into_chunk_and_index() {
    assert_eq!(div_chunk(-1), -1);
    assert_eq!(div_chunk(-32), -1);
    assert_eq!(div_chunk(-33), -2);
    assert_eq!(div_chunk(63), 1);
    assert_eq!(split_world_pos(v(-1, 33, 0)), (v(-1, 1, 0), 31 + 32));
    assert_eq!(split_world_pos(v(0, 0, 0)), (v(0, 0, 0), 0));
}

#[test]
fn block_schema_queries() {
    let mut s = BlockSchema::new(v(1, 0, 0));
    s.set_local(0, 0, 0, GRASS);
    s.set_local(1, 0, 0, 99);
    assert_eq!(s.get_local(0, 0, 0), GRASS);
    assert!(s.is_solid(v(32, 0, 0)));
    assert!(!s.is_solid(v(34, 0, 0)));
    assert!(!s.is_solid(v(0, 0, 0)));
    assert_eq!(s.material_at(v(32, 0, 0)), MAT_GRASS);
    assert_eq!(s.material_at(v(33, 0, 0)), MAT_STONE);
    assert_eq!(s.material_at(v(0, 0, 0)), MAT_AIR);
    assert_eq!(s.surface_sign(v(32, 0, 0)), 1);
    assert_eq!(s.surface_sign(v(40, 0, 0)), -1);
    assert_eq!(s.schema_name(), "BlockSchema");
    let filled = BlockSchema::from_blocks(v(0, 0, 0), vec![WATER; 32768]);
    assert_eq!(filled.material_at(v(3, 3, 3)), MAT_WATER);
}

#[test]
fn density_schema_queries() {
    let mut s = DensitySchema::new(v(0, -1, 0));
    s.set_local(2, 3, 4, 200, MAT_DIRT);
    assert_eq!(s.get_density_local(2, 3, 4), 200);
    assert_eq!(s.get_material_local(2, 3, 4), MAT_DIRT);
    assert_eq!(s.get_density_world(v(2, -29, 4)), 200);
    assert_eq!(s.get_material_world(v(2, -29, 4)), MAT_DIRT);
    assert_eq!(s.get_density_world(v(2, 3, 4)), 0);
    assert!(s.is_solid(v(2, -29, 4)));
    s.set_solid_threshold(201);
    assert!(!s.is_solid(v(2, -29, 4)));
    assert_eq!(s.material_at(v(2, -29, 4)), MAT_DIRT);
    assert_eq!(s.chunk_position(), v(0, -1, 0));
    assert_eq!(s.schema_name(), "DensitySchema");
}

#[test]
fn biome_materials_and_chunk_data() {
    assert_eq!(BiomeType::Ice.surface_material(), MAT_WATER);
    assert_eq!(BiomeType::Tundra.surface_material(), MAT_STONE);
    let d = ChunkData::filled(WOOD);
    assert!(d.blocks.iter().all(|&b| b == WOOD));
    let copy = d.duplicate();
    assert_eq!(copy.blocks, d.blocks);
    assert_eq!(copy.version, d.version);
    let _ = MAT_WOOD;
}
