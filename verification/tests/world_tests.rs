use std::sync::Arc;
use voxel_engine::atlas::{FaceDir, TextureAtlas};
use voxel_engine::chunk::{Chunk, AIR, DIRT, GLASS, GRASS, STONE, WOOD};
use voxel_engine::chunk_ring::{chunks_in_radius, ChunkRing, ChunkRingConfig};
use voxel_engine::coords::IVec3;
use voxel_engine::generator::{generate_chunk_from_heights, Biome};
use voxel_engine::generator_metrics::GeneratorMetrics;
use voxel_engine::marching_cubes::{
    case_triangles, cube_index, cut_edges, density_weighted_material, edge_corners, majority_material,
};
use voxel_engine::meshing::{mesh_chunk_v2, MeshData};
use voxel_engine::meshing_config::MeshingConfig;
use voxel_engine::storage::{ChunkPool, MeshPool};
use voxel_engine::volume::{
    world_to_chunk_pos, CelestialVolume, ChunkSchema, DirtyRegions, GridVolume, ProceduralProvider,
    Volume,
};
use voxel_engine::voxel_schema::{BlockSchema, DensitySchema};

fn v(x: i32, y: i32, z: i32) -> IVec3 {
    IVec3::new(x, y, z)
}

#[test]
fn generated_chunk_follows_column_rule() {
    let heights = vec![10i32; 1024];
    let c = generate_chunk_from_heights(v(0, 0, 0), &heights);
    assert_eq!(c.get(3, 9, 4), GRASS);
    assert_eq!(c.get(3, 8, 4), DIRT);
    assert_eq!(c.get(3, 6, 4), DIRT);
    assert_eq!(c.get(3, 5, 4), STONE);
    assert_eq!(c.get(3, 0, 4), STONE);
    assert_eq!(c.get(3, 10, 4), AIR);
    assert_eq!(c.get(3, 31, 4), AIR);
    assert_eq!(c.position(), v(0, 0, 0));
}

#[test]
fn generated_chunk_underground_is_all_stone() {
    let heights = vec![40i32; 1024];
    let c = generate_chunk_from_heights(v(2, 0, -1), &heights);
    // Top voxel is 8 below the surface on every column, and the whole chunk is stone.
    assert_eq!(c.get(0, 31, 0), STONE);
    assert_eq!(c.get(17, 3, 29), STONE);
    // One sample column too low: the column rule applies instead.
    let mut heights = vec![40i32; 1024];
    heights[16 + 16 * 32] = 31;
    let c = generate_chunk_from_heights(v(0, 0, 0), &heights);
    assert_eq!(c.get(16, 30, 16), GRASS);
    assert_eq!(c.get(16, 31, 16), AIR);
    assert_eq!(c.get(0, 31, 0), STONE);
}

#[test]
fn generated_chunk_above_surface_is_air() {
    let heights = vec![10i32; 1024];
    let c = generate_chunk_from_heights(v(0, 1, 0), &heights);
    assert_eq!(c.get(0, 0, 0), AIR);
    assert_eq!(c.get(31, 31, 31), AIR);
}

#[test]
fn biome_surface_blocks() {
    assert_eq!(Biome::Plains.surface_block(), GRASS);
    assert_eq!(Biome::Forest.surface_block(), GRASS);
    assert_eq!(Biome::Mountains.surface_block(), STONE);
    assert_eq!(Biome::Desert.surface_block(), DIRT);
    assert_eq!(Biome::Ocean.surface_block(), DIRT);
}

#[test]
fn sphere_of_chunks_counts() {
    assert_eq!(chunks_in_radius(v(0, 0, 0), 0), vec![v(0, 0, 0)]);
    assert_eq!(chunks_in_radius(v(5, 5, 5), 1).len(), 7);
    assert_eq!(chunks_in_radius(v(0, 0, 0), 2).len(), 33);
    assert!(chunks_in_radius(v(0, 0, 0), -1).is_empty());
    let r = chunks_in_radius(v(0, 0, 0), 2);
    assert!(r.contains(&v(0, 0, 2)));
    assert!(r.contains(&v(1, 1, 1)));
    assert!(!r.contains(&v(2, 1, 0)));
}

#[test]
fn ring_update_loads_and_unloads() {
    let mut ring = ChunkRing::new(ChunkRingConfig::default());
    // Same chunk as the initial one: nothing happens.
    let (load, unload) = ring.update(v(0, 0, 0), &vec![v(0, 0, 0)], &vec![]);
    assert!(load.is_empty() && unload.is_empty());
    assert_eq!(ring.desired_count(), 0);

    let desired = vec![v(1, 0, 0), v(2, 0, 0), v(1, 0, 0)];
    let (load, unload) = ring.update(v(1, 0, 0), &desired, &vec![v(1, 0, 0)]);
    assert_eq!(load.len(), 2);
    assert!(load.contains(&v(1, 0, 0)) && load.contains(&v(2, 0, 0)));
    assert!(unload.is_empty());
    assert_eq!(ring.desired_count(), 2);
    assert_eq!(ring.current_chunk(), v(1, 0, 0));

    ring.mark_loaded(v(1, 0, 0));
    ring.mark_loaded(v(9, 0, 0));
    let (load, unload) = ring.update(v(2, 0, 0), &vec![v(1, 0, 0), v(3, 0, 0)], &vec![v(1, 0, 0)]);
    assert_eq!(load, vec![v(3, 0, 0)]);
    assert_eq!(unload, vec![v(9, 0, 0)]);
    assert_eq!(ring.loaded_count(), 2);

    ring.mark_unloaded(v(9, 0, 0));
    assert_eq!(ring.loaded_count(), 1);
    let visible = ring.get_visible_chunks();
    assert_eq!(visible, vec![v(1, 0, 0)]);
    ring.clear();
    assert_eq!(ring.loaded_count(), 0);
    assert_eq!(ring.desired_count(), 0);
}

#[test]
fn ring_default_radii() {
    let c = ChunkRingConfig::default();
    assert_eq!((c.view_radius, c.generation_radius, c.unload_radius), (4, 5, 6));
}

#[test]
fn world_to_chunk_uses_floor_division() {
    assert_eq!(world_to_chunk_pos(v(-1, 32, 31)), v(-1, 1, 0));
    assert_eq!(world_to_chunk_pos(v(-32, -33, 0)), v(-1, -2, 0));
}

#[test]
fn dirty_regions_mark_neighbours_on_borders() {
    let mut d = DirtyRegions::new();
    d.mark_position_dirty(v(5, 5, 5));
    assert_eq!(d.dirty_count(), 1);
    assert!(d.is_chunk_dirty(v(0, 0, 0)));
    d.clear();
    d.mark_position_dirty(v(0, 0, 0));
    assert_eq!(d.dirty_count(), 4);
    assert!(d.is_chunk_dirty(v(-1, 0, 0)));
    assert!(d.is_chunk_dirty(v(0, -1, 0)));
    assert!(d.is_chunk_dirty(v(0, 0, -1)));
    d.clear();
    d.mark_position_dirty(v(31, 5, -1));
    assert_eq!(d.dirty_count(), 3);
    assert!(d.is_chunk_dirty(v(0, 0, -1)));
    assert!(d.is_chunk_dirty(v(1, 0, -1)));
    assert!(d.is_chunk_dirty(v(0, 0, 0)));
    let mut taken = d.take_dirty_chunks();
    taken.sort_by_key(|p| (p.x, p.y, p.z));
    assert_eq!(taken, vec![v(0, 0, -1), v(0, 0, 0), v(1, 0, -1)]);
    assert_eq!(d.dirty_count(), 0);
}

#[test]
fn grid_volume_bounds_and_chunks() {
    let mut g = GridVolume::bounded(v(0, 0, 0), v(1, 1, 1));
    assert!(g.set_voxel(v(40, 3, 3), STONE));
    assert!(!g.set_voxel(v(-1, 3, 3), STONE));
    assert!(!g.set_voxel(v(64, 0, 0), STONE));
    let dirty = g.take_dirty_regions();
    assert_eq!(dirty, vec![v(1, 0, 0)]);
    g.insert_chunk(v(0, 0, 0), ChunkSchema::Blocks(BlockSchema::new(v(0, 0, 0))));
    assert!(g.has_chunk(v(0, 0, 0)));
    assert_eq!(g.chunk_count(), 1);
    assert_eq!(g.take_dirty_regions(), vec![v(0, 0, 0)]);
    assert!(g.remove_chunk(v(0, 0, 0)).is_some());
    assert!(g.remove_chunk(v(0, 0, 0)).is_none());
    assert_eq!(g.bounds(), Some((v(0, 0, 0), v(1, 1, 1))));
    assert_eq!(g.volume_type(), "GridVolume");
    let mut u = GridVolume::unbounded();
    assert!(u.set_voxel(v(1_000_000, 0, 0), STONE));
    assert_eq!(u.bounds(), None);
}

struct FlatWorld;

impl ProceduralProvider for FlatWorld {
    fn generated(&self, chunk_pos: IVec3) -> ChunkSchema {
        ChunkSchema::Blocks(BlockSchema::new(chunk_pos))
    }
    fn generate_chunk(&self, chunk_pos: IVec3) -> ChunkSchema {
        ChunkSchema::Blocks(BlockSchema::new(chunk_pos))
    }
    fn provider_name(&self) -> &'static str {
        "FlatWorld"
    }
}

#[test]
fn celestial_volume_marks_dirty_and_generates() {
    let mut c = CelestialVolume::new(Arc::new(FlatWorld));
    assert_eq!(c.delta_count(), 0);
    assert!(!c.has_delta(v(0, 0, 0)));
    assert!(c.set_voxel(v(-40, 3, 3), STONE));
    assert_eq!(c.take_dirty_regions(), vec![v(-2, 0, 0)]);
    assert!(matches!(c.get_chunk_schema(v(3, 3, 3)), ChunkSchema::Blocks(_)));
    assert_eq!(c.bounds(), None);
    assert_eq!(c.volume_type(), "CelestialVolume");
    c.clear_deltas();
    assert_eq!(c.delta_count(), 0);
}

#[test]
fn atlas_default_tiles() {
    let atlas = TextureAtlas::new_16x16();
    assert_eq!(atlas.get_tile(GRASS, FaceDir::Top), (0, 0));
    assert_eq!(atlas.get_tile(GRASS, FaceDir::Bottom), (2, 0));
    assert_eq!(atlas.get_tile(GRASS, FaceDir::North), (3, 0));
    assert_eq!(atlas.get_tile(GRASS, FaceDir::West), (3, 0));
    assert_eq!(atlas.get_tile(STONE, FaceDir::Bottom), (1, 0));
    assert_eq!(atlas.get_tile(WOOD, FaceDir::East), (4, 0));
    assert_eq!(atlas.get_tile(GLASS, FaceDir::South), (7, 0));
    assert_eq!(atlas.get_tile(AIR, FaceDir::Top), (0, 0));
    assert_eq!(atlas.get_tile(100, FaceDir::Top), (0, 0));
}

#[test]
fn chunk_pool_reuses_and_moves_chunks() {
    let mut pool = ChunkPool::new(1);
    let mut a = pool.acquire(v(1, 2, 3));
    assert_eq!(pool.stats.allocations, 1);
    assert_eq!(a.position(), v(1, 2, 3));
    assert_eq!(a.get(0, 0, 0), AIR);
    a.set(0, 0, 0, STONE);
    pool.release(a);
    assert_eq!(pool.stats.available_chunks, 1);
    pool.release(Chunk::new(v(9, 9, 9)));
    assert_eq!(pool.stats.available_chunks, 1);
    let b = pool.acquire(v(4, 5, 6));
    assert_eq!(pool.stats.reuses, 1);
    assert_eq!(pool.stats.available_chunks, 0);
    assert_eq!(b.position(), v(4, 5, 6));
    assert_eq!(b.get(0, 0, 0), STONE);
    pool.preallocate(5);
    assert_eq!(pool.stats.available_chunks, 1);
    pool.clear();
    assert_eq!(pool.stats.available_chunks, 0);
    let c = pool.acquire(v(7, 7, 7));
    assert_eq!(pool.stats.allocations, 2);
    assert_eq!(pool.stats.reuses, 1);
    assert_eq!(c.get(0, 0, 0), AIR);
}

#[test]
fn preallocate_fills_only_free_room() {
    let mut pool = ChunkPool::new(2);
    pool.release(Chunk::new(v(0, 0, 0)));
    pool.release(Chunk::new(v(0, 0, 0)));
    pool.preallocate(2);
    assert_eq!(pool.stats.available_chunks, 2);
    let mut small = ChunkPool::new(3);
    small.release(Chunk::new(v(0, 0, 0)));
    small.preallocate(5);
    assert_eq!(small.stats.available_chunks, 3);
    let mut meshes = MeshPool::new(3);
    meshes.release(MeshData::new());
    meshes.preallocate(1, 8);
    assert_eq!(meshes.stats.available_meshes, 2);
    meshes.preallocate(9, 8);
    assert_eq!(meshes.stats.available_meshes, 3);
}

#[test]
fn mesh_pool_hands_out_cleared_meshes() {
    let mut pool = MeshPool::new(4);
    let mut m = pool.acquire();
    assert_eq!(pool.stats.allocations, 1);
    m.indices.push(3);
    m.positions.push((1, 2, 3));
    pool.release(m);
    let m = pool.acquire();
    assert!(m.indices.is_empty() && m.positions.is_empty() && m.uvs.is_empty());
    assert_eq!(pool.stats.reuses, 1);
    pool.preallocate(10, 16);
    assert_eq!(pool.stats.available_meshes, 4);
    let d = MeshPool::default();
    assert_eq!(d.stats.available_meshes, 0);
}

#[test]
fn single_voxel_mesh_has_six_quads() {
    let mut c = Chunk::new(v(0, 0, 0));
    c.set(5, 6, 7, STONE);
    let m = mesh_chunk_v2(&c);
    assert_eq!(m.positions.len(), 24);
    assert_eq!(m.uvs.len(), 24);
    assert_eq!(m.indices.len(), 36);
    assert_eq!(&m.indices[0..6], &[0, 1, 2, 0, 2, 3]);
    assert!(m.positions.iter().all(|p| (5..=6).contains(&p.0) && (6..=7).contains(&p.1) && (7..=8).contains(&p.2)));
}

#[test]
fn two_adjacent_voxels_hide_shared_faces() {
    let mut c = Chunk::new(v(0, 0, 0));
    c.set(5, 6, 7, STONE);
    c.set(6, 6, 7, DIRT);
    let m = mesh_chunk_v2(&c);
    assert_eq!(m.indices.len(), 10 * 6);
}

#[test]
fn meshing_config_presets() {
    assert!(MeshingConfig::default().use_greedy_meshing);
    assert!(!MeshingConfig::default().calculate_ao);
    assert!(MeshingConfig::quality().calculate_ao);
    assert!(!MeshingConfig::fast().use_greedy_meshing);
    assert!(MeshingConfig::fast().supports_cross_chunk_meshing() == false);
    assert!(MeshingConfig::balanced().supports_cross_chunk_meshing());
    assert_eq!(MeshingConfig::new(false).use_greedy_meshing, false);
    assert!(MeshingConfig::performance().use_greedy_meshing);
    assert!(MeshingConfig::maximum_performance().use_greedy_meshing);
}

#[test]
fn cube_cases_from_corner_densities() {
    let mut s = DensitySchema::new(v(0, 0, 0));
    assert_eq!(cube_index(&s, v(0, 0, 0), 128), 0);
    s.set_local(0, 0, 0, 200, 3);
    assert_eq!(cube_index(&s, v(0, 0, 0), 128), 1);
    s.set_local(1, 0, 1, 128, 3);
    assert_eq!(cube_index(&s, v(0, 0, 0), 128), 1 + 4);
    s.set_local(0, 1, 1, 255, 3);
    assert_eq!(cube_index(&s, v(0, 0, 0), 128), 1 + 4 + 128);
    assert_eq!(cube_index(&s, v(0, 0, 0), 0), 255);
    assert_eq!(cube_index(&s, v(0, 0, 0), 256), 0);
}

#[test]
fn material_blending_choices() {
    let mut s = DensitySchema::new(v(0, 0, 0));
    s.set_local(1, 1, 1, 10, 4);
    s.set_local(2, 1, 1, 20, 5);
    assert_eq!(density_weighted_material(&s, v(1, 1, 1), v(2, 1, 1)), 5);
    assert_eq!(density_weighted_material(&s, v(2, 1, 1), v(1, 1, 1)), 5);
    // A tie picks the second voxel.
    s.set_local(3, 1, 1, 20, 6);
    assert_eq!(density_weighted_material(&s, v(2, 1, 1), v(3, 1, 1)), 6);
    // Majority: 26 voxels of material 0 around (5,5,5) beat 1 voxel of 9.
    s.set_local(5, 5, 5, 200, 9);
    assert_eq!(majority_material(&s, v(5, 5, 5)), 0);
    // Fill 14 of the 27 with material 7.
    let mut s = DensitySchema::new(v(0, 0, 0));
    let mut n = 0;
    for z in 4..7 {
        for y in 4..7 {
            for x in 4..7 {
                if n < 14 {
                    s.set_local(x, y, z, 1, 7);
                }
                n += 1;
            }
        }
    }
    assert_eq!(majority_material(&s, v(5, 5, 5)), 7);
}

#[test]
fn metrics_keep_the_latest_samples() {
    let mut m: GeneratorMetrics<u32> = GeneratorMetrics::new(3);
    for i in 0..5u32 {
        m.add_sample(i);
    }
    assert_eq!(m.len(), 3);
    assert_eq!(*m.sample(0), 2);
    assert_eq!(*m.sample(2), 4);
    m.clear();
    assert_eq!(m.len(), 0);
    let mut z: GeneratorMetrics<u32> = GeneratorMetrics::new(0);
    z.add_sample(1);
    assert_eq!(z.len(), 0);
}

#[test]
fn marching_cube_edge_and_triangle_tables() {
    assert_eq!(cut_edges(0), 0);
    assert_eq!(cut_edges(1), 0x109);
    assert_eq!(cut_edges(3), 0x30a);
    assert_eq!(cut_edges(15), 0xf00);
    assert_eq!(cut_edges(0x96), 0xf55);
    assert_eq!(cut_edges(255), 0);
    assert_eq!(edge_corners(0), (0, 1));
    assert_eq!(edge_corners(3), (3, 0));
    assert_eq!(edge_corners(7), (7, 4));
    assert_eq!(edge_corners(9), (1, 5));
    assert_eq!(case_triangles(0), Vec::<u8>::new());
    assert_eq!(case_triangles(3), vec![1, 8, 3, 9, 8, 1]);
    assert_eq!(case_triangles(15), vec![9, 8, 10, 10, 8, 11]);
    assert_eq!(case_triangles(20), Vec::<u8>::new());
}
