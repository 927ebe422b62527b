use voxel_engine::buffer_pool::BufferPool;
use voxel_engine::framegraph::{FrameGraph, Node};
use voxel_engine::texture::{checker_rgba8, padded_row_bytes, stage_rgba8_rows};
use voxel_engine::scene_cache::{ObjectId, SceneCache};

#[test]
fn test_pool_stats() {
    let pool: BufferPool<u32> = BufferPool::new(10);
    assert_eq!(pool.stats.vertex_buffers_in_pool, 0);
    assert_eq!(pool.stats.index_buffers_in_pool, 0);
}

#[test]
fn pool_reuses_smallest_buffer_large_enough() {
    let mut pool: BufferPool<&'static str> = BufferPool::new(10);
    pool.return_vertex_buffer("small", 50);
    pool.return_vertex_buffer("medium", 100);
    pool.return_vertex_buffer("large", 200);
    assert_eq!(pool.stats.vertex_buffers_in_pool, 3);
    assert_eq!(pool.acquire_vertex_buffer(60), Some("medium"));
    assert_eq!(pool.stats.vertex_reuses, 1);
    assert_eq!(pool.stats.vertex_buffers_in_pool, 2);
    assert_eq!(pool.acquire_vertex_buffer(10), Some("small"));
    assert_eq!(pool.acquire_vertex_buffer(300), None);
    assert_eq!(pool.stats.vertex_allocations, 1);
    assert_eq!(pool.stats.vertex_reuses, 2);
    assert_eq!(pool.stats.vertex_buffers_in_pool, 1);
}

#[test]
fn pool_keeps_buffers_sorted_by_capacity() {
    let mut pool: BufferPool<&'static str> = BufferPool::new(10);
    pool.return_vertex_buffer("hundred", 100);
    pool.return_vertex_buffer("fifty", 50);
    assert_eq!(pool.acquire_vertex_buffer(40), Some("fifty"));
    assert_eq!(pool.stats.vertex_allocations, 0);
    assert_eq!(pool.stats.vertex_buffers_in_pool, 1);
    assert_eq!(pool.acquire_vertex_buffer(40), Some("hundred"));
    pool.return_index_buffer("first", 64);
    pool.return_index_buffer("big", 128);
    pool.return_index_buffer("second", 64);
    assert_eq!(pool.acquire_index_buffer(64), Some("first"));
    assert_eq!(pool.acquire_index_buffer(64), Some("second"));
    assert_eq!(pool.acquire_index_buffer(64), Some("big"));
}

#[test]
fn pool_index_buffers_are_separate() {
    let mut pool: BufferPool<u8> = BufferPool::new(4);
    pool.return_index_buffer(7, 64);
    assert_eq!(pool.acquire_vertex_buffer(1), None);
    assert_eq!(pool.stats.vertex_allocations, 1);
    assert_eq!(pool.acquire_index_buffer(64), Some(7));
    assert_eq!(pool.stats.index_reuses, 1);
    assert_eq!(pool.acquire_index_buffer(64), None);
    assert_eq!(pool.stats.index_allocations, 1);
    assert_eq!(pool.stats.index_buffers_in_pool, 0);
}

#[test]
fn pool_drops_buffers_when_full_and_clears() {
    let mut pool: BufferPool<u8> = BufferPool::new(2);
    pool.return_vertex_buffer(1, 10);
    pool.return_vertex_buffer(2, 10);
    pool.return_vertex_buffer(3, 10);
    assert_eq!(pool.stats.vertex_buffers_in_pool, 2);
    pool.return_index_buffer(4, 10);
    pool.clear();
    assert_eq!(pool.stats.vertex_buffers_in_pool, 0);
    assert_eq!(pool.stats.index_buffers_in_pool, 0);
    assert_eq!(pool.acquire_vertex_buffer(1), None);
}

#[test]
fn default_pool_holds_128() {
    let mut pool: BufferPool<u16> = BufferPool::default();
    for i in 0..130u16 {
        pool.return_vertex_buffer(i, 1);
    }
    assert_eq!(pool.stats.vertex_buffers_in_pool, 128);
}

#[test]
fn framegraph_keeps_pass_order() {
    let g: FrameGraph<(u8, u8, u8)> = FrameGraph::new().clear((1, 2, 3)).scene();
    assert_eq!(g.nodes.len(), 2);
    assert!(matches!(g.nodes[0], Node::Clear((1, 2, 3))));
    assert!(matches!(g.nodes[1], Node::Scene));
}

#[test]
fn checker_pattern_squares() {
    let data = checker_rgba8(32, 32);
    assert_eq!(data.len(), 32 * 32 * 4);
    let px = |x: usize, y: usize| &data[4 * (y * 32 + x)..4 * (y * 32 + x) + 4];
    assert_eq!(px(0, 0), &[220, 220, 255, 255]);
    assert_eq!(px(15, 15), &[220, 220, 255, 255]);
    assert_eq!(px(16, 0), &[40, 40, 255, 255]);
    assert_eq!(px(0, 16), &[40, 40, 255, 255]);
    assert_eq!(px(16, 16), &[220, 220, 255, 255]);
}

#[test]
fn padded_rows_round_up_to_256() {
    assert_eq!(padded_row_bytes(1), 256);
    assert_eq!(padded_row_bytes(64), 256);
    assert_eq!(padded_row_bytes(65), 512);
    assert_eq!(padded_row_bytes(0), 0);
}

#[test]
fn staging_pads_rows_with_zeros() {
    let data: Vec<u8> = vec![1, 2, 3, 4, 5, 6, 7, 8];
    let (staged, bpr) = stage_rgba8_rows(1, 2, &data);
    assert_eq!(bpr, 256);
    assert_eq!(staged.len(), 512);
    assert_eq!(&staged[0..4], &[1, 2, 3, 4]);
    assert!(staged[4..256].iter().all(|&b| b == 0));
    assert_eq!(&staged[256..260], &[5, 6, 7, 8]);
    assert!(staged[260..512].iter().all(|&b| b == 0));
}

#[test]
fn staging_keeps_aligned_rows() {
    let data: Vec<u8> = (0..=255u8).chain(0..=255u8).collect();
    let (staged, bpr) = stage_rgba8_rows(64, 2, &data);
    assert_eq!(bpr, 256);
    assert_eq!(staged, data);
}

#[test]
fn scene_cache_tracks_object_versions() {
    let mut cache = SceneCache::new();
    let s = cache.stats();
    assert_eq!((s.bind_groups_count, s.objects_count), (0, 0));
    assert!(cache.is_dirty(1, 1));
    assert!(cache.get_bind_group(1, 1).is_none());
    cache.cleanup_old_entries(&[(1, 2), (4, 7), (1, 3)]);
    let s = cache.stats();
    assert_eq!((s.bind_groups_count, s.objects_count), (0, 2));
    assert!(!cache.is_dirty(1, 3));
    assert!(cache.is_dirty(1, 2));
    assert!(!cache.is_dirty(4, 7));
    assert!(cache.is_dirty(5, 0));
    cache.cleanup_old_entries(&[]);
    assert_eq!(cache.stats().objects_count, 0);
    let id = ObjectId { id: 3, version: 9 };
    assert_eq!(id, ObjectId { id: 3, version: 9 });
}
