use std::sync::Arc;
use voxel_engine::chunk::{Chunk, AIR, DIRT, STONE};
use voxel_engine::coords::IVec3;
use voxel_engine::delta_store::{
    DecodeError, DeltaStore, EvictionPolicy, GCConfig, ProviderWithEdits,
};
use voxel_engine::job_queue::{ChunkJob, JobOutcome, JobQueue, JobResult, WorkOrder};
use voxel_engine::meshing::MeshData;
use voxel_engine::providers::{
    ChunkData, GridStoreConfig, GridStoreProvider, ProviderError, VoxelData, VoxelProvider,
    VoxelValue,
};

fn v(x: i32, y: i32, z: i32) -> IVec3 {
    IVec3::new(x, y, z)
}

#[test]
fn voxel_values_solidity() {
    assert!(VoxelValue::Block(STONE).is_solid());
    assert!(!VoxelValue::Block(AIR).is_solid());
    assert!(VoxelValue::Density(128, 1).is_solid());
    assert!(!VoxelValue::Density(127, 1).is_solid());
}

#[test]
fn voxel_data_get_set() {
    let mut d = VoxelData::new(v(2, 3, 4));
    assert_eq!(d.values.len(), 24);
    assert_eq!(d.get(1, 2, 3), Some(VoxelValue::Block(AIR)));
    d.set(1, 2, 3, VoxelValue::Block(DIRT));
    assert_eq!(d.get(1, 2, 3), Some(VoxelValue::Block(DIRT)));
    assert_eq!(d.values[1 + 2 * 2 + 3 * 6], VoxelValue::Block(DIRT));
    assert_eq!(d.get(2, 0, 0), None);
    assert_eq!(d.get(-1, 0, 0), None);
    d.set(5, 5, 5, VoxelValue::Block(STONE));
    assert_eq!(d.values.iter().filter(|x| **x == VoxelValue::Block(STONE)).count(), 0);
}

#[test]
fn grid_store_write_then_read() {
    let mut g = GridStoreProvider::new(GridStoreConfig::default());
    assert!(g.write_voxel(v(33, -1, 5), VoxelValue::Block(STONE)).is_ok());
    assert_eq!(g.chunk_count(), 1);
    let d = g.read_range(v(32, -2, 5), v(34, 0, 5), 0).unwrap();
    assert_eq!(d.size, v(3, 3, 1));
    assert_eq!(d.get(1, 1, 0), Some(VoxelValue::Block(STONE)));
    assert_eq!(d.get(0, 1, 0), Some(VoxelValue::Block(AIR)));
    assert!(matches!(g.read_range(v(0, 0, 0), v(1, 1, 1), 1), Err(ProviderError::InvalidLOD)));
    match g.write_voxel(v(0, 0, 0), VoxelValue::Density(1, 1)) {
        Err(ProviderError::Other(s)) => assert_eq!(s, "GridStore only supports blocks"),
        _ => panic!("density write accepted"),
    }
    let dirty = g.take_dirty_chunks();
    assert_eq!(dirty, vec![v(1, -1, 0)]);
    assert!(g.take_dirty_chunks().is_empty());
    let c = g.get_chunk(v(1, -1, 0)).unwrap();
    assert_eq!(c.version, 1);
    assert!(g.get_chunk(v(0, 0, 0)).is_none());
}

#[test]
fn grid_store_insert_and_compact() {
    let mut g = GridStoreProvider::new(GridStoreConfig::default());
    let mut data = ChunkData::filled(DIRT);
    data.palette = (0..300u16).collect();
    g.insert_chunk(v(0, 0, 0), data);
    g.compact_palettes();
    assert_eq!(g.get_chunk(v(0, 0, 0)).unwrap().version, 1);
    let d = g.read_range(v(0, 0, 0), v(0, 0, 0), 0).unwrap();
    assert_eq!(d.values, vec![VoxelValue::Block(DIRT)]);
    assert_eq!(ChunkData::new().blocks.len(), 32768);
}

#[test]
fn provider_error_messages() {
    assert_eq!(ProviderError::OutOfBounds.message(), "Region out of bounds");
    assert_eq!(ProviderError::InvalidLOD.message(), "Invalid LOD level");
    assert_eq!(ProviderError::Other("x".to_string()).message(), "Error: x");
}

#[test]
fn delta_store_records_edits() {
    let mut s = DeltaStore::new(GCConfig::default());
    s.set_voxel(v(-1, 0, 0), VoxelValue::Block(STONE));
    s.set_voxel(v(5, 5, 5), VoxelValue::Density(200, 3));
    s.set_voxel(v(5, 5, 5), VoxelValue::Block(DIRT));
    assert_eq!(s.chunk_count(), 2);
    assert_eq!(s.get_edit(v(-1, 0, 0)), Some(VoxelValue::Block(STONE)));
    assert_eq!(s.get_edit(v(5, 5, 5)), Some(VoxelValue::Block(DIRT)));
    assert_eq!(s.get_edit(v(5, 5, 6)), None);
    let st = s.stats();
    assert_eq!(st.total_deltas, 2);
    assert_eq!(st.dirty_chunks, 2);
    assert_eq!(
        st.memory_usage_bytes,
        2 * (std::mem::size_of::<usize>() + std::mem::size_of::<VoxelValue>())
    );
    s.clear();
    assert_eq!(s.chunk_count(), 0);
}

#[test]
fn delta_store_applies_edits_in_box() {
    let mut s = DeltaStore::new(GCConfig::default());
    s.set_voxel(v(1, 1, 1), VoxelValue::Block(STONE));
    s.set_voxel(v(9, 9, 9), VoxelValue::Block(STONE));
    let mut d = VoxelData::new(v(2, 2, 2));
    s.apply_to(&mut d, v(0, 0, 0), v(1, 1, 1));
    assert_eq!(d.get(1, 1, 1), Some(VoxelValue::Block(STONE)));
    assert_eq!(d.values.iter().filter(|x| **x == VoxelValue::Block(STONE)).count(), 1);
}

#[test]
fn gc_lru_evicts_least_recent() {
    let cfg = GCConfig { max_delta_chunks: 2, eviction_policy: EvictionPolicy::LRU, auto_flush: false };
    let mut s = DeltaStore::new(cfg);
    s.set_voxel(v(0, 0, 0), VoxelValue::Block(STONE));
    s.set_voxel(v(40, 0, 0), VoxelValue::Block(STONE));
    s.set_voxel(v(80, 0, 0), VoxelValue::Block(STONE));
    s.set_voxel(v(1, 0, 0), VoxelValue::Block(DIRT));
    s.gc(&Vec::new());
    assert_eq!(s.chunk_count(), 2);
    assert_eq!(s.get_edit(v(40, 0, 0)), None);
    assert_eq!(s.get_edit(v(1, 0, 0)), Some(VoxelValue::Block(DIRT)));
    assert_eq!(s.get_edit(v(80, 0, 0)), Some(VoxelValue::Block(STONE)));
}

#[test]
fn gc_spatial_and_never() {
    let cfg = GCConfig { max_delta_chunks: 1, eviction_policy: EvictionPolicy::SpatialLRU, auto_flush: false };
    let mut s = DeltaStore::new(cfg);
    s.set_voxel(v(0, 0, 0), VoxelValue::Block(STONE));
    s.set_voxel(v(40, 0, 0), VoxelValue::Block(STONE));
    s.gc(&vec![v(0, 0, 0), v(1, 0, 0)]);
    assert_eq!(s.chunk_count(), 1);
    assert_eq!(s.get_edit(v(0, 0, 0)), None);
    let cfg = GCConfig { max_delta_chunks: 0, eviction_policy: EvictionPolicy::Never, auto_flush: false };
    let mut n = DeltaStore::new(cfg);
    n.set_voxel(v(0, 0, 0), VoxelValue::Block(STONE));
    n.gc(&Vec::new());
    assert_eq!(n.chunk_count(), 1);
}

#[test]
fn encode_decode_roundtrip() {
    let mut s = DeltaStore::new(GCConfig::default());
    s.set_voxel(v(-33, 7, 64), VoxelValue::Block(513));
    s.set_voxel(v(2, 3, 4), VoxelValue::Density(77, 9));
    s.set_voxel(v(2, 3, 5), VoxelValue::Block(STONE));
    let bytes = s.encode();
    assert_eq!(&bytes[0..4], b"DLTA");
    assert_eq!(&bytes[4..8], &[1, 0, 0, 0]);
    assert_eq!(&bytes[8..12], &[2, 0, 0, 0]);
    assert_eq!(bytes.len(), 12 + 2 * 16 + 3 * 7);
    match DeltaStore::decode(&bytes) {
        Ok(t) => {
            assert_eq!(t.chunk_count(), 2);
            assert_eq!(t.get_edit(v(-33, 7, 64)), Some(VoxelValue::Block(513)));
            assert_eq!(t.get_edit(v(2, 3, 4)), Some(VoxelValue::Density(77, 9)));
            assert_eq!(t.get_edit(v(2, 3, 5)), Some(VoxelValue::Block(STONE)));
            assert_eq!(t.get_edit(v(2, 3, 6)), None);
            assert_eq!(t.stats().dirty_chunks, 2);
        },
        Err(_) => panic!("decode failed"),
    }
}

#[test]
fn encode_layout_of_one_block_edit() {
    let mut s = DeltaStore::new(GCConfig::default());
    s.set_voxel(v(-1, 0, 0), VoxelValue::Block(0x0102));
    let bytes = s.encode();
    let expected: Vec<u8> = vec![
        68, 76, 84, 65, 1, 0, 0, 0, 1, 0, 0, 0, // header
        255, 255, 255, 255, 0, 0, 0, 0, 0, 0, 0, 0, // chunk (-1, 0, 0)
        1, 0, 0, 0, // one modification
        31, 0, 0, 0, 0, 2, 1, // index 31, block 0x0102
    ];
    assert_eq!(bytes, expected);
}

#[test]
fn decode_errors() {
    assert!(matches!(DeltaStore::decode(&vec![]), Err(DecodeError::UnexpectedEof)));
    assert!(matches!(DeltaStore::decode(&b"DLT".to_vec()), Err(DecodeError::UnexpectedEof)));
    assert!(matches!(
        DeltaStore::decode(&b"NOPE\x01\x00\x00\x00\x00\x00\x00\x00".to_vec()),
        Err(DecodeError::InvalidMagic)
    ));
    assert!(matches!(DeltaStore::decode(&b"DLTA\x01\x00".to_vec()), Err(DecodeError::UnexpectedEof)));
    let mut truncated: Vec<u8> = b"DLTA".to_vec();
    truncated.extend_from_slice(&[1, 0, 0, 0, 1, 0, 0, 0]);
    truncated.extend_from_slice(&[0; 15]);
    assert!(matches!(DeltaStore::decode(&truncated), Err(DecodeError::UnexpectedEof)));
    // One chunk announcing two modifications, cut off after the first (index 40000).
    let mut cut: Vec<u8> = b"DLTA".to_vec();
    cut.extend_from_slice(&[1, 0, 0, 0, 1, 0, 0, 0]);
    cut.extend_from_slice(&[0; 12]);
    cut.extend_from_slice(&[2, 0, 0, 0]);
    cut.extend_from_slice(&[0x40, 0x9c, 0, 0, 0, 1, 0]);
    assert_eq!(cut.len(), 35);
    assert!(matches!(DeltaStore::decode(&cut), Err(DecodeError::UnexpectedEof)));
    let empty: Vec<u8> = b"DLTA\x01\x00\x00\x00\x00\x00\x00\x00".to_vec();
    match DeltaStore::decode(&empty) {
        Ok(t) => assert_eq!(t.chunk_count(), 0),
        Err(_) => panic!("empty store refused"),
    }
}

/// A saved store with chunk (0, 0, 0) holding one modification at `index`.
fn one_mod_store(index: u32, block: u16) -> Vec<u8> {
    let mut b: Vec<u8> = b"DLTA".to_vec();
    b.extend_from_slice(&[1, 0, 0, 0, 1, 0, 0, 0]);
    b.extend_from_slice(&[0; 12]);
    b.extend_from_slice(&[1, 0, 0, 0]);
    b.extend_from_slice(&index.to_le_bytes());
    b.push(0);
    b.extend_from_slice(&block.to_le_bytes());
    b
}

#[test]
fn decode_accepts_index_beyond_chunk() {
    let s = DeltaStore::decode(&one_mod_store(40000, 3)).unwrap();
    assert_eq!(s.chunk_count(), 1);
    assert_eq!(s.stats().total_deltas, 1);
    assert_eq!(s.encode(), one_mod_store(40000, 3));
}

#[test]
fn apply_reaches_voxel_of_chunk_above_through_index() {
    // Index 32768 + 5 of chunk (0, 0, 0) lands on voxel (5, 0, 32), in chunk (0, 0, 1).
    let s = DeltaStore::decode(&one_mod_store(32773, 7)).unwrap();
    assert_eq!(s.get_edit(v(5, 0, 32)), None);
    let mut d = VoxelData::new(v(8, 1, 40));
    s.apply_to(&mut d, v(0, 0, 0), v(7, 0, 39));
    assert_eq!(d.get(5, 0, 32), Some(VoxelValue::Block(7)));
    assert_eq!(d.values.iter().filter(|x| **x == VoxelValue::Block(7)).count(), 1);
    // A box that starts in chunk (0, 0, 1) does not visit chunk (0, 0, 0).
    let mut e = VoxelData::new(v(8, 1, 8));
    s.apply_to(&mut e, v(0, 0, 32), v(7, 0, 39));
    assert_eq!(e.get(5, 0, 0), Some(VoxelValue::Block(AIR)));
}

#[test]
fn own_edit_wins_over_edit_from_chunk_below() {
    let mut s = DeltaStore::decode(&one_mod_store(32773, 7)).unwrap();
    s.set_voxel(v(5, 0, 32), VoxelValue::Block(DIRT));
    let mut d = VoxelData::new(v(8, 1, 40));
    s.apply_to(&mut d, v(0, 0, 0), v(7, 0, 39));
    assert_eq!(d.get(5, 0, 32), Some(VoxelValue::Block(DIRT)));
}

#[test]
fn overlay_reads_see_writes() {
    let mut base = GridStoreProvider::new(GridStoreConfig::default());
    assert!(base.write_voxel(v(0, 0, 0), VoxelValue::Block(DIRT)).is_ok());
    let mut p = ProviderWithEdits::new(Arc::new(base), GCConfig::default());
    assert!(p.write_voxel(v(1, 0, 0), VoxelValue::Block(STONE)).is_ok());
    assert!(p.is_writable());
    assert_eq!(p.provider_name(), "ProviderWithEdits");
    let d = p.read_range(v(0, 0, 0), v(2, 0, 0), 0).unwrap();
    assert_eq!(
        d.values,
        vec![VoxelValue::Block(DIRT), VoxelValue::Block(STONE), VoxelValue::Block(AIR)]
    );
    assert_eq!(p.delta().chunk_count(), 1);
    p.delta_mut().clear();
    let d = p.read_range(v(0, 0, 0), v(2, 0, 0), 0).unwrap();
    assert_eq!(d.values[1], VoxelValue::Block(AIR));
    assert!(matches!(p.read_range(v(0, 0, 0), v(2, 0, 0), 2), Err(ProviderError::InvalidLOD)));
}

#[test]
fn job_queue_runs_jobs_in_order() {
    let mut q = JobQueue::new();
    q.push(ChunkJob::Generate { position: v(1, 0, 0) });
    q.push_batch(vec![
        ChunkJob::Upload { position: v(2, 0, 0), mesh: MeshData::new() },
        ChunkJob::Physics { position: v(3, 0, 0) },
        ChunkJob::Mesh { position: v(4, 0, 0), chunk: Arc::new(Chunk::new(v(4, 0, 0))) },
    ]);
    assert_eq!(q.get_stats().pending_count, 4);

    match q.process_next() {
        Some(WorkOrder::Work(ChunkJob::Generate { position })) => assert_eq!(position, v(1, 0, 0)),
        _ => panic!("expected the generate job"),
    }
    q.complete(JobOutcome::Generated { position: v(1, 0, 0), chunk: Chunk::new(v(1, 0, 0)), elapsed_us: 250 });
    assert!(matches!(q.process_next(), Some(WorkOrder::Done)));
    assert!(matches!(q.process_next(), Some(WorkOrder::Done)));
    match q.process_next() {
        Some(WorkOrder::Work(ChunkJob::Mesh { position, .. })) => assert_eq!(position, v(4, 0, 0)),
        _ => panic!("expected the mesh job"),
    }
    q.complete(JobOutcome::Failed);
    assert!(q.process_next().is_none());
    q.finish_round();
    let st = q.get_stats();
    assert_eq!(st.total_generated, 1);
    assert_eq!(st.total_uploaded, 1);
    assert_eq!(st.total_meshed, 0);
    assert_eq!(st.total_generation_time_us, 250);
    assert_eq!(st.pending_count, 0);
    assert_eq!(st.completed_count, 3);

    let results = q.drain_completed();
    assert_eq!(results.len(), 3);
    assert!(matches!(results[0], JobResult::Generated { position, .. } if position == v(1, 0, 0)));
    assert!(matches!(results[1], JobResult::Uploaded { position } if position == v(2, 0, 0)));
    assert!(matches!(results[2], JobResult::PhysicsReady { position } if position == v(3, 0, 0)));
    assert_eq!(q.get_stats().completed_count, 0);
}

#[test]
fn job_queue_batches_and_clear() {
    let mut q = JobQueue::new();
    q.complete(JobOutcome::GeneratedBatch {
        chunks: vec![(v(0, 0, 0), Chunk::new(v(0, 0, 0))), (v(0, 1, 0), Chunk::new(v(0, 1, 0)))],
        elapsed_us: 10,
    });
    q.complete(JobOutcome::MeshedBatch { meshes: vec![(v(0, 0, 0), MeshData::new())], elapsed_us: 5 });
    q.complete(JobOutcome::Meshed { position: v(0, 0, 0), mesh: MeshData::new(), elapsed_us: u64::MAX });
    let st = q.get_stats();
    assert_eq!(st.total_generated, 2);
    assert_eq!(st.total_meshed, 2);
    assert_eq!(st.total_meshing_time_us, u64::MAX);
    q.push(ChunkJob::Physics { position: v(0, 0, 0) });
    q.clear();
    assert!(q.process_next().is_none());
    assert_eq!(q.drain_completed().len(), 0);
}

#[test]
fn chunk_times_follow_modification_order() {
    let mut s = DeltaStore::new(GCConfig::default());
    s.set_voxel(v(0, 0, 0), VoxelValue::Block(STONE));
    s.set_voxel(v(40, 0, 0), VoxelValue::Block(STONE));
    s.set_voxel(v(1, 0, 0), VoxelValue::Block(DIRT));
    assert_eq!(s.chunk_times(), vec![(v(0, 0, 0), 2), (v(1, 0, 0), 1)]);
}

#[test]
fn grid_store_can_write_until_version_is_full() {
    let mut store = GridStoreProvider::new(GridStoreConfig::default());
    assert!(store.can_write(v(1, 1, 1), VoxelValue::Block(STONE)));
    let mut full = ChunkData::new();
    full.version = u32::MAX;
    store.insert_chunk(v(0, 0, 0), full);
    assert!(!store.can_write(v(1, 1, 1), VoxelValue::Block(STONE)));
    assert!(store.can_write(v(1, 1, 1), VoxelValue::Density(200, 1)));
    assert!(store.can_write(v(40, 1, 1), VoxelValue::Block(STONE)));
    let p = ProviderWithEdits::new(Arc::new(store), GCConfig::default());
    assert!(p.can_write(v(1, 1, 1), VoxelValue::Block(STONE)));
}
