//! Chunk streaming behaviour.

use rollcore::chunks::{CHUNK_LOAD_RADIUS, ChunkManager};
use rollcore::terrain::CHUNK_SIZE_FX;

/// Loading a window materializes every chunk in it.
#[test]
fn ensure_loads_window() {
    let mut mgr = ChunkManager::new();
    mgr.ensure_chunks_near(0, 0, 1);
    assert_eq!(mgr.loaded_count(), 9);
    for x in -1..=1i64 {
        for z in -1..=1i64 {
            assert!(mgr.contains(x, z));
        }
    }
    assert!(!mgr.contains(2, 0));
}

/// Idempotent chunk loading: a second call with the same center and radius
/// leaves the chunk index unchanged in size.
#[test]
fn ensure_idempotent() {
    let mut mgr = ChunkManager::new();
    mgr.ensure_chunks_near(3 * CHUNK_SIZE_FX, -2 * CHUNK_SIZE_FX, 2);
    let after_first = mgr.loaded_count();
    assert_eq!(after_first, 25);
    mgr.ensure_chunks_near(3 * CHUNK_SIZE_FX, -2 * CHUNK_SIZE_FX, 2);
    assert_eq!(mgr.loaded_count(), after_first);
}

/// A center anywhere inside a chunk maps to that chunk's window.
#[test]
fn ensure_uses_floor_division() {
    let mut mgr = ChunkManager::new();
    // A center just inside chunk (0, 0), near its far corner.
    mgr.ensure_chunks_near(CHUNK_SIZE_FX - 1, CHUNK_SIZE_FX - 1, 0);
    assert_eq!(mgr.loaded_count(), 1);
    assert!(mgr.contains(0, 0));
    // A center just inside chunk (-1, -1).
    let mut mgr2 = ChunkManager::new();
    mgr2.ensure_chunks_near(-1, -1, 0);
    assert_eq!(mgr2.loaded_count(), 1);
    assert!(mgr2.contains(-1, -1));
}

/// Eviction keeps exactly the loaded chunks inside the keep window.
#[test]
fn evict_far_chunks() {
    let mut mgr = ChunkManager::new();
    mgr.ensure_chunks_near(0, 0, 2);
    assert_eq!(mgr.loaded_count(), 25);
    mgr.evict_far_chunks(0, 0, 1);
    assert_eq!(mgr.loaded_count(), 9);
    for x in -2..=2i64 {
        for z in -2..=2i64 {
            let near = -1 <= x && x <= 1 && -1 <= z && z <= 1;
            assert_eq!(mgr.contains(x, z), near);
        }
    }
}

/// One streaming pass loads the whole window around the player and keeps
/// nothing outside the window plus the margin; repeating it changes nothing.
#[test]
fn manage_streams_window() {
    let mut mgr = ChunkManager::new();
    mgr.manage_terrain_chunks(0, 0);
    let expected = (2 * CHUNK_LOAD_RADIUS + 1) * (2 * CHUNK_LOAD_RADIUS + 1);
    assert_eq!(mgr.loaded_count() as i64, expected);
    mgr.manage_terrain_chunks(0, 0);
    assert_eq!(mgr.loaded_count() as i64, expected);
    // Moving one chunk over streams the next column in; chunks within the
    // margin stay, so the set grows by one column.
    mgr.manage_terrain_chunks(CHUNK_SIZE_FX, 0);
    assert_eq!(mgr.loaded_count() as i64, expected + 2 * CHUNK_LOAD_RADIUS + 1);
    assert!(mgr.contains(1 + CHUNK_LOAD_RADIUS, 0));
    // Jumping far away evicts the whole old neighbourhood.
    mgr.manage_terrain_chunks(10 * CHUNK_SIZE_FX, 0);
    assert_eq!(mgr.loaded_count() as i64, expected);
    assert!(!mgr.contains(0, 0));
    assert!(mgr.contains(10, 0));
}

/// Every loaded chunk carries a generated mesh of the fixed grid shape.
#[test]
fn loaded_chunks_carry_meshes() {
    let mut mgr = ChunkManager::new();
    mgr.ensure_chunks_near(0, 0, 1);
    for c in mgr.loaded_chunks.iter() {
        assert_eq!(c.mesh.positions.len(), 625);
        assert_eq!(c.mesh.indices.len(), 3456);
    }
}
