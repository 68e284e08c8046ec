//! Height field and chunk mesh behaviour.

use rollcore::mesh::{MeshData, create_terrain_mesh};
use rollcore::terrain::{
    CHUNK_SIZE_FX, TERRAIN_HEIGHT_SCALE_FX, WORLD_LIM, get_terrain_height,
};
use rollcore::vec3::Vec3Fx;

/// Height queries are deterministic: repeated calls with identical
/// coordinates return bit-identical results.
#[test]
fn height_deterministic() {
    let samples: Vec<(i64, i64)> = vec![
        (0, 0),
        (65536, -65536),
        (12345678, 87654321),
        (-WORLD_LIM, WORLD_LIM),
        (WORLD_LIM, -WORLD_LIM),
    ];
    for (x, z) in samples {
        let a = get_terrain_height(x, z);
        let b = get_terrain_height(x, z);
        assert_eq!(a, b);
    }
}

/// The height never leaves the configured terrain scale.
#[test]
fn height_within_scale() {
    let mut x: i64 = -50 * 65536;
    while x <= 50 * 65536 {
        let h = get_terrain_height(x, 7 * 65536);
        assert!(-TERRAIN_HEIGHT_SCALE_FX <= h && h <= TERRAIN_HEIGHT_SCALE_FX);
        x += 3 * 65536;
    }
}

/// A specific sample, pinned: the height at the origin.
#[test]
fn height_at_origin() {
    assert_eq!(get_terrain_height(0, 0), -89984);
}

/// The mesh has the fixed grid shape: 25 x 25 vertices, 24 x 24 cells with
/// two triangles each, and every index in range.
#[test]
fn mesh_shape() {
    let m: MeshData = create_terrain_mesh(0, 0);
    assert_eq!(m.positions.len(), 625);
    assert_eq!(m.normals.len(), 625);
    assert_eq!(m.uvs.len(), 625);
    assert_eq!(m.indices.len(), 3456);
    for &ix in m.indices.iter() {
        assert!((ix as usize) < 625);
    }
    // Corner vertices sit on the chunk-local square.
    assert_eq!(m.positions[0].x, 0);
    assert_eq!(m.positions[0].z, 0);
    assert_eq!(m.positions[624].x, CHUNK_SIZE_FX);
    assert_eq!(m.positions[624].z, CHUNK_SIZE_FX);
    // Texture coordinates are grid fractions from 0 to 1.
    assert_eq!(m.uvs[0].u, 0);
    assert_eq!(m.uvs[0].v, 0);
    assert_eq!(m.uvs[624].u, 65536);
    assert_eq!(m.uvs[624].v, 65536);
}

/// Vertex heights are world-space heights sampled at world coordinates.
#[test]
fn mesh_heights_are_world_heights() {
    let m: MeshData = create_terrain_mesh(1, -2);
    for j in 0..25usize {
        for i in 0..25usize {
            let p: Vec3Fx = m.positions[j * 25 + i];
            let wx = 1 * CHUNK_SIZE_FX + p.x;
            let wz = -2 * CHUNK_SIZE_FX + p.z;
            assert_eq!(p.y, get_terrain_height(wx, wz));
        }
    }
}

/// Chunk seam continuity: adjacent chunks share bit-identical heights at
/// every vertex of their common edge, in both grid directions.
#[test]
fn mesh_seam_continuity() {
    let a: MeshData = create_terrain_mesh(0, 0);
    let bx: MeshData = create_terrain_mesh(1, 0);
    let bz: MeshData = create_terrain_mesh(0, 1);
    for j in 0..25usize {
        // Right edge of (0,0) against left edge of (1,0).
        assert_eq!(a.positions[j * 25 + 24].y, bx.positions[j * 25].y);
        // Far edge of (0,0) against near edge of (0,1).
        assert_eq!(a.positions[24 * 25 + j].y, bz.positions[j].y);
    }
}

/// Every vertex normal is a unit-scaled vector (within fixed-point rounding)
/// pointing out of the surface.
#[test]
fn mesh_normals_normalized() {
    let m: MeshData = create_terrain_mesh(-3, 5);
    for k in 0..625usize {
        let n: Vec3Fx = m.normals[k];
        let len2 = (n.x as i128) * (n.x as i128) + (n.y as i128) * (n.y as i128) + (n.z as i128)
            * (n.z as i128);
        // Rounding the square root down can leave the rescaled vector a few
        // ticks over or under unit length, never more.
        let upper = 65560i128 * 65560i128;
        let lower = 65400i128 * 65400i128;
        assert!(len2 <= upper);
        assert!(len2 >= lower);
        assert!(n.y > 0);
    }
}
