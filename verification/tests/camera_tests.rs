//! Picking and camera blend behaviour.

use rollcore::camera::{
    CAMERA_OFFSET_X, CAMERA_OFFSET_Y, CAMERA_OFFSET_Z, CURSOR_WEIGHT_FX, EYE_HEIGHT_FX, MouseLook,
    cursor_raycasting, update_camera_position,
};
use rollcore::terrain::get_terrain_height;
use rollcore::vec3::Vec3Fx;

/// A ray pointed straight down from above the terrain hits it, and the hit
/// lies exactly on the surface.
#[test]
fn raycast_down_hits_surface() {
    let origin = Vec3Fx { x: 0, y: 20 * 65536, z: 0 };
    let dir = Vec3Fx { x: 0, y: -65536, z: 0 };
    let hit = cursor_raycasting(origin, dir).unwrap();
    assert_eq!(hit.x, 0);
    assert_eq!(hit.z, 0);
    assert_eq!(hit.y, get_terrain_height(0, 0));
}

/// A ray pointed upward never meets the terrain.
#[test]
fn raycast_up_misses() {
    let origin = Vec3Fx { x: 0, y: 20 * 65536, z: 0 };
    let dir = Vec3Fx { x: 0, y: 65536, z: 0 };
    assert!(cursor_raycasting(origin, dir).is_none());
}

/// A slanted ray reports the first sample at or below the surface, snapped
/// onto the terrain at that sample's horizontal position.
#[test]
fn raycast_slanted_snaps_to_surface() {
    let origin = Vec3Fx { x: -5 * 65536, y: 12 * 65536, z: 3 * 65536 };
    let dir = Vec3Fx { x: 40000, y: -50000, z: 10000 };
    let hit = cursor_raycasting(origin, dir).unwrap();
    assert_eq!(hit.y, get_terrain_height(hit.x, hit.z));
}

/// With a saturated smoothing factor the camera lands exactly on the player
/// plus the fixed offset, and with no pick it looks at the player's eyes.
#[test]
fn camera_follows_player() {
    let mut cam = Vec3Fx { x: 0, y: 0, z: 0 };
    let player = Vec3Fx { x: 4 * 65536, y: 2 * 65536, z: -3 * 65536 };
    let look = MouseLook::new();
    // dt of 0.25 s saturates the smoothing factor 5 * dt at one.
    let target = update_camera_position(&mut cam, player, &look, 16384);
    assert_eq!(cam.x, player.x + CAMERA_OFFSET_X);
    assert_eq!(cam.y, player.y + CAMERA_OFFSET_Y);
    assert_eq!(cam.z, player.z + CAMERA_OFFSET_Z);
    assert_eq!(target, Vec3Fx { x: player.x, y: player.y + EYE_HEIGHT_FX, z: player.z });
}

/// With a pick, the look target is blended toward the pick by the cursor
/// weight; the camera still keeps the player in view.
#[test]
fn camera_blends_toward_pick() {
    let mut cam = Vec3Fx { x: 0, y: 0, z: 0 };
    let player = Vec3Fx { x: 0, y: 0, z: 0 };
    let look = MouseLook {
        target_position: Vec3Fx { x: 10 * 65536, y: 0, z: 0 },
        is_initialized: true,
    };
    let target = update_camera_position(&mut cam, player, &look, 16384);
    // Blend from the eye point toward the pick by the cursor weight.
    let expected_x = (10i64 * 65536) * (CURSOR_WEIGHT_FX) / 65536;
    assert_eq!(target.x, expected_x);
    assert_eq!(target.z, 0);
    // The eye height shrinks by the cursor weight toward the pick's height.
    let eye = EYE_HEIGHT_FX;
    let expected_y = eye + (0 - eye) * CURSOR_WEIGHT_FX / 65536;
    assert_eq!(target.y, expected_y);
}

/// The camera smoothing is a partial step for small time deltas.
#[test]
fn camera_partial_smoothing() {
    let mut cam = Vec3Fx { x: 0, y: 0, z: 0 };
    let player = Vec3Fx { x: 65536, y: 0, z: 0 };
    let look = MouseLook::new();
    // dt of 0.05 s: factor 0.25.
    let _ = update_camera_position(&mut cam, player, &look, 3277);
    // A quarter of the way toward player.x + offset.
    let target_x = player.x + CAMERA_OFFSET_X;
    let f = 5 * 3277;
    let expected = 0 + (target_x - 0) * f / 65536;
    assert_eq!(cam.x, expected);
}
