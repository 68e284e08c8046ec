//! Targeting and camera blend: the cursor pick state, the ray-march pick
//! against the height field, and the follow-camera position and look-target
//! blend.
//!
//! Until a first valid pick occurs, everything that depends on the pick —
//! firing, blending the camera toward the cursor — is suppressed.

use vstd::prelude::*;
use crate::fixed::{
    FX_ONE, abs_i, clamp_i, fx_clamp, fx_lerp, fx_mul, fxlerp, fxmul, lemma_fxmul_bound,
    lemma_mul_le_nonneg, };
use crate::player::{PLAY_LIM, V3, vw};
use crate::terrain::{WORLD_LIM, get_terrain_height, spec_terrain_height};
use crate::vec3::Vec3Fx;

verus! {

/// Largest camera coordinate magnitude: the playable volume plus the fixed
/// camera offset.
pub const CAM_LIM: i64 = 0x1F_FE00_0000 + 458752;

/// Fixed offset of the camera behind and above the player.
pub const CAMERA_OFFSET_X: i64 = -196608;

pub const CAMERA_OFFSET_Y: i64 = 229376;

pub const CAMERA_OFFSET_Z: i64 = 393216;

/// Eye height added to the player position for look targets.
pub const EYE_HEIGHT_FX: i64 = 32768;

/// Weight of the pick point in the blended look target.
pub const CURSOR_WEIGHT_FX: i64 = 39322;

/// Camera position smoothing rate, per second.
pub const CAMERA_SMOOTHNESS: i64 = 5;

/// Distance along the ray where pick sampling starts.
pub const RAY_START_DIST_FX: i64 = 327680;

/// Spacing of the pick samples along the ray.
pub const RAY_STEP_FX: i64 = 131072;

/// How many points along the ray are sampled.
pub const RAY_SAMPLES: i64 = 20;

/// The last cursor pick: a world position and whether any pick happened yet.
#[derive(Clone, Copy, Debug, PartialEq, Eq, Structural)]
pub struct MouseLook {
    pub target_position: Vec3Fx,
    pub is_initialized: bool,
}

/// A pick state is well formed when its target lies in the playable volume.
pub open spec fn wf_mouselook(m: MouseLook) -> bool {
    m.target_position.bounded(PLAY_LIM as int)
}

impl MouseLook {
    /// The initial pick state: nothing picked yet.
    pub fn new() -> (r: MouseLook)
        ensures
            !r.is_initialized,
            r.target_position == (Vec3Fx { x: 0, y: 0, z: 0 }),
            wf_mouselook(r),
    {
        MouseLook { target_position: Vec3Fx { x: 0, y: 0, z: 0 }, is_initialized: false }
    }
}

/// The i-th sample point along the pick ray.
pub open spec fn ray_point_spec(origin: V3, dir: V3, i: int) -> V3 {
    V3 {
        x: origin.x + fxmul(dir.x, RAY_START_DIST_FX as int) + fxmul(dir.x, i * RAY_STEP_FX),
        y: origin.y + fxmul(dir.y, RAY_START_DIST_FX as int) + fxmul(dir.y, i * RAY_STEP_FX),
        z: origin.z + fxmul(dir.z, RAY_START_DIST_FX as int) + fxmul(dir.z, i * RAY_STEP_FX),
    }
}

/// The i-th sample lies at or below the terrain.
pub open spec fn ray_hit_at_spec(origin: V3, dir: V3, i: int) -> bool {
    let s = ray_point_spec(origin, dir, i);
    s.y <= spec_terrain_height(s.x, s.z)
}

/// The index of the first sample at or below the terrain, from `i` on.
pub open spec fn first_hit_spec(origin: V3, dir: V3, i: int) -> Option<int>
    decreases RAY_SAMPLES as int - i,
{
    if i < 0 || i >= RAY_SAMPLES as int {
        None
    } else if ray_hit_at_spec(origin, dir, i) {
        Some(i)
    } else {
        first_hit_spec(origin, dir, i + 1)
    }
}

/// The world position a hit at sample `i` reports: the sample's horizontal
/// position, snapped onto the terrain surface.
pub open spec fn hit_point_spec(origin: V3, dir: V3, i: int) -> V3 {
    let s = ray_point_spec(origin, dir, i);
    V3 { x: s.x, y: spec_terrain_height(s.x, s.z), z: s.z }
}

/// Ray-vs-terrain picking: walk fixed-size steps along the ray from the
/// camera and report the first sample at or below the terrain, snapped onto
/// the surface. Returns nothing when no sample within range hits. The origin
/// may be anywhere a camera can stand.
pub fn cursor_raycasting(origin: Vec3Fx, dir: Vec3Fx) -> (r: Option<Vec3Fx>)
    requires
        origin.bounded(CAM_LIM as int),
        dir.bounded(2 * FX_ONE as int),
    ensures
        r is None <==> first_hit_spec(vw(origin), vw(dir), 0) is None,
        r is Some ==> ({
            let i = first_hit_spec(vw(origin), vw(dir), 0).unwrap();
            vw(r.unwrap()) == hit_point_spec(vw(origin), vw(dir), i)
        }),
        r is Some ==> r.unwrap().bounded(WORLD_LIM as int),
{
    let mut i: i64 = 0;
    while i < RAY_SAMPLES
        invariant
            0 <= i <= RAY_SAMPLES,
            origin.bounded(CAM_LIM as int),
            dir.bounded(2 * FX_ONE as int),
            first_hit_spec(vw(origin), vw(dir), 0) == first_hit_spec(vw(origin), vw(dir), i as int),
            forall|j: int| 0 <= j < i ==> !ray_hit_at_spec(vw(origin), vw(dir), j),
        decreases RAY_SAMPLES - i,
    {
        proof {
            lemma_mul_le_nonneg(abs_i(vw(dir).x), 327680, 131072, 327680);
            lemma_mul_le_nonneg(abs_i(vw(dir).y), 327680, 131072, 327680);
            lemma_mul_le_nonneg(abs_i(vw(dir).z), 327680, 131072, 327680);
            lemma_fxmul_bound(vw(dir).x, RAY_START_DIST_FX as int, 655360);
            lemma_fxmul_bound(vw(dir).y, RAY_START_DIST_FX as int, 655360);
            lemma_fxmul_bound(vw(dir).z, RAY_START_DIST_FX as int, 655360);
            assert(abs_i((i as int) * RAY_STEP_FX) <= 2490368);
            lemma_mul_le_nonneg(abs_i(vw(dir).x), abs_i((i as int) * RAY_STEP_FX), 131072, 2490368);
            lemma_mul_le_nonneg(abs_i(vw(dir).y), abs_i((i as int) * RAY_STEP_FX), 131072, 2490368);
            lemma_mul_le_nonneg(abs_i(vw(dir).z), abs_i((i as int) * RAY_STEP_FX), 131072, 2490368);
            lemma_fxmul_bound(vw(dir).x, (i as int) * RAY_STEP_FX, 5242880);
            lemma_fxmul_bound(vw(dir).y, (i as int) * RAY_STEP_FX, 5242880);
            lemma_fxmul_bound(vw(dir).z, (i as int) * RAY_STEP_FX, 5242880);
        }
        let sx: i64 = origin.x + fx_mul(dir.x, RAY_START_DIST_FX) + fx_mul(dir.x, i * RAY_STEP_FX);
        let sy: i64 = origin.y + fx_mul(dir.y, RAY_START_DIST_FX) + fx_mul(dir.y, i * RAY_STEP_FX);
        let sz: i64 = origin.z + fx_mul(dir.z, RAY_START_DIST_FX) + fx_mul(dir.z, i * RAY_STEP_FX);
        let h: i64 = get_terrain_height(sx, sz);
        if sy <= h {
            proof {
                assert(first_hit_spec(vw(origin), vw(dir), i as int) == Some(i as int));
            }
            return Some(Vec3Fx { x: sx, y: h, z: sz });
        }
        proof {
            assert(first_hit_spec(vw(origin), vw(dir), i as int) == first_hit_spec(
                vw(origin),
                vw(dir),
                i as int + 1,
            ));
        }
        i = i + 1;
    }
    None
}

/// One camera tick: smooth the camera position toward the player plus the
/// fixed offset, and report the look target — blended toward the last pick
/// when one exists, else straight at the player's eye height. The rotation
/// toward the look target is the renderer's business.
pub fn update_camera_position(
    cam_pos: &mut Vec3Fx,
    player_pos: Vec3Fx,
    look: &MouseLook,
    dt: i64,
) -> (look_target: Vec3Fx)
    requires
        old(cam_pos).bounded(CAM_LIM as int),
        player_pos.bounded(PLAY_LIM as int),
        wf_mouselook(*look),
        0 <= dt <= FX_ONE,
    ensures
        ({
            let target = (V3 {
                x: player_pos.x + CAMERA_OFFSET_X,
                y: player_pos.y + CAMERA_OFFSET_Y,
                z: player_pos.z + CAMERA_OFFSET_Z,
            });
            let f = clamp_i(CAMERA_SMOOTHNESS * dt, 0, FX_ONE as int);
            vw(*final(cam_pos)) == (V3 {
                x: fxlerp(vw(*old(cam_pos)).x, target.x, f),
                y: fxlerp(vw(*old(cam_pos)).y, target.y, f),
                z: fxlerp(vw(*old(cam_pos)).z, target.z, f),
            })
        }),
        final(cam_pos).bounded(CAM_LIM as int),
        ({
            let eye = (V3 {
                x: player_pos.x as int,
                y: player_pos.y + EYE_HEIGHT_FX,
                z: player_pos.z as int,
            });
            if look.is_initialized {
                vw(look_target) == (V3 {
                    x: fxlerp(eye.x, look.target_position.x as int, CURSOR_WEIGHT_FX as int),
                    y: fxlerp(eye.y, look.target_position.y as int, CURSOR_WEIGHT_FX as int),
                    z: fxlerp(eye.z, look.target_position.z as int, CURSOR_WEIGHT_FX as int),
                })
            } else {
                vw(look_target) == eye
            }
        }),
        look_target.bounded(CAM_LIM as int),
{
    let f: i64 = fx_clamp(CAMERA_SMOOTHNESS * dt, 0, FX_ONE);
    let tx: i64 = player_pos.x + CAMERA_OFFSET_X;
    let ty: i64 = player_pos.y + CAMERA_OFFSET_Y;
    let tz: i64 = player_pos.z + CAMERA_OFFSET_Z;
    let nx: i64 = fx_lerp(cam_pos.x, tx, f);
    let ny: i64 = fx_lerp(cam_pos.y, ty, f);
    let nz: i64 = fx_lerp(cam_pos.z, tz, f);
    *cam_pos = Vec3Fx { x: nx, y: ny, z: nz };
    let ex: i64 = player_pos.x;
    let ey: i64 = player_pos.y + EYE_HEIGHT_FX;
    let ez: i64 = player_pos.z;
    if look.is_initialized {
        Vec3Fx {
            x: fx_lerp(ex, look.target_position.x, CURSOR_WEIGHT_FX),
            y: fx_lerp(ey, look.target_position.y, CURSOR_WEIGHT_FX),
            z: fx_lerp(ez, look.target_position.z, CURSOR_WEIGHT_FX),
        }
    } else {
        Vec3Fx { x: ex, y: ey, z: ez }
    }
}

} // verus!
