//! Targeting and ballistic flight behaviour.

use rollcore::camera::MouseLook;
use rollcore::projectile::{
    JITTER_XZ_FX, JITTER_Y_FX, LAUNCH_SPEED_MAX_FX, LAUNCH_SPEED_MIN_FX, PROJECTILE_LIFETIME_FX,
    PROJECTILE_SPEED_FX, Projectile, STUCK_GRACE_FX, projectile_position, range_equation_speed,
    spawn_projectile, update_projectile, update_projectiles,
};
use rollcore::terrain::get_terrain_height;
use rollcore::vec3::Vec3Fx;

fn no_pick() -> MouseLook {
    MouseLook { target_position: Vec3Fx { x: 0, y: 0, z: 0 }, is_initialized: false }
}

fn pick_at(x: i64, y: i64, z: i64) -> MouseLook {
    MouseLook { target_position: Vec3Fx { x, y, z }, is_initialized: true }
}

/// Fire suppression: with no valid target pick, firing produces nothing.
#[test]
fn fire_suppressed_without_pick() {
    let player = Vec3Fx { x: 0, y: 65536, z: 0 };
    let r = spawn_projectile(player, &no_pick());
    assert!(r.is_none());
}

/// With a valid pick, firing produces a projectile launched from just above
/// the player, aimed at the pick, within the jitter bounds of the solved
/// velocity, at full lifetime and age zero.
#[test]
fn fire_with_pick() {
    let player = Vec3Fx { x: 0, y: 0, z: 0 };
    let look = pick_at(10 * 65536, 0, 0);
    let p = spawn_projectile(player, &look).unwrap();
    assert_eq!(p.start_position, Vec3Fx { x: 0, y: 19661, z: 0 });
    assert_eq!(p.target_position, look.target_position);
    assert_eq!(p.lifetime, PROJECTILE_LIFETIME_FX);
    assert_eq!(p.age, 0);
    assert_eq!(p.speed, PROJECTILE_SPEED_FX);
    // Level shot at ten units: the clamp does not bind, so the velocity is
    // the range-equation speed times the 0.9 level factor, aimed along x at
    // sixty degrees, plus jitter.
    let solved = range_equation_speed(10 * 65536) * 58982 / 65536;
    assert!(LAUNCH_SPEED_MIN_FX <= solved && solved <= LAUNCH_SPEED_MAX_FX);
    let vx_solved: i64 = solved * 32768 / 65536;
    let vy_solved: i64 = solved * 56756 / 65536;
    assert!((p.initial_velocity.x - vx_solved).abs() <= JITTER_XZ_FX);
    assert!(p.initial_velocity.y - vy_solved >= 0);
    assert!(p.initial_velocity.y - vy_solved <= JITTER_Y_FX);
    assert!(p.initial_velocity.z.abs() <= JITTER_XZ_FX);
}

/// The fire path reaches its target: a level shot at ten units lands near
/// ten units out — short only by the square of the 0.9 level-shot height
/// correction, never swallowed by the speed clamp.
#[test]
fn fire_lands_near_target() {
    let player = Vec3Fx { x: 0, y: 0, z: 0 };
    let look = pick_at(10 * 65536, 0, 0);
    let p = spawn_projectile(player, &look).unwrap();
    let vx = p.initial_velocity.x as f64 / 65536.0;
    let vy = p.initial_velocity.y as f64 / 65536.0;
    let g = 1284506.0 / 65536.0;
    // Time to return to launch height, then the horizontal distance covered.
    let flight_time = 2.0 * vy / g;
    let landing_x = vx * flight_time;
    let expected = 10.0 * 0.9 * 0.9;
    assert!((landing_x - expected).abs() < 0.2);
    assert!(landing_x > 7.5);
}

/// The height correction points the right way: an uphill shot is launched
/// faster than a level one, and a downhill shot slower.
#[test]
fn height_correction_direction() {
    let player = Vec3Fx { x: 0, y: 0, z: 0 };
    let level = spawn_projectile(player, &pick_at(10 * 65536, 0, 0)).unwrap();
    let uphill = spawn_projectile(player, &pick_at(10 * 65536, 5 * 65536, 0)).unwrap();
    let downhill = spawn_projectile(player, &pick_at(10 * 65536, -5 * 65536, 0)).unwrap();
    // The vertical component is speed * sin 60, so it orders the speeds even
    // under jitter.
    assert!(uphill.initial_velocity.y > level.initial_velocity.y + 2 * JITTER_Y_FX);
    assert!(level.initial_velocity.y > downhill.initial_velocity.y + 2 * JITTER_Y_FX);
}

/// The launch jitter is random: repeated shots at the same target do not all
/// carry the same velocity.
#[test]
fn launch_jitter_varies() {
    let player = Vec3Fx { x: 0, y: 65536, z: 0 };
    let look = pick_at(10 * 65536, 0, 0);
    let first = spawn_projectile(player, &look).unwrap().initial_velocity;
    let mut varied = false;
    for _ in 0..64 {
        let v = spawn_projectile(player, &look).unwrap().initial_velocity;
        if v != first {
            varied = true;
        }
    }
    assert!(varied);
}

/// Projectile closed form: with start (0,0,0), velocity (1,5,0) and gravity
/// 19.6, the height returns to zero at t = 2 * 5 / 19.6 seconds — the
/// parabola round-trips through the launch height.
#[test]
fn closed_form_round_trip() {
    let p = Projectile {
        start_position: Vec3Fx { x: 0, y: 0, z: 0 },
        target_position: Vec3Fx { x: 0, y: 0, z: 0 },
        initial_velocity: Vec3Fx { x: 65536, y: 5 * 65536, z: 0 },
        lifetime: PROJECTILE_LIFETIME_FX,
        age: 0,
        speed: PROJECTILE_SPEED_FX,
    };
    // t = 10 / 19.6 s, in fixed-point ticks.
    let t: i64 = 33438;
    let pos = projectile_position(&p, t);
    assert!(pos.y.abs() <= 16);
    // And the apex lies strictly above the launch height halfway there.
    let apex = projectile_position(&p, t / 2);
    assert!(apex.y > 0);
}

/// Trajectory reaches target: for a launcher at the origin and a target ten
/// units along x, the range-equation speed at the fixed sixty-degree
/// elevation lands the ideal trajectory back at the target distance —
/// the solver's equation is self-consistent.
#[test]
fn range_equation_self_consistent() {
    let dist_fx: i64 = 10 * 65536;
    let speed_fx = range_equation_speed(dist_fx);
    let speed = speed_fx as f64 / 65536.0;
    let vx = speed * 0.5;
    let vy = speed * (56756.0 / 65536.0);
    let g = 1284506.0 / 65536.0;
    let flight_time = 2.0 * vy / g;
    let landing_x = vx * flight_time;
    assert!((landing_x - 10.0).abs() < 0.5);
}

/// A projectile meeting the terrain snaps onto the surface, is flagged
/// stuck, and gets the one-time grace period; an expired one reports nothing.
#[test]
fn stick_and_expire() {
    let start_y = get_terrain_height(0, 0) + 6 * 65536;
    let mut p = Projectile {
        start_position: Vec3Fx { x: 0, y: start_y, z: 0 },
        target_position: Vec3Fx { x: 0, y: 0, z: 0 },
        // Straight down at four units per second.
        initial_velocity: Vec3Fx { x: 0, y: -262144, z: 0 },
        lifetime: PROJECTILE_LIFETIME_FX,
        age: 0,
        speed: PROJECTILE_SPEED_FX,
    };
    let dt: i64 = 65536;  // one-second ticks
    let r1 = update_projectile(&mut p, dt).unwrap();
    // After one second at 4 units/s downward plus gravity drop, it is below
    // ground and snapped onto the surface.
    assert_eq!(r1.y, get_terrain_height(r1.x, r1.z));
    assert_eq!(p.speed, 0);
    assert_eq!(p.lifetime, p.age + STUCK_GRACE_FX);
    let lifetime_after_stick = p.lifetime;
    // A stuck projectile is not granted a second grace period.
    let _ = update_projectile(&mut p, dt).unwrap();
    assert_eq!(p.lifetime, lifetime_after_stick);
    // Once the age reaches the lifetime, the projectile reports nothing.
    let mut done = false;
    for _ in 0..20 {
        if update_projectile(&mut p, dt).is_none() {
            done = true;
            break;
        }
    }
    assert!(done);
}

/// The list update removes expired projectiles, keeps the rest in order, and
/// reports one position per survivor.
#[test]
fn list_update_filters_expired() {
    let mk = |age: i64| Projectile {
        start_position: Vec3Fx { x: 0, y: 50 * 65536, z: 0 },
        target_position: Vec3Fx { x: 0, y: 0, z: 0 },
        initial_velocity: Vec3Fx { x: 65536, y: 0, z: 0 },
        lifetime: PROJECTILE_LIFETIME_FX,
        age,
        speed: PROJECTILE_SPEED_FX,
    };
    // The second entry is one tick from expiry.
    let mut list = vec![mk(0), mk(PROJECTILE_LIFETIME_FX - 1), mk(65536)];
    let positions = update_projectiles(&mut list, 65536);
    assert_eq!(list.len(), 2);
    assert_eq!(positions.len(), 2);
    assert_eq!(list[0].age, 65536);
    assert_eq!(list[1].age, 2 * 65536);
    // Flying high above the valley: position follows the closed form.
    assert_eq!(positions[0].x, 65536);
    assert_eq!(positions[0].y, 50 * 65536 - 642253);
}
