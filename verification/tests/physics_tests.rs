//! Rolling-body physics behaviour.

use rollcore::player::{
    FRICTION_FX, InputState, JUMP_FORCE_FX, MAX_SPEED_FX, PLAYER_MASS_FX, PlayerPhysics,
    SPHERE_RADIUS_FX, move_player, spawn_position,
};
use rollcore::terrain::get_terrain_height;
use rollcore::vec3::Vec3Fx;

fn no_input() -> InputState {
    InputState { forward: false, back: false, left: false, right: false, jump: false }
}

/// The default physics state: at rest, default mass, airborne.
#[test]
fn default_physics_state() {
    let p = PlayerPhysics::default();
    assert_eq!(p.velocity, Vec3Fx { x: 0, y: 0, z: 0 });
    assert_eq!(p.angular_velocity, Vec3Fx { x: 0, y: 0, z: 0 });
    assert_eq!(p.momentum, Vec3Fx { x: 0, y: 0, z: 0 });
    assert_eq!(p.mass, PLAYER_MASS_FX);
    assert!(!p.grounded);
}

/// The spawn point rests the sphere on the terrain surface at the origin.
#[test]
fn spawn_on_surface() {
    let s = spawn_position();
    assert_eq!(s.x, 0);
    assert_eq!(s.z, 0);
    assert_eq!(s.y, get_terrain_height(0, 0) + SPHERE_RADIUS_FX);
}

/// Ground clamp invariant: dropped from above, the body never ends a tick
/// below the terrain surface plus its radius.
#[test]
fn ground_clamp_invariant() {
    let mut pos = Vec3Fx { x: 0, y: 10 * 65536, z: 0 };
    let mut phys = PlayerPhysics::default();
    let input = no_input();
    let dt: i64 = 1092;  // ~1/60 s
    for _ in 0..300 {
        move_player(&mut pos, &mut phys, &input, dt);
        let floor = get_terrain_height(pos.x, pos.z) + SPHERE_RADIUS_FX;
        assert!(pos.y >= floor);
    }
}

/// Speed clamp invariant: holding a diagonal input down a slope, the
/// horizontal speed squared never exceeds the squared maximum.
#[test]
fn speed_clamp_invariant() {
    let mut pos = spawn_position();
    let mut phys = PlayerPhysics::default();
    let input = InputState { forward: true, back: false, left: false, right: true, jump: false };
    let dt: i64 = 3277;  // ~1/20 s
    for _ in 0..400 {
        move_player(&mut pos, &mut phys, &input, dt);
        let sq = (phys.velocity.x as i128) * (phys.velocity.x as i128) + (phys.velocity.z as i128)
            * (phys.velocity.z as i128);
        assert!(sq <= (MAX_SPEED_FX as i128) * (MAX_SPEED_FX as i128));
    }
}

/// Momentum decay: at a spot where the terrain bottoms out flat (zero
/// gradient), with no input and negligible stored momentum, each grounded
/// tick multiplies the horizontal velocity by exactly the friction factor, so
/// speed decays geometrically.
#[test]
fn momentum_decay_geometric() {
    // A flat valley floor: the height field bottoms out here, so the central
    // difference gradient is exactly zero.
    let fx: i64 = 11403264;
    let fz: i64 = -393216;
    let h = get_terrain_height(fx, fz);
    assert_eq!(h, -524288);
    assert_eq!(get_terrain_height(fx - 32768, fz), get_terrain_height(fx + 32768, fz));
    assert_eq!(get_terrain_height(fx, fz - 32768), get_terrain_height(fx, fz + 32768));

    let mut pos = Vec3Fx { x: fx, y: h + SPHERE_RADIUS_FX, z: fz };
    let mut phys = PlayerPhysics::default();
    phys.grounded = true;
    // Slow enough that the lagged momentum — which converges toward the
    // velocity — stays below the blend threshold on every tick.
    phys.velocity = Vec3Fx { x: 1200, y: 0, z: 1200 };
    let input = no_input();
    let dt: i64 = 1092;
    let mut expected_x: i64 = 1200;
    let mut expected_z: i64 = 1200;
    for n in 0..20 {
        move_player(&mut pos, &mut phys, &input, dt);
        expected_x = expected_x * FRICTION_FX / 65536;
        expected_z = expected_z * FRICTION_FX / 65536;
        assert_eq!(phys.velocity.x, expected_x);
        assert_eq!(phys.velocity.z, expected_z);
        // The exact fixed-point decay tracks the ideal geometric decay.
        let ideal = 1200.0f64 * 0.95f64.powi(n + 1);
        assert!((phys.velocity.x as f64 - ideal).abs() < 25.0);
    }
}

/// A grounded jump sets the vertical impulse and lifts the body off.
#[test]
fn jump_sets_vertical_impulse() {
    let mut pos = spawn_position();
    let mut phys = PlayerPhysics::default();
    phys.grounded = true;
    let input = InputState { forward: false, back: false, left: false, right: false, jump: true };
    move_player(&mut pos, &mut phys, &input, 1092);
    assert_eq!(phys.velocity.y, JUMP_FORCE_FX);
}

/// Grounded directional input accelerates the body along that direction.
#[test]
fn input_accelerates() {
    // On flat ground, so no slope force bends the path sideways.
    let fx: i64 = 11403264;
    let fz: i64 = -393216;
    let h = get_terrain_height(fx, fz);
    let mut pos = Vec3Fx { x: fx, y: h + SPHERE_RADIUS_FX, z: fz };
    let mut phys = PlayerPhysics::default();
    phys.grounded = true;
    let input = InputState { forward: false, back: false, left: false, right: true, jump: false };
    let dt: i64 = 3277;
    for _ in 0..10 {
        move_player(&mut pos, &mut phys, &input, dt);
    }
    assert!(phys.velocity.x > 0);
    assert_eq!(phys.velocity.z, 0);
}

/// Rolling spin direction: while rolling, the angular velocity lies in the
/// plane, perpendicular to travel, with the sign that turns the sphere's
/// visible top toward the direction of travel — negative z for travel along
/// positive x.
#[test]
fn rolling_spin_direction() {
    // Flat ground, so the path stays straight along x.
    let fx: i64 = 11403264;
    let fz: i64 = -393216;
    let h = get_terrain_height(fx, fz);
    let mut pos = Vec3Fx { x: fx, y: h + SPHERE_RADIUS_FX, z: fz };
    let mut phys = PlayerPhysics::default();
    phys.grounded = true;
    let input = InputState { forward: false, back: false, left: false, right: true, jump: false };
    for _ in 0..10 {
        move_player(&mut pos, &mut phys, &input, 3277);
    }
    assert!(phys.velocity.x > 6554);  // fast enough to roll
    assert!(phys.angular_velocity.z < 0);
    assert_eq!(phys.angular_velocity.x, 0);
    assert_eq!(phys.angular_velocity.y, 0);
}

/// The previous position is recorded each tick.
#[test]
fn prev_position_recorded() {
    let mut pos = spawn_position();
    let before = pos;
    let mut phys = PlayerPhysics::default();
    move_player(&mut pos, &mut phys, &no_input(), 1092);
    assert_eq!(phys.prev_position, before);
}
