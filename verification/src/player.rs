//! Rolling-body physics: the per-tick integrator advancing the player sphere
//! from input, gravity, slope, friction, restitution and the ground
//! constraint.
//!
//! Every stage has an exact specification; `step_spec` composes them, and
//! `move_player` is proved to compute precisely that composition. Two
//! invariants ride on the contract: after any tick the body sits on or above
//! the terrain (ground clamp), and its horizontal speed never exceeds the
//! maximum (speed clamp).

use vstd::prelude::*;
use crate::fixed::{
    FX_LIM, FX_ONE, abs_i, clamp_i, fx_clamp, fx_lerp, fx_mul, fxdiv, fxlerp, fxmul, fx_div,
    is_sqrt, isqrt_u, isqrt_up_u, lemma_abs_mul, lemma_clamp_speed_sq, lemma_fxdiv_bound,
    lemma_fxlerp_affine, lemma_fxmul_bound, lemma_fxmul_unit, lemma_mul_le_nonneg, lemma_sq_bound,
    lemma_sqrt_le, max_i, mul_div, sqrt_i, sqrt_up_i, tdiv,
};
use crate::terrain::{get_terrain_height, spec_terrain_height};
use crate::vec3::Vec3Fx;

verus! {

/// Radius of the player sphere.
pub const SPHERE_RADIUS_FX: i64 = 32768;

/// Slack added to the ground test so the grounded flag does not flap.
pub const GROUND_EPS_FX: i64 = 655;

/// Offset of the central-difference slope samples.
pub const SAMPLE_DIST_FX: i64 = 32768;

/// Downward gravity acceleration.
pub const GRAVITY_FX: i64 = 642253;

/// Acceleration scale of directional input.
pub const MOVE_SPEED_FX: i64 = 98304;

/// Per-tick multiplicative decay of grounded horizontal velocity.
pub const FRICTION_FX: i64 = 62259;

/// Strength of slope-driven acceleration.
pub const TERRAIN_SENSITIVITY_FX: i64 = 19661;

/// Fraction of momentum kept per tick; its complement is blended from velocity.
pub const MOMENTUM_BLEND_FX: i64 = 9830;

/// Fraction by which velocity is pulled toward the stored momentum each tick.
pub const VELOCITY_BLEND_FX: i64 = 13107;

/// Fraction of impact speed returned as bounce on landing.
pub const RESTITUTION_FX: i64 = 26214;

/// Effective-mass factor applied to the stored mass.
pub const MASS_FACTOR_FX: i64 = 52429;

/// Hard cap on horizontal speed.
pub const MAX_SPEED_FX: i64 = 393216;

/// Vertical velocity set by a jump.
pub const JUMP_FORCE_FX: i64 = 327680;

/// Dampening applied to slope acceleration.
pub const SLOPE_DAMP_FX: i64 = 45875;

/// Multiplier applied to input acceleration.
pub const INPUT_MULT_FX: i64 = 163840;

/// Per-tick multiplicative decay of angular velocity while not rolling.
pub const ANGULAR_DECAY_FX: i64 = 62259;

/// Hard cap on vertical speed, both directions; a safety terminal velocity.
pub const TERMINAL_SPEED_FX: i64 = 6553600;

/// Horizontal component of a normalized diagonal input direction.
pub const DIAG_FX: i64 = 46341;

/// Default mass of the player sphere.
pub const PLAYER_MASS_FX: i64 = 78643;

/// Squared momentum magnitude below which the momentum blend is skipped.
pub const MOMENTUM_EPS_SQ_FX: i64 = 4294967;

/// Gradient magnitude below which a slope counts as flat.
pub const GRADIENT_EPS_FX: i64 = 65;

/// Landing speed below which the body stops instead of bouncing.
pub const IMPACT_EPS_FX: i64 = 32768;

/// Squared speed above which the sphere visibly rolls.
pub const ROLL_SPEED_EPS_SQ_FX: i64 = 42949673;

/// Largest position magnitude the integrator keeps the body inside; leaves
/// room below the height field's own coordinate limit for slope samples.
pub const PLAY_LIM: i64 = 0x1F_FE00_0000;

/// Bound on each momentum component, preserved by every tick.
pub const MOMENTUM_LIM: i64 = 0x80_0000;

/// Bound on each angular velocity component, preserved by every tick.
pub const ANGULAR_LIM: i64 = 0x400_0000;

/// Digital movement input for one tick.
#[derive(Clone, Copy, Debug, PartialEq, Eq, Structural)]
pub struct InputState {
    pub forward: bool,
    pub back: bool,
    pub left: bool,
    pub right: bool,
    pub jump: bool,
}

/// Physics state of the player sphere.
#[derive(Clone, Copy, Debug)]
pub struct PlayerPhysics {
    pub velocity: Vec3Fx,
    pub angular_velocity: Vec3Fx,
    pub mass: i64,
    pub grounded: bool,
    pub momentum: Vec3Fx,
    pub prev_position: Vec3Fx,
}

/// A spec-level vector of unbounded integers.
pub ghost struct V3 {
    pub x: int,
    pub y: int,
    pub z: int,
}

/// The spec view of an executable vector.
pub open spec fn vw(v: Vec3Fx) -> V3 {
    V3 { x: v.x as int, y: v.y as int, z: v.z as int }
}

/// The result of one integrator tick.
pub ghost struct StepSpec {
    pub pos: V3,
    pub vel: V3,
    pub mom: V3,
    pub ang: V3,
    pub grounded: bool,
}

/// Well-formed physics state: what every tick preserves.
pub open spec fn wf_physics(p: PlayerPhysics) -> bool {
    abs_i(p.velocity.x as int) <= MAX_SPEED_FX as int && abs_i(p.velocity.z as int)
        <= MAX_SPEED_FX as int && abs_i(p.velocity.y as int) <= TERMINAL_SPEED_FX as int
        && p.momentum.bounded(MOMENTUM_LIM as int) && p.angular_velocity.bounded(
        ANGULAR_LIM as int,
    ) && 65536 <= p.mass <= 655360 && p.prev_position.bounded(PLAY_LIM as int)
}

/// The horizontal input direction: a zero or unit vector in the plane.
pub open spec fn input_dir_spec(inp: InputState) -> (int, int) {
    let dx = (if inp.right {
        1int
    } else {
        0int
    }) - (if inp.left {
        1int
    } else {
        0int
    });
    let dz = (if inp.back {
        1int
    } else {
        0int
    }) - (if inp.forward {
        1int
    } else {
        0int
    });
    if dx == 0 && dz == 0 {
        (0int, 0int)
    } else if dx != 0 && dz != 0 {
        (dx * DIAG_FX, dz * DIAG_FX)
    } else {
        (dx * FX_ONE, dz * FX_ONE)
    }
}

/// The terrain gradient at (px, pz) by central differences: positive toward
/// descending ground, so it accelerates the body downhill.
pub open spec fn gradient_spec(px: int, pz: int) -> (int, int) {
    (
        spec_terrain_height(px - SAMPLE_DIST_FX, pz) - spec_terrain_height(
            px + SAMPLE_DIST_FX,
            pz,
        ),
        spec_terrain_height(px, pz - SAMPLE_DIST_FX) - spec_terrain_height(
            px,
            pz + SAMPLE_DIST_FX,
        ),
    )
}

/// Momentum blending: pull velocity toward the mass-scaled momentum, all
/// components while airborne, horizontally only while grounded.
pub open spec fn blend_spec(v: V3, m: V3, em: int, grounded: bool) -> V3 {
    if m.x * m.x + m.y * m.y + m.z * m.z > MOMENTUM_EPS_SQ_FX {
        let tx = fxdiv(m.x, em);
        let ty = fxdiv(m.y, em);
        let tz = fxdiv(m.z, em);
        if grounded {
            V3 {
                x: fxlerp(v.x, tx, VELOCITY_BLEND_FX as int),
                y: v.y,
                z: fxlerp(v.z, tz, VELOCITY_BLEND_FX as int),
            }
        } else {
            V3 {
                x: fxlerp(v.x, tx, VELOCITY_BLEND_FX as int),
                y: fxlerp(v.y, ty, VELOCITY_BLEND_FX as int),
                z: fxlerp(v.z, tz, VELOCITY_BLEND_FX as int),
            }
        }
    } else {
        v
    }
}

/// Gravity while airborne; landing resolution (bounce or stop) on touching
/// down; slope acceleration, rolling friction and the vertical clamp while
/// rolling on the ground.
pub open spec fn gravity_ground_spec(
    v: V3,
    grounded: bool,
    was_grounded: bool,
    gx: int,
    gz: int,
    em: int,
    dt: int,
) -> V3 {
    if !grounded {
        V3 { x: v.x, y: v.y - fxmul(GRAVITY_FX as int, dt), z: v.z }
    } else if !was_grounded {
        let impact = abs_i(v.y);
        V3 {
            x: v.x,
            y: if impact > IMPACT_EPS_FX {
                fxmul(impact, RESTITUTION_FX as int)
            } else {
                0
            },
            z: v.z,
        }
    } else {
        let gs = sqrt_i(gx * gx + gz * gz);
        let v1 = if gs > GRADIENT_EPS_FX {
            let g_over_em = fxdiv(GRAVITY_FX as int, em);
            let ax = fxmul(fxmul(gx, TERRAIN_SENSITIVITY_FX as int), g_over_em);
            let az = fxmul(fxmul(gz, TERRAIN_SENSITIVITY_FX as int), g_over_em);
            V3 {
                x: v.x + fxmul(fxmul(ax, dt), SLOPE_DAMP_FX as int),
                y: v.y,
                z: v.z + fxmul(fxmul(az, dt), SLOPE_DAMP_FX as int),
            }
        } else {
            v
        };
        V3 {
            x: fxmul(v1.x, FRICTION_FX as int),
            y: if v1.y < 0 {
                0
            } else {
                v1.y
            },
            z: fxmul(v1.z, FRICTION_FX as int),
        }
    }
}

/// The vertical terminal-speed cap.
pub open spec fn terminal_spec(v: V3) -> V3 {
    V3 {
        x: v.x,
        y: clamp_i(v.y, -(TERMINAL_SPEED_FX as int), TERMINAL_SPEED_FX as int),
        z: v.z,
    }
}

/// A requested jump from the ground sets the vertical impulse and lifts off.
pub open spec fn jump_spec(v: V3, grounded: bool, jump: bool) -> (V3, bool) {
    if grounded && jump {
        (V3 { x: v.x, y: JUMP_FORCE_FX as int, z: v.z }, false)
    } else {
        (v, grounded)
    }
}

/// Grounded directional input accelerates the body along the input direction.
pub open spec fn input_accel_spec(v: V3, grounded: bool, dx: int, dz: int, em: int, dt: int) -> V3 {
    if grounded && !(dx == 0 && dz == 0) {
        let ms = fxdiv(MOVE_SPEED_FX as int, em);
        let fx0 = fxmul(dx, ms);
        let fz0 = fxmul(dz, ms);
        V3 {
            x: v.x + fxmul(fxmul(fx0, dt), INPUT_MULT_FX as int),
            y: v.y,
            z: v.z + fxmul(fxmul(fz0, dt), INPUT_MULT_FX as int),
        }
    } else {
        v
    }
}

/// Momentum lags velocity: blended horizontally while grounded with vertical
/// momentum forced to zero, blended on all components while airborne.
pub open spec fn momentum_spec(m: V3, v: V3, grounded: bool) -> V3 {
    if grounded {
        V3 {
            x: fxlerp(m.x, v.x, MOMENTUM_BLEND_FX as int),
            y: 0,
            z: fxlerp(m.z, v.z, MOMENTUM_BLEND_FX as int),
        }
    } else {
        V3 {
            x: fxlerp(m.x, v.x, MOMENTUM_BLEND_FX as int),
            y: fxlerp(m.y, v.y, MOMENTUM_BLEND_FX as int),
            z: fxlerp(m.z, v.z, MOMENTUM_BLEND_FX as int),
        }
    }
}

/// The horizontal speed cap: rescale the horizontal vector onto the maximum
/// magnitude, preserving its direction, whenever it is too fast.
pub open spec fn speed_clamp_spec(v: V3) -> V3 {
    let s2 = v.x * v.x + v.z * v.z;
    if s2 > (MAX_SPEED_FX as int) * (MAX_SPEED_FX as int) {
        let hs = sqrt_up_i(s2);
        V3 { x: tdiv(v.x * MAX_SPEED_FX, hs), y: v.y, z: tdiv(v.z * MAX_SPEED_FX, hs) }
    } else {
        v
    }
}

/// Explicit-Euler position update.
pub open spec fn integrate_spec(p: V3, v: V3, dt: int) -> V3 {
    V3 { x: p.x + fxmul(v.x, dt), y: p.y + fxmul(v.y, dt), z: p.z + fxmul(v.z, dt) }
}

/// The world border: positions are kept inside the playable volume.
pub open spec fn border_spec(p: V3) -> V3 {
    V3 {
        x: clamp_i(p.x, -(PLAY_LIM as int), PLAY_LIM as int),
        y: clamp_i(p.y, -(PLAY_LIM as int), PLAY_LIM as int),
        z: clamp_i(p.z, -(PLAY_LIM as int), PLAY_LIM as int),
    }
}

/// The corrective ground check at the new position: snap onto the floor,
/// ground the body and absorb any remaining downward velocity.
pub open spec fn floor_spec(p: V3, v: V3, grounded: bool) -> (V3, V3, bool) {
    let min_y = spec_terrain_height(p.x, p.z) + SPHERE_RADIUS_FX;
    if p.y < min_y {
        (
            V3 { x: p.x, y: min_y, z: p.z },
            V3 {
                x: v.x,
                y: if v.y < 0 {
                    0
                } else {
                    v.y
                },
                z: v.z,
            },
            true,
        )
    } else {
        (p, v, grounded)
    }
}

/// Rolling-without-slipping angular velocity while rolling: the axis lies in
/// the plane, perpendicular to horizontal travel, scaled by speed over the
/// radius with the sign that turns the sphere's visible top toward the
/// direction of travel; multiplicative decay otherwise.
pub open spec fn angular_spec(w: V3, v: V3, grounded: bool) -> V3 {
    let n2 = v.x * v.x + v.y * v.y + v.z * v.z;
    let h2 = v.x * v.x + v.z * v.z;
    if grounded && n2 >= ROLL_SPEED_EPS_SQ_FX && h2 > 0 {
        let hlen = sqrt_i(h2);
        let speed = sqrt_i(n2);
        let mdx = tdiv(v.x * (FX_ONE as int), hlen);
        let mdz = tdiv(v.z * (FX_ONE as int), hlen);
        V3 { x: fxmul(mdz, 2 * speed), y: 0, z: fxmul(-mdx, 2 * speed) }
    } else {
        V3 {
            x: fxmul(w.x, ANGULAR_DECAY_FX as int),
            y: fxmul(w.y, ANGULAR_DECAY_FX as int),
            z: fxmul(w.z, ANGULAR_DECAY_FX as int),
        }
    }
}

/// One full integrator tick, as a function of the previous state.
pub open spec fn step_spec(
    p: V3,
    vel: V3,
    mom: V3,
    ang: V3,
    grounded: bool,
    mass: int,
    inp: InputState,
    dt: int,
) -> StepSpec {
    let dir = input_dir_spec(inp);
    let grad = gradient_spec(p.x, p.z);
    let h0 = spec_terrain_height(p.x, p.z);
    let g1 = p.y <= h0 + SPHERE_RADIUS_FX + GROUND_EPS_FX;
    let em = fxmul(mass, MASS_FACTOR_FX as int);
    let v1 = blend_spec(vel, mom, em, g1);
    let v2 = gravity_ground_spec(v1, g1, grounded, grad.0, grad.1, em, dt);
    let v3 = terminal_spec(v2);
    let (v4, g2) = jump_spec(v3, g1, inp.jump);
    let v5 = input_accel_spec(v4, g2, dir.0, dir.1, em, dt);
    let m1 = momentum_spec(mom, v5, g2);
    let v6 = speed_clamp_spec(v5);
    let p1 = border_spec(integrate_spec(p, v6, dt));
    let (p2, v7, g3) = floor_spec(p1, v6, g2);
    let w1 = angular_spec(ang, v7, g3);
    StepSpec { pos: p2, vel: v7, mom: m1, ang: w1, grounded: g3 }
}

impl Default for PlayerPhysics {
    /// A body at rest with the default mass, airborne until the first tick.
    fn default() -> (r: PlayerPhysics)
        ensures
            r.velocity == (Vec3Fx { x: 0, y: 0, z: 0 }),
            r.angular_velocity == (Vec3Fx { x: 0, y: 0, z: 0 }),
            r.momentum == (Vec3Fx { x: 0, y: 0, z: 0 }),
            r.prev_position == (Vec3Fx { x: 0, y: 0, z: 0 }),
            r.mass == PLAYER_MASS_FX,
            !r.grounded,
            wf_physics(r),
    {
        PlayerPhysics {
            velocity: Vec3Fx { x: 0, y: 0, z: 0 },
            angular_velocity: Vec3Fx { x: 0, y: 0, z: 0 },
            mass: PLAYER_MASS_FX,
            grounded: false,
            momentum: Vec3Fx { x: 0, y: 0, z: 0 },
            prev_position: Vec3Fx { x: 0, y: 0, z: 0 },
        }
    }
}

/// The spawn point: the world origin, resting on the terrain surface.
pub fn spawn_position() -> (r: Vec3Fx)
    ensures
        r.x == 0 && r.z == 0,
        r.y == spec_terrain_height(0, 0) + SPHERE_RADIUS_FX,
        r.bounded(PLAY_LIM as int),
{
    let h: i64 = get_terrain_height(0, 0);
    Vec3Fx { x: 0, y: h + SPHERE_RADIUS_FX, z: 0 }
}

/// The horizontal input direction from the digital movement keys.
fn input_dir(input: &InputState) -> (r: (i64, i64))
    ensures
        (r.0 as int, r.1 as int) == input_dir_spec(*input),
        abs_i(r.0 as int) <= FX_ONE as int,
        abs_i(r.1 as int) <= FX_ONE as int,
{
    let dx: i64 = (if input.right {
        1i64
    } else {
        0i64
    }) - (if input.left {
        1i64
    } else {
        0i64
    });
    let dz: i64 = (if input.back {
        1i64
    } else {
        0i64
    }) - (if input.forward {
        1i64
    } else {
        0i64
    });
    if dx == 0 && dz == 0 {
        (0, 0)
    } else if dx != 0 && dz != 0 {
        (dx * DIAG_FX, dz * DIAG_FX)
    } else {
        (dx * FX_ONE, dz * FX_ONE)
    }
}

/// The terrain gradient at (px, pz) by central differences.
fn terrain_gradient(px: i64, pz: i64) -> (r: (i64, i64))
    requires
        -PLAY_LIM <= px <= PLAY_LIM,
        -PLAY_LIM <= pz <= PLAY_LIM,
    ensures
        (r.0 as int, r.1 as int) == gradient_spec(px as int, pz as int),
        abs_i(r.0 as int) <= 1048576,
        abs_i(r.1 as int) <= 1048576,
{
    let hxn: i64 = get_terrain_height(px - SAMPLE_DIST_FX, pz);
    let hxp: i64 = get_terrain_height(px + SAMPLE_DIST_FX, pz);
    let hzn: i64 = get_terrain_height(px, pz - SAMPLE_DIST_FX);
    let hzp: i64 = get_terrain_height(px, pz + SAMPLE_DIST_FX);
    (hxn - hxp, hzn - hzp)
}

/// Momentum blending stage.
fn blend_momentum(v: Vec3Fx, m: Vec3Fx, em: i64, grounded: bool) -> (r: Vec3Fx)
    requires
        abs_i(v.x as int) <= MAX_SPEED_FX as int,
        abs_i(v.z as int) <= MAX_SPEED_FX as int,
        abs_i(v.y as int) <= TERMINAL_SPEED_FX as int,
        m.bounded(MOMENTUM_LIM as int),
        52429 <= em <= 524290,
    ensures
        vw(r) == blend_spec(vw(v), vw(m), em as int, grounded),
        abs_i(r.x as int) <= 2450000,
        abs_i(r.z as int) <= 2450000,
        abs_i(r.y as int) <= 7400000,
{
    let n2: u128 = m.norm_sq();
    if n2 > MOMENTUM_EPS_SQ_FX as u128 {
        proof {
            lemma_fxdiv_bound(m.x as int, em as int, 10485761);
            lemma_fxdiv_bound(m.y as int, em as int, 10485761);
            lemma_fxdiv_bound(m.z as int, em as int, 10485761);
        }
        let tx: i64 = fx_div(m.x, em);
        let ty: i64 = fx_div(m.y, em);
        let tz: i64 = fx_div(m.z, em);
        proof {
            lemma_fxlerp_affine(
                v.x as int,
                tx as int,
                VELOCITY_BLEND_FX as int,
                MAX_SPEED_FX as int,
                10485761,
            );
            lemma_fxlerp_affine(
                v.z as int,
                tz as int,
                VELOCITY_BLEND_FX as int,
                MAX_SPEED_FX as int,
                10485761,
            );
            lemma_fxlerp_affine(
                v.y as int,
                ty as int,
                VELOCITY_BLEND_FX as int,
                TERMINAL_SPEED_FX as int,
                10485761,
            );
        }
        if grounded {
            Vec3Fx {
                x: fx_lerp(v.x, tx, VELOCITY_BLEND_FX),
                y: v.y,
                z: fx_lerp(v.z, tz, VELOCITY_BLEND_FX),
            }
        } else {
            Vec3Fx {
                x: fx_lerp(v.x, tx, VELOCITY_BLEND_FX),
                y: fx_lerp(v.y, ty, VELOCITY_BLEND_FX),
                z: fx_lerp(v.z, tz, VELOCITY_BLEND_FX),
            }
        }
    } else {
        v
    }
}

/// Gravity, landing and rolling stage.
fn gravity_ground(
    v: Vec3Fx,
    grounded: bool,
    was_grounded: bool,
    gx: i64,
    gz: i64,
    em: i64,
    dt: i64,
) -> (r: Vec3Fx)
    requires
        abs_i(v.x as int) <= 2450000,
        abs_i(v.z as int) <= 2450000,
        abs_i(v.y as int) <= 7400000,
        abs_i(gx as int) <= 1048576,
        abs_i(gz as int) <= 1048576,
        52429 <= em <= 524290,
        0 <= dt <= FX_ONE,
    ensures
        vw(r) == gravity_ground_spec(
            vw(v),
            grounded,
            was_grounded,
            gx as int,
            gz as int,
            em as int,
            dt as int,
        ),
        abs_i(r.x as int) <= 6303700,
        abs_i(r.z as int) <= 6303700,
        abs_i(r.y as int) <= 8042300,
{
    if !grounded {
        proof {
            lemma_fxmul_unit(GRAVITY_FX as int, dt as int);
        }
        Vec3Fx { x: v.x, y: v.y - fx_mul(GRAVITY_FX, dt), z: v.z }
    } else if !was_grounded {
        let impact: i64 = if v.y < 0 {
            -v.y
        } else {
            v.y
        };
        let ny: i64 = if impact > IMPACT_EPS_FX {
            proof {
                lemma_fxmul_unit(impact as int, RESTITUTION_FX as int);
            }
            fx_mul(impact, RESTITUTION_FX)
        } else {
            0
        };
        Vec3Fx { x: v.x, y: ny, z: v.z }
    } else {
        proof {
            lemma_sq_bound(gx as int, 1048576);
            lemma_sq_bound(gz as int, 1048576);
        }
        let gxu: u64 = crate::fixed::fx_abs_u(gx);
        let gzu: u64 = crate::fixed::fx_abs_u(gz);
        proof {
            lemma_abs_mul(gx as int, gx as int);
            lemma_abs_mul(gz as int, gz as int);
        }
        let gs2: u128 = (gxu as u128) * (gxu as u128) + (gzu as u128) * (gzu as u128);
        let gs: u64 = isqrt_u(gs2);
        let v1: Vec3Fx = if gs > GRADIENT_EPS_FX as u64 {
            proof {
                lemma_fxdiv_bound(GRAVITY_FX as int, em as int, 802833);
                lemma_mul_le_nonneg(abs_i(gx as int), 19661, 1048576, 19661);
                lemma_mul_le_nonneg(abs_i(gz as int), 19661, 1048576, 19661);
                lemma_fxmul_bound(gx as int, TERRAIN_SENSITIVITY_FX as int, 314576);
                lemma_fxmul_bound(gz as int, TERRAIN_SENSITIVITY_FX as int, 314576);
            }
            let g_over_em: i64 = fx_div(GRAVITY_FX, em);
            let ax: i64 = fx_mul(fx_mul(gx, TERRAIN_SENSITIVITY_FX), g_over_em);
            let az: i64 = fx_mul(fx_mul(gz, TERRAIN_SENSITIVITY_FX), g_over_em);
            proof {
                lemma_mul_le_nonneg(
                    abs_i(fxmul(gx as int, TERRAIN_SENSITIVITY_FX as int)),
                    abs_i(fxdiv(GRAVITY_FX as int, em as int)),
                    314576,
                    802833,
                );
                lemma_mul_le_nonneg(
                    abs_i(fxmul(gz as int, TERRAIN_SENSITIVITY_FX as int)),
                    abs_i(fxdiv(GRAVITY_FX as int, em as int)),
                    314576,
                    802833,
                );
                lemma_fxmul_bound(
                    fxmul(gx as int, TERRAIN_SENSITIVITY_FX as int),
                    fxdiv(GRAVITY_FX as int, em as int),
                    3853700,
                );
                lemma_fxmul_bound(
                    fxmul(gz as int, TERRAIN_SENSITIVITY_FX as int),
                    fxdiv(GRAVITY_FX as int, em as int),
                    3853700,
                );
                lemma_fxmul_unit(ax as int, dt as int);
                lemma_fxmul_unit(az as int, dt as int);
                lemma_fxmul_unit(fxmul(ax as int, dt as int), SLOPE_DAMP_FX as int);
                lemma_fxmul_unit(fxmul(az as int, dt as int), SLOPE_DAMP_FX as int);
            }
            Vec3Fx {
                x: v.x + fx_mul(fx_mul(ax, dt), SLOPE_DAMP_FX),
                y: v.y,
                z: v.z + fx_mul(fx_mul(az, dt), SLOPE_DAMP_FX),
            }
        } else {
            v
        };
        proof {
            lemma_fxmul_unit(v1.x as int, FRICTION_FX as int);
            lemma_fxmul_unit(v1.z as int, FRICTION_FX as int);
        }
        Vec3Fx {
            x: fx_mul(v1.x, FRICTION_FX),
            y: if v1.y < 0 {
                0
            } else {
                v1.y
            },
            z: fx_mul(v1.z, FRICTION_FX),
        }
    }
}

/// Vertical terminal-speed stage.
fn apply_terminal(v: Vec3Fx) -> (r: Vec3Fx)
    requires
        abs_i(v.y as int) <= FX_LIM as int,
    ensures
        vw(r) == terminal_spec(vw(v)),
        abs_i(r.y as int) <= TERMINAL_SPEED_FX as int,
        r.x == v.x,
        r.z == v.z,
{
    Vec3Fx { x: v.x, y: fx_clamp(v.y, -TERMINAL_SPEED_FX, TERMINAL_SPEED_FX), z: v.z }
}

/// Jump stage.
fn apply_jump(v: Vec3Fx, grounded: bool, jump: bool) -> (r: (Vec3Fx, bool))
    ensures
        (vw(r.0), r.1) == jump_spec(vw(v), grounded, jump),
        r.0.x == v.x && r.0.z == v.z,
        abs_i(r.0.y as int) <= max_i(abs_i(v.y as int), JUMP_FORCE_FX as int),
{
    if grounded && jump {
        (Vec3Fx { x: v.x, y: JUMP_FORCE_FX, z: v.z }, false)
    } else {
        (v, grounded)
    }
}

/// Input acceleration stage.
fn input_accel(v: Vec3Fx, grounded: bool, dx: i64, dz: i64, em: i64, dt: i64) -> (r: Vec3Fx)
    requires
        abs_i(v.x as int) <= 6303700,
        abs_i(v.z as int) <= 6303700,
        abs_i(dx as int) <= FX_ONE as int,
        abs_i(dz as int) <= FX_ONE as int,
        52429 <= em <= 524290,
        0 <= dt <= FX_ONE,
    ensures
        vw(r) == input_accel_spec(vw(v), grounded, dx as int, dz as int, em as int, dt as int),
        abs_i(r.x as int) <= 6611000,
        abs_i(r.z as int) <= 6611000,
        r.y == v.y,
{
    if grounded && !(dx == 0 && dz == 0) {
        proof {
            lemma_fxdiv_bound(MOVE_SPEED_FX as int, em as int, 122881);
        }
        let ms: i64 = fx_div(MOVE_SPEED_FX, em);
        proof {
            lemma_fxmul_unit(ms as int, dx as int);
            lemma_fxmul_unit(ms as int, dz as int);
            assert(fxmul(dx as int, ms as int) == fxmul(ms as int, dx as int)) by {
                assert((dx as int) * (ms as int) == (ms as int) * (dx as int))
                    by (nonlinear_arith);
            }
            assert(fxmul(dz as int, ms as int) == fxmul(ms as int, dz as int)) by {
                assert((dz as int) * (ms as int) == (ms as int) * (dz as int))
                    by (nonlinear_arith);
            }
        }
        let fx0: i64 = fx_mul(dx, ms);
        let fz0: i64 = fx_mul(dz, ms);
        proof {
            lemma_fxmul_unit(fx0 as int, dt as int);
            lemma_fxmul_unit(fz0 as int, dt as int);
            lemma_mul_le_nonneg(abs_i(fxmul(fx0 as int, dt as int)), 163840, 122881, 163840);
            lemma_mul_le_nonneg(abs_i(fxmul(fz0 as int, dt as int)), 163840, 122881, 163840);
            lemma_fxmul_bound(fxmul(fx0 as int, dt as int), INPUT_MULT_FX as int, 307300);
            lemma_fxmul_bound(fxmul(fz0 as int, dt as int), INPUT_MULT_FX as int, 307300);
        }
        Vec3Fx {
            x: v.x + fx_mul(fx_mul(fx0, dt), INPUT_MULT_FX),
            y: v.y,
            z: v.z + fx_mul(fx_mul(fz0, dt), INPUT_MULT_FX),
        }
    } else {
        v
    }
}

/// Momentum update stage.
fn update_momentum(m: Vec3Fx, v: Vec3Fx, grounded: bool) -> (r: Vec3Fx)
    requires
        m.bounded(MOMENTUM_LIM as int),
        abs_i(v.x as int) <= 6611000,
        abs_i(v.z as int) <= 6611000,
        abs_i(v.y as int) <= TERMINAL_SPEED_FX as int,
    ensures
        vw(r) == momentum_spec(vw(m), vw(v), grounded),
        r.bounded(MOMENTUM_LIM as int),
{
    proof {
        lemma_fxlerp_affine(
            m.x as int,
            v.x as int,
            MOMENTUM_BLEND_FX as int,
            MOMENTUM_LIM as int,
            6611000,
        );
        lemma_fxlerp_affine(
            m.z as int,
            v.z as int,
            MOMENTUM_BLEND_FX as int,
            MOMENTUM_LIM as int,
            6611000,
        );
    }
    let nx: i64 = fx_lerp(m.x, v.x, MOMENTUM_BLEND_FX);
    let nz: i64 = fx_lerp(m.z, v.z, MOMENTUM_BLEND_FX);
    if grounded {
        Vec3Fx { x: nx, y: 0, z: nz }
    } else {
        proof {
            lemma_fxlerp_affine(
                m.y as int,
                v.y as int,
                MOMENTUM_BLEND_FX as int,
                MOMENTUM_LIM as int,
                TERMINAL_SPEED_FX as int,
            );
        }
        Vec3Fx { x: nx, y: fx_lerp(m.y, v.y, MOMENTUM_BLEND_FX), z: nz }
    }
}

/// Horizontal speed-cap stage. This is where the speed-clamp invariant is
/// established: the returned horizontal speed squared never exceeds the
/// squared maximum.
fn clamp_speed(v: Vec3Fx) -> (r: Vec3Fx)
    requires
        abs_i(v.x as int) <= 6611000,
        abs_i(v.z as int) <= 6611000,
        abs_i(v.y as int) <= TERMINAL_SPEED_FX as int,
    ensures
        vw(r) == speed_clamp_spec(vw(v)),
        r.y == v.y,
        (r.x as int) * (r.x as int) + (r.z as int) * (r.z as int) <= (MAX_SPEED_FX as int) * (
        MAX_SPEED_FX as int),
        abs_i(r.x as int) <= MAX_SPEED_FX as int,
        abs_i(r.z as int) <= MAX_SPEED_FX as int,
{
    let s2: u128 = v.horiz_sq();
    proof {
        lemma_abs_mul(v.x as int, v.x as int);
        lemma_abs_mul(v.z as int, v.z as int);
        lemma_sq_bound(v.x as int, 6611000);
        lemma_sq_bound(v.z as int, 6611000);
    }
    if s2 > 154618822656 {
        let hs64: u64 = isqrt_up_u(s2);
        proof {
            assert(hs64 >= 1) by {
                if hs64 == 0 {
                    assert((hs64 as int) * (hs64 as int) == 0) by (nonlinear_arith)
                        requires
                            hs64 == 0,
                    ;
                }
            }
        }
        let hs: i64 = hs64 as i64;
        proof {
            lemma_sqrt_le(s2 as int, abs_i(v.x as int), hs as int);
            lemma_sqrt_le(s2 as int, abs_i(v.z as int), hs as int);
            lemma_mul_le_nonneg(abs_i(v.x as int), MAX_SPEED_FX as int, hs as int, FX_LIM as int);
            lemma_mul_le_nonneg(abs_i(v.z as int), MAX_SPEED_FX as int, hs as int, FX_LIM as int);
            assert((hs as int) * (FX_LIM as int) == (FX_LIM as int) * (hs as int))
                by (nonlinear_arith);
        }
        let nx: i64 = mul_div(v.x, MAX_SPEED_FX, hs);
        let nz: i64 = mul_div(v.z, MAX_SPEED_FX, hs);
        proof {
            lemma_abs_mul(v.x as int, MAX_SPEED_FX as int);
            lemma_abs_mul(v.z as int, MAX_SPEED_FX as int);
            lemma_clamp_speed_sq(
                abs_i(v.x as int),
                abs_i(v.z as int),
                abs_i(nx as int),
                abs_i(nz as int),
                MAX_SPEED_FX as int,
                hs as int,
            );
            lemma_abs_mul(nx as int, nx as int);
            lemma_abs_mul(nz as int, nz as int);
            lemma_sqrt_le(
                (MAX_SPEED_FX as int) * (MAX_SPEED_FX as int),
                abs_i(nx as int),
                MAX_SPEED_FX as int,
            );
            lemma_sqrt_le(
                (MAX_SPEED_FX as int) * (MAX_SPEED_FX as int),
                abs_i(nz as int),
                MAX_SPEED_FX as int,
            );
        }
        Vec3Fx { x: nx, y: v.y, z: nz }
    } else {
        proof {
            lemma_sqrt_le(s2 as int, abs_i(v.x as int), MAX_SPEED_FX as int);
            lemma_sqrt_le(s2 as int, abs_i(v.z as int), MAX_SPEED_FX as int);
        }
        v
    }
}

/// Position integration and world-border stage.
fn integrate_position(p: Vec3Fx, v: Vec3Fx, dt: i64) -> (r: Vec3Fx)
    requires
        p.bounded(PLAY_LIM as int),
        abs_i(v.x as int) <= MAX_SPEED_FX as int,
        abs_i(v.z as int) <= MAX_SPEED_FX as int,
        abs_i(v.y as int) <= TERMINAL_SPEED_FX as int,
        0 <= dt <= FX_ONE,
    ensures
        vw(r) == border_spec(integrate_spec(vw(p), vw(v), dt as int)),
        r.bounded(PLAY_LIM as int),
{
    proof {
        lemma_fxmul_unit(v.x as int, dt as int);
        lemma_fxmul_unit(v.y as int, dt as int);
        lemma_fxmul_unit(v.z as int, dt as int);
    }
    let nx: i64 = p.x + fx_mul(v.x, dt);
    let ny: i64 = p.y + fx_mul(v.y, dt);
    let nz: i64 = p.z + fx_mul(v.z, dt);
    Vec3Fx {
        x: fx_clamp(nx, -PLAY_LIM, PLAY_LIM),
        y: fx_clamp(ny, -PLAY_LIM, PLAY_LIM),
        z: fx_clamp(nz, -PLAY_LIM, PLAY_LIM),
    }
}

/// Corrective floor stage: establishes the ground-clamp invariant.
fn enforce_floor(p: Vec3Fx, v: Vec3Fx, grounded: bool) -> (r: (Vec3Fx, Vec3Fx, bool))
    requires
        p.bounded(PLAY_LIM as int),
        abs_i(v.y as int) <= TERMINAL_SPEED_FX as int,
    ensures
        (vw(r.0), vw(r.1), r.2) == floor_spec(vw(p), vw(v), grounded),
        r.0.y >= spec_terrain_height(r.0.x as int, r.0.z as int) + SPHERE_RADIUS_FX,
        r.0.bounded(PLAY_LIM as int),
        r.0.x == p.x && r.0.z == p.z,
        r.1.x == v.x && r.1.z == v.z,
        abs_i(r.1.y as int) <= TERMINAL_SPEED_FX as int,
{
    let h: i64 = get_terrain_height(p.x, p.z);
    let min_y: i64 = h + SPHERE_RADIUS_FX;
    if p.y < min_y {
        let ny: i64 = if v.y < 0 {
            0
        } else {
            v.y
        };
        (Vec3Fx { x: p.x, y: min_y, z: p.z }, Vec3Fx { x: v.x, y: ny, z: v.z }, true)
    } else {
        (p, v, grounded)
    }
}

/// Angular velocity stage.
fn update_angular(w: Vec3Fx, v: Vec3Fx, grounded: bool) -> (r: Vec3Fx)
    requires
        w.bounded(ANGULAR_LIM as int),
        abs_i(v.x as int) <= MAX_SPEED_FX as int,
        abs_i(v.z as int) <= MAX_SPEED_FX as int,
        abs_i(v.y as int) <= TERMINAL_SPEED_FX as int,
    ensures
        vw(r) == angular_spec(vw(w), vw(v), grounded),
        r.bounded(ANGULAR_LIM as int),
{
    let n2: u128 = v.norm_sq();
    let h2: u128 = v.horiz_sq();
    proof {
        lemma_abs_mul(v.x as int, v.x as int);
        lemma_abs_mul(v.z as int, v.z as int);
        lemma_sq_bound(v.x as int, MAX_SPEED_FX as int);
        lemma_sq_bound(v.z as int, MAX_SPEED_FX as int);
        lemma_sq_bound(v.y as int, TERMINAL_SPEED_FX as int);
    }
    if grounded && n2 >= ROLL_SPEED_EPS_SQ_FX as u128 && h2 > 0 {
        let hlen64: u64 = isqrt_u(h2);
        let speed64: u64 = isqrt_u(n2);
        proof {
            lemma_sqrt_le(n2 as int, speed64 as int, 6578000);
            assert(hlen64 >= 1) by {
                if hlen64 == 0 {
                    assert(is_sqrt(h2 as int, 0int));
                    assert((h2 as int) < (0int + 1) * (0int + 1));
                }
            }
            crate::fixed::lemma_sqrt_lt(
                h2 as int,
                abs_i(v.x as int),
                (hlen64 as int) + 1,
            );
            crate::fixed::lemma_sqrt_lt(
                h2 as int,
                abs_i(v.z as int),
                (hlen64 as int) + 1,
            );
            lemma_mul_le_nonneg(
                abs_i(v.x as int),
                FX_ONE as int,
                hlen64 as int,
                FX_LIM as int,
            );
            lemma_mul_le_nonneg(
                abs_i(v.z as int),
                FX_ONE as int,
                hlen64 as int,
                FX_LIM as int,
            );
            assert((hlen64 as int) * (FX_LIM as int) == (FX_LIM as int) * (
            hlen64 as int)) by (nonlinear_arith);
        }
        let hlen: i64 = hlen64 as i64;
        let speed: i64 = speed64 as i64;
        let mdx: i64 = mul_div(v.x, FX_ONE, hlen);
        let mdz: i64 = mul_div(v.z, FX_ONE, hlen);
        proof {
            lemma_abs_mul(v.x as int, FX_ONE as int);
            lemma_abs_mul(v.z as int, FX_ONE as int);
            assert(abs_i(mdx as int) <= FX_ONE as int) by (nonlinear_arith)
                requires
                    abs_i(mdx as int) * (hlen as int) <= abs_i(v.x as int) * (FX_ONE as int),
                    abs_i(v.x as int) <= hlen as int,
                    hlen >= 1,
                    abs_i(mdx as int) >= 0,
            ;
            assert(abs_i(mdz as int) <= FX_ONE as int) by (nonlinear_arith)
                requires
                    abs_i(mdz as int) * (hlen as int) <= abs_i(v.z as int) * (FX_ONE as int),
                    abs_i(v.z as int) <= hlen as int,
                    hlen >= 1,
                    abs_i(mdz as int) >= 0,
            ;
            lemma_mul_le_nonneg(
                abs_i(mdz as int),
                abs_i(2 * (speed as int)),
                FX_ONE as int,
                2 * (speed as int),
            );
            lemma_mul_le_nonneg(
                abs_i(-(mdx as int)),
                abs_i(2 * (speed as int)),
                FX_ONE as int,
                2 * (speed as int),
            );
            assert((FX_ONE as int) * (2 * (speed as int)) == (2 * (speed as int)) * (
            FX_ONE as int)) by (nonlinear_arith);
            lemma_fxmul_bound(mdz as int, 2 * (speed as int), 2 * (speed as int));
            lemma_fxmul_bound(-(mdx as int), 2 * (speed as int), 2 * (speed as int));
        }
        Vec3Fx { x: fx_mul(mdz, 2 * speed), y: 0, z: fx_mul(-mdx, 2 * speed) }
    } else {
        proof {
            lemma_fxmul_unit(w.x as int, ANGULAR_DECAY_FX as int);
            lemma_fxmul_unit(w.y as int, ANGULAR_DECAY_FX as int);
            lemma_fxmul_unit(w.z as int, ANGULAR_DECAY_FX as int);
        }
        Vec3Fx {
            x: fx_mul(w.x, ANGULAR_DECAY_FX),
            y: fx_mul(w.y, ANGULAR_DECAY_FX),
            z: fx_mul(w.z, ANGULAR_DECAY_FX),
        }
    }
}

/// Momentum decay: with no input, no jump request, level ground underfoot,
/// negligible stored momentum and no vertical motion, one grounded tick
/// multiplies each horizontal velocity component by exactly the friction
/// factor. Iterated, the speed decays geometrically. The horizontal-speed
/// hypothesis is the speed-clamp invariant, which every tick's own contract
/// re-establishes.
pub proof fn lemma_momentum_decay_tick(
    p: V3,
    vel: V3,
    mom: V3,
    ang: V3,
    mass: int,
    inp: InputState,
    dt: int,
)
    requires
        p.y <= spec_terrain_height(p.x, p.z) + SPHERE_RADIUS_FX + GROUND_EPS_FX,
        input_dir_spec(inp) == (0int, 0int),
        !inp.jump,
        mom.x * mom.x + mom.y * mom.y + mom.z * mom.z <= MOMENTUM_EPS_SQ_FX,
        gradient_spec(p.x, p.z) == (0int, 0int),
        vel.y == 0,
        vel.x * vel.x + vel.z * vel.z <= (MAX_SPEED_FX as int) * (MAX_SPEED_FX as int),
        abs_i(vel.x) <= MAX_SPEED_FX as int,
        abs_i(vel.z) <= MAX_SPEED_FX as int,
        0 <= dt <= FX_ONE as int,
    ensures
        ({
            let st = step_spec(p, vel, mom, ang, true, mass, inp, dt);
            st.vel.x == fxmul(vel.x, FRICTION_FX as int) && st.vel.z == fxmul(
                vel.z,
                FRICTION_FX as int,
            ) && st.vel.y == 0
        }),
{
    let st = step_spec(p, vel, mom, ang, true, mass, inp, dt);
    let em = fxmul(mass, MASS_FACTOR_FX as int);
    let v1 = blend_spec(vel, mom, em, true);
    assert(v1 == vel);
    assert(sqrt_i(0) == 0) by {
        assert(is_sqrt(0, 0)) by (nonlinear_arith);
        crate::fixed::lemma_sqrt_unique(0, 0);
    }
    let v2 = gravity_ground_spec(v1, true, true, 0, 0, em, dt);
    assert(v2.x == fxmul(vel.x, FRICTION_FX as int));
    assert(v2.z == fxmul(vel.z, FRICTION_FX as int));
    assert(v2.y == 0);
    lemma_fxmul_unit(vel.x, FRICTION_FX as int);
    lemma_fxmul_unit(vel.z, FRICTION_FX as int);
    let v6 = speed_clamp_spec(v2);
    assert(v6 == v2) by {
        lemma_abs_mul(vel.x, vel.x);
        lemma_abs_mul(vel.z, vel.z);
        lemma_abs_mul(v2.x, v2.x);
        lemma_abs_mul(v2.z, v2.z);
        lemma_sq_bound(vel.x, abs_i(vel.x));
        lemma_sq_bound(vel.z, abs_i(vel.z));
        lemma_sq_bound(v2.x, abs_i(v2.x));
        lemma_sq_bound(v2.z, abs_i(v2.z));
        crate::fixed::lemma_mul_le_nonneg(
            abs_i(v2.x),
            abs_i(v2.x),
            abs_i(vel.x),
            abs_i(vel.x),
        );
        crate::fixed::lemma_mul_le_nonneg(
            abs_i(v2.z),
            abs_i(v2.z),
            abs_i(vel.z),
            abs_i(vel.z),
        );
    }
    assert(st.vel.x == v2.x && st.vel.z == v2.z);
    assert(st.vel.y == 0);
}

/// One physics tick for the player sphere: samples the terrain, blends
/// momentum, applies gravity or ground response, jump and input, updates
/// momentum, caps the speed, integrates the position and enforces the floor,
/// then derives the rolling angular velocity.
///
/// The new state is exactly `step_spec` of the old one; moreover the body
/// ends at or above the terrain surface (ground clamp) and within the
/// horizontal speed cap (speed clamp).
pub fn move_player(pos: &mut Vec3Fx, physics: &mut PlayerPhysics, input: &InputState, dt: i64)
    requires
        old(pos).bounded(PLAY_LIM as int),
        wf_physics(*old(physics)),
        0 <= dt <= FX_ONE,
    ensures
        wf_physics(*final(physics)),
        final(pos).bounded(PLAY_LIM as int),
        final(physics).prev_position == *old(pos),
        final(physics).mass == old(physics).mass,
        ({
            let st = step_spec(
                vw(*old(pos)),
                vw(old(physics).velocity),
                vw(old(physics).momentum),
                vw(old(physics).angular_velocity),
                old(physics).grounded,
                old(physics).mass as int,
                *input,
                dt as int,
            );
            let ph = *final(physics);
            vw(*final(pos)) == st.pos && vw(ph.velocity) == st.vel && vw(ph.momentum) == st.mom
                && vw(ph.angular_velocity) == st.ang && ph.grounded == st.grounded
        }),
        final(pos).y >= spec_terrain_height(final(pos).x as int, final(pos).z as int)
            + SPHERE_RADIUS_FX,
        (final(physics).velocity.x as int) * (final(physics).velocity.x as int) + (
        final(physics).velocity.z as int) * (final(physics).velocity.z as int) <= (
        MAX_SPEED_FX as int) * (MAX_SPEED_FX as int),
{
    physics.prev_position = *pos;
    let (dx, dz): (i64, i64) = input_dir(input);
    let h0: i64 = get_terrain_height(pos.x, pos.z);
    let (gx, gz): (i64, i64) = terrain_gradient(pos.x, pos.z);
    let was_grounded: bool = physics.grounded;
    let grounded1: bool = pos.y <= h0 + SPHERE_RADIUS_FX + GROUND_EPS_FX;
    proof {
        assert((65536int * 52429) / 65536 == 52429);
        assert((655360int * 52429) / 65536 == 524290);
        vstd::arithmetic::div_mod::lemma_div_is_ordered(
            65536int * 52429,
            (physics.mass as int) * 52429,
            65536,
        );
        vstd::arithmetic::div_mod::lemma_div_is_ordered(
            (physics.mass as int) * 52429,
            655360int * 52429,
            65536,
        );
    }
    let em: i64 = fx_mul(physics.mass, MASS_FACTOR_FX);
    let v1: Vec3Fx = blend_momentum(physics.velocity, physics.momentum, em, grounded1);
    let v2: Vec3Fx = gravity_ground(v1, grounded1, was_grounded, gx, gz, em, dt);
    let v3: Vec3Fx = apply_terminal(v2);
    let (v4, grounded2): (Vec3Fx, bool) = apply_jump(v3, grounded1, input.jump);
    let v5: Vec3Fx = input_accel(v4, grounded2, dx, dz, em, dt);
    let m1: Vec3Fx = update_momentum(physics.momentum, v5, grounded2);
    let v6: Vec3Fx = clamp_speed(v5);
    let p1: Vec3Fx = integrate_position(*pos, v6, dt);
    let (p2, v7, grounded3): (Vec3Fx, Vec3Fx, bool) = enforce_floor(p1, v6, grounded2);
    let w1: Vec3Fx = update_angular(physics.angular_velocity, v7, grounded3);
    physics.velocity = v7;
    physics.momentum = m1;
    physics.angular_velocity = w1;
    physics.grounded = grounded3;
    *pos = p2;
}

} // verus!
