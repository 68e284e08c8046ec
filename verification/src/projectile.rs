//! Targeting and projectile ballistics: solving an initial velocity that arcs
//! a projectile from the launcher toward a picked target, and the closed-form
//! flight afterwards.
//!
//! The solver fixes the launch elevation at sixty degrees and derives the
//! launch speed from the range equation `v² = g · R / sin(2θ)`, corrected for
//! the height difference and clamped; distant targets are rescaled down.
//! Flight position is a pure function of age — no velocity state is
//! integrated — and a projectile that meets the terrain snaps onto it, gets a
//! grace period, and is flagged stuck. Firing without a valid pick is
//! suppressed: no projectile is produced.

use vstd::prelude::*;
use crate::camera::MouseLook;
use crate::fixed::{
    FX_LIM, FX_ONE, abs_i, clamp_i, fx_abs_u, fx_clamp, fx_div, fx_min, fx_mul, fxdiv, fxmul,
    isqrt_u, lemma_abs_mul, lemma_fxdiv_bound, lemma_fxmul_bound, lemma_fxmul_unit,
    lemma_mul_le_nonneg, lemma_sq_bound, lemma_sqrt_le, lemma_sqrt_lt, min_i, mul_div, sqrt_i,
    tdiv,
};
use crate::player::{PLAY_LIM, V3, vw};
use crate::terrain::{WORLD_LIM, get_terrain_height, spec_terrain_height};
use crate::vec3::Vec3Fx;

verus! {

/// Gravity acting on projectiles; heavier than the player's for a weighty arc.
pub const PROJECTILE_GRAVITY_FX: i64 = 1284506;

/// Half the projectile gravity, used by the closed-form parabola.
pub const PROJECTILE_HALF_GRAVITY_FX: i64 = 642253;

/// Lifetime of a projectile from launch.
pub const PROJECTILE_LIFETIME_FX: i64 = 524288;

/// Informational speed factor stored on live projectiles; zero once stuck.
pub const PROJECTILE_SPEED_FX: i64 = 16384;

/// Horizontal distance beyond which launch velocities are rescaled down.
pub const MAX_HORIZONTAL_DIST_FX: i64 = 983040;

/// Lower clamp of the solved launch speed.
pub const LAUNCH_SPEED_MIN_FX: i64 = 131072;

/// Upper clamp of the solved launch speed. It sits above anything the range
/// equation asks for within the distance cutoff at the base uphill
/// correction, so reachable targets are never slowed; only extreme
/// corrections hit it.
pub const LAUNCH_SPEED_MAX_FX: i64 = 1474560;

/// Cosine of the fixed sixty-degree launch elevation.
pub const COS_ELEVATION_FX: i64 = 32768;

/// Sine of the fixed sixty-degree launch elevation.
pub const SIN_ELEVATION_FX: i64 = 56756;

/// Sine of twice the launch elevation, for the range equation.
pub const SIN_TWO_ELEVATION_FX: i64 = 56756;

/// Launch point height above the player position.
pub const LAUNCH_OFFSET_Y_FX: i64 = 19661;

/// Numerator of the far-target rescale: 0.8 times the distance cap.
pub const FAR_SCALE_NUM_FX: i64 = 786432;

/// Speed correction base for targets above the launcher: uphill shots are
/// scaled up, more so the steeper the climb.
pub const HEIGHT_FACTOR_UP_FX: i64 = 78643;

/// Speed correction base for targets at or below the launcher: downhill
/// shots are scaled down, more so the steeper the drop.
pub const HEIGHT_FACTOR_DOWN_FX: i64 = 58982;

/// Clamp on the height-to-distance ratio entering the speed correction.
pub const HEIGHT_RATIO_CLAMP_FX: i64 = 32768;

/// Grace period a projectile stays after sticking into the terrain.
pub const STUCK_GRACE_FX: i64 = 655360;

/// Magnitude of the cosmetic horizontal launch jitter.
pub const JITTER_XZ_FX: i64 = 1638;

/// Magnitude of the cosmetic vertical launch jitter; biased upward.
pub const JITTER_Y_FX: i64 = 3277;

/// Largest age the flight form accepts; lifetimes stay well under it.
pub const PROJECTILE_AGE_LIM_FX: i64 = 1310720;

/// A ballistic projectile. Its position at any age is the closed-form
/// parabola from the launch state; no intermediate velocity is stored.
pub struct Projectile {
    pub start_position: Vec3Fx,
    pub target_position: Vec3Fx,
    pub initial_velocity: Vec3Fx,
    pub lifetime: i64,
    pub age: i64,
    pub speed: i64,
}

/// The spec view of a projectile.
pub ghost struct ProjectileG {
    pub start: V3,
    pub target: V3,
    pub v0: V3,
    pub lifetime: int,
    pub age: int,
    pub speed: int,
}

pub open spec fn pw(p: Projectile) -> ProjectileG {
    ProjectileG {
        start: vw(p.start_position),
        target: vw(p.target_position),
        v0: vw(p.initial_velocity),
        lifetime: p.lifetime as int,
        age: p.age as int,
        speed: p.speed as int,
    }
}

/// A projectile the flight form accepts: in-range launch state, an age that
/// has not outrun the lifetime, and a lifetime within the grace-extended cap.
pub open spec fn wf_projectile(p: Projectile) -> bool {
    &&& p.start_position.bounded(PLAY_LIM as int + LAUNCH_OFFSET_Y_FX as int)
    &&& p.initial_velocity.bounded(LAUNCH_SPEED_MAX_FX as int + JITTER_Y_FX as int)
    &&& 0 <= p.age <= p.lifetime
    &&& 0 <= p.lifetime <= PROJECTILE_AGE_LIM_FX - FX_ONE
    &&& (p.speed != 0 ==> p.lifetime <= PROJECTILE_LIFETIME_FX)
}

/// The closed-form ballistic position at age `t`:
/// `start + v0 * t - (0, g t² / 2, 0)`.
pub open spec fn flight_pos_spec(start: V3, v0: V3, t: int) -> V3 {
    V3 {
        x: start.x + fxmul(v0.x, t),
        y: start.y + fxmul(v0.y, t) - fxmul(PROJECTILE_HALF_GRAVITY_FX as int, fxmul(t, t)),
        z: start.z + fxmul(v0.z, t),
    }
}

/// The solved launch velocity for a launcher at `p` aiming at `t`: the range
/// equation at the fixed elevation, corrected for height difference, clamped,
/// aimed along the horizontal direction to the target, and rescaled down for
/// targets beyond the distance cap.
pub open spec fn solve_launch_spec(p: V3, t: V3) -> V3 {
    let dx = t.x - p.x;
    let dz = t.z - p.z;
    let hdist = sqrt_i(dx * dx + dz * dz);
    let height_diff = t.y - p.y;
    let eff = min_i(hdist, MAX_HORIZONTAL_DIST_FX as int);
    let ratio = if eff > 0 {
        fxdiv(height_diff, eff)
    } else {
        0
    };
    let height_factor = if height_diff > 0 {
        HEIGHT_FACTOR_UP_FX + clamp_i(ratio, 0, HEIGHT_RATIO_CLAMP_FX as int)
    } else {
        HEIGHT_FACTOR_DOWN_FX + clamp_i(ratio, -(HEIGHT_RATIO_CLAMP_FX as int), 0)
    };
    let base_speed = range_speed_spec(eff);
    let final_speed = clamp_i(
        fxmul(base_speed, height_factor),
        LAUNCH_SPEED_MIN_FX as int,
        LAUNCH_SPEED_MAX_FX as int,
    );
    let dirx = if hdist > 0 {
        tdiv(dx * (FX_ONE as int), hdist)
    } else {
        FX_ONE as int
    };
    let dirz = if hdist > 0 {
        tdiv(dz * (FX_ONE as int), hdist)
    } else {
        0
    };
    let vx = fxmul(fxmul(final_speed, COS_ELEVATION_FX as int), dirx);
    let vy = fxmul(final_speed, SIN_ELEVATION_FX as int);
    let vz = fxmul(fxmul(final_speed, COS_ELEVATION_FX as int), dirz);
    if hdist > MAX_HORIZONTAL_DIST_FX as int {
        let sf = fxdiv(FAR_SCALE_NUM_FX as int, hdist);
        V3 { x: fxmul(vx, sf), y: fxmul(vy, sf), z: fxmul(vz, sf) }
    } else {
        V3 { x: vx, y: vy, z: vz }
    }
}

/// The launch speed the range equation asks for over an (already capped)
/// horizontal distance: `sqrt(g * dist / sin(2 * elevation))`.
pub open spec fn range_speed_spec(eff: int) -> int {
    let q = fxdiv(fxmul(PROJECTILE_GRAVITY_FX as int, eff), SIN_TWO_ELEVATION_FX as int);
    sqrt_i(q * (FX_ONE as int))
}

/// The range-equation launch speed for a horizontal distance, capped at the
/// distance limit: plugging this speed back into the ballistic range at the
/// fixed elevation recovers the capped distance (up to rounding).
pub fn range_equation_speed(dist: i64) -> (r: i64)
    requires
        0 <= dist,
    ensures
        r == range_speed_spec(min_i(dist as int, MAX_HORIZONTAL_DIST_FX as int)),
        0 <= r <= 1300000000,
{
    let eff: i64 = fx_min(dist, MAX_HORIZONTAL_DIST_FX);
    proof {
        lemma_mul_le_nonneg(
            abs_i(PROJECTILE_GRAVITY_FX as int),
            abs_i(eff as int),
            1284506,
            983040,
        );
        lemma_fxmul_bound(PROJECTILE_GRAVITY_FX as int, eff as int, 19267590);
        crate::fixed::lemma_fxmul_nonneg(PROJECTILE_GRAVITY_FX as int, eff as int);
    }
    let ge: i64 = fx_mul(PROJECTILE_GRAVITY_FX, eff);
    proof {
        lemma_mul_le_nonneg(abs_i(ge as int), FX_ONE as int, 19267590, FX_ONE as int);
        assert(19267590int * 65536 <= 22249000int * 56756) by (nonlinear_arith);
        lemma_fxdiv_bound(ge as int, SIN_TWO_ELEVATION_FX as int, 22249000);
        vstd::arithmetic::div_mod::lemma_div_pos_is_pos(
            (ge as int) * (FX_ONE as int),
            SIN_TWO_ELEVATION_FX as int,
        );
    }
    let q: i64 = fx_div(ge, SIN_TWO_ELEVATION_FX);
    let base64: u64 = isqrt_u(((q as u128) * 65536) as u128);
    proof {
        lemma_mul_le_nonneg(q as int, 65536, 22249000, 65536);
        lemma_sqrt_le((q as int) * 65536, base64 as int, 1300000000);
    }
    base64 as i64
}

/// Reach: within the distance cutoff, a level shot is never slowed by the
/// speed clamp. The solved velocity is exactly the range-equation speed
/// scaled by the level-shot height factor, aimed along the horizontal
/// direction at the fixed elevation — so plugging it back into the ballistic
/// range recovers the distance, shortened only by the square of that factor.
pub proof fn lemma_level_shot_unclamped(p: V3, t: V3)
    requires
        t.y == p.y,
        FX_ONE as int <= sqrt_i((t.x - p.x) * (t.x - p.x) + (t.z - p.z) * (t.z - p.z))
            <= MAX_HORIZONTAL_DIST_FX as int,
    ensures
        ({
            let dx = t.x - p.x;
            let dz = t.z - p.z;
            let hdist = sqrt_i(dx * dx + dz * dz);
            let s = fxmul(range_speed_spec(hdist), HEIGHT_FACTOR_DOWN_FX as int);
            let v = solve_launch_spec(p, t);
            &&& LAUNCH_SPEED_MIN_FX as int <= s <= LAUNCH_SPEED_MAX_FX as int
            &&& v.y == fxmul(s, SIN_ELEVATION_FX as int)
            &&& v.x == fxmul(
                fxmul(s, COS_ELEVATION_FX as int),
                tdiv(dx * (FX_ONE as int), hdist),
            )
            &&& v.z == fxmul(
                fxmul(s, COS_ELEVATION_FX as int),
                tdiv(dz * (FX_ONE as int), hdist),
            )
        }),
{
    let dx = t.x - p.x;
    let dz = t.z - p.z;
    let hdist = sqrt_i(dx * dx + dz * dz);
    let eff = min_i(hdist, MAX_HORIZONTAL_DIST_FX as int);
    assert(eff == hdist);
    // Level shot: the height ratio is zero, so the factor is the level base.
    vstd::arithmetic::div_mod::lemma_div_of0(eff);
    assert(fxdiv(0, eff) == 0);
    // The range-equation speed, bounded on both sides.
    let ge = fxmul(PROJECTILE_GRAVITY_FX as int, eff);
    crate::fixed::lemma_fxmul_nonneg(PROJECTILE_GRAVITY_FX as int, eff);
    lemma_mul_le_nonneg(abs_i(PROJECTILE_GRAVITY_FX as int), abs_i(eff), 1284506, 983040);
    lemma_fxmul_bound(PROJECTILE_GRAVITY_FX as int, eff, 19267590);
    assert(65536int * 1284506 <= 1284506 * eff) by (nonlinear_arith)
        requires
            eff >= 65536,
    ;
    crate::fixed::lemma_div_ge(1284506 * eff, FX_ONE as int, 1284506);
    assert(ge >= 1284506);
    let q = fxdiv(ge, SIN_TWO_ELEVATION_FX as int);
    vstd::arithmetic::div_mod::lemma_div_pos_is_pos(ge * (FX_ONE as int), 56756);
    lemma_mul_le_nonneg(abs_i(ge), FX_ONE as int, 19267590, FX_ONE as int);
    assert(19267590int * 65536 <= 22249000int * 56756) by (nonlinear_arith);
    lemma_fxdiv_bound(ge, SIN_TWO_ELEVATION_FX as int, 22249000);
    assert(1483215int * 56756 <= ge * 65536) by (nonlinear_arith)
        requires
            ge >= 1284506,
    ;
    crate::fixed::lemma_div_ge(ge * (FX_ONE as int), 56756, 1483215);
    assert(q >= 1483215);
    let base = range_speed_spec(eff);
    crate::fixed::lemma_sqrt_exists((q * (FX_ONE as int)) as nat);
    assert(base * base <= q * 65536 && q * 65536 < (base + 1) * (base + 1) && base >= 0);
    lemma_sqrt_le(q * 65536, base, 1210000);
    crate::fixed::lemma_sqrt_ge(q * 65536, base, 311000);
    // The corrected speed stays inside the clamp window.
    let s = fxmul(base, HEIGHT_FACTOR_DOWN_FX as int);
    crate::fixed::lemma_fxmul_nonneg(base, HEIGHT_FACTOR_DOWN_FX as int);
    lemma_mul_le_nonneg(abs_i(base), 58982, 1210000, 58982);
    lemma_fxmul_bound(base, HEIGHT_FACTOR_DOWN_FX as int, 1088993);
    assert(279898int * 65536 <= base * 58982) by (nonlinear_arith)
        requires
            base >= 311000,
    ;
    crate::fixed::lemma_div_ge(base * 58982, FX_ONE as int, 279898);
    assert(s >= 279898);
    assert(LAUNCH_SPEED_MIN_FX as int <= s <= LAUNCH_SPEED_MAX_FX as int);
    assert(clamp_i(s, LAUNCH_SPEED_MIN_FX as int, LAUNCH_SPEED_MAX_FX as int) == s);
}

/// Relies on rand's `random_range` over an inclusive integer range: the
/// result is uniform in `[lo, hi]`; the call panics only on an empty range,
/// which the precondition excludes. Nothing more is assumed of the outcome.
#[verifier::external_body]
fn random_in_range(lo: i64, hi: i64) -> (r: i64)
    requires
        lo <= hi,
    ensures
        lo <= r <= hi,
{
    rand::random_range(lo..=hi)
}

/// The solved launch velocity, computed.
fn solve_launch_velocity(p: Vec3Fx, t: Vec3Fx) -> (r: Vec3Fx)
    requires
        p.bounded(PLAY_LIM as int),
        t.bounded(PLAY_LIM as int),
    ensures
        vw(r) == solve_launch_spec(vw(p), vw(t)),
        r.bounded(LAUNCH_SPEED_MAX_FX as int),
{
    let dx: i64 = t.x - p.x;
    let dz: i64 = t.z - p.z;
    proof {
        lemma_abs_mul(dx as int, dx as int);
        lemma_abs_mul(dz as int, dz as int);
        lemma_sq_bound(dx as int, 2 * PLAY_LIM as int);
        lemma_sq_bound(dz as int, 2 * PLAY_LIM as int);
    }
    let ux: u64 = fx_abs_u(dx);
    let uz: u64 = fx_abs_u(dz);
    let hd2: u128 = (ux as u128) * (ux as u128) + (uz as u128) * (uz as u128);
    let hdist64: u64 = isqrt_u(hd2);
    proof {
        lemma_sqrt_le(hd2 as int, hdist64 as int, 4 * PLAY_LIM as int);
    }
    let hdist: i64 = hdist64 as i64;
    let height_diff: i64 = t.y - p.y;
    let eff: i64 = fx_min(hdist, MAX_HORIZONTAL_DIST_FX);
    let ratio: i64 = if eff > 0 {
        fx_div(height_diff, eff)
    } else {
        0
    };
    let height_factor: i64 = if height_diff > 0 {
        HEIGHT_FACTOR_UP_FX + fx_clamp(ratio, 0, HEIGHT_RATIO_CLAMP_FX)
    } else {
        HEIGHT_FACTOR_DOWN_FX + fx_clamp(ratio, -HEIGHT_RATIO_CLAMP_FX, 0)
    };
    let base_speed: i64 = range_equation_speed(eff);
    proof {
        assert(min_i(eff as int, MAX_HORIZONTAL_DIST_FX as int) == eff as int);
    }
    proof {
        lemma_mul_le_nonneg(
            abs_i(base_speed as int),
            abs_i(height_factor as int),
            1300000000,
            111411,
        );
        lemma_fxmul_bound(base_speed as int, height_factor as int, 2500000000);
    }
    let final_speed: i64 = fx_clamp(
        fx_mul(base_speed, height_factor),
        LAUNCH_SPEED_MIN_FX,
        LAUNCH_SPEED_MAX_FX,
    );
    let (dirx, dirz): (i64, i64) = if hdist > 0 {
        proof {
            lemma_sqrt_lt(hd2 as int, abs_i(dx as int), (hdist64 as int) + 1);
            lemma_sqrt_lt(hd2 as int, abs_i(dz as int), (hdist64 as int) + 1);
            lemma_mul_le_nonneg(abs_i(dx as int), FX_ONE as int, hdist as int, FX_LIM as int);
            lemma_mul_le_nonneg(abs_i(dz as int), FX_ONE as int, hdist as int, FX_LIM as int);
            assert((hdist as int) * (FX_LIM as int) == (FX_LIM as int) * (hdist as int))
                by (nonlinear_arith);
            lemma_abs_mul(dx as int, FX_ONE as int);
            lemma_abs_mul(dz as int, FX_ONE as int);
        }
        let mdx: i64 = mul_div(dx, FX_ONE, hdist);
        let mdz: i64 = mul_div(dz, FX_ONE, hdist);
        proof {
            assert(abs_i(mdx as int) <= FX_ONE as int) by (nonlinear_arith)
                requires
                    abs_i(mdx as int) * (hdist as int) <= abs_i(dx as int) * (FX_ONE as int),
                    abs_i(dx as int) <= hdist as int,
                    hdist >= 1,
                    abs_i(mdx as int) >= 0,
            ;
            assert(abs_i(mdz as int) <= FX_ONE as int) by (nonlinear_arith)
                requires
                    abs_i(mdz as int) * (hdist as int) <= abs_i(dz as int) * (FX_ONE as int),
                    abs_i(dz as int) <= hdist as int,
                    hdist >= 1,
                    abs_i(mdz as int) >= 0,
            ;
        }
        (mdx, mdz)
    } else {
        (FX_ONE, 0)
    };
    proof {
        lemma_fxmul_unit(final_speed as int, COS_ELEVATION_FX as int);
        lemma_fxmul_unit(final_speed as int, SIN_ELEVATION_FX as int);
        lemma_fxmul_unit(fxmul(final_speed as int, COS_ELEVATION_FX as int), dirx as int);
        lemma_fxmul_unit(fxmul(final_speed as int, COS_ELEVATION_FX as int), dirz as int);
    }
    let vx: i64 = fx_mul(fx_mul(final_speed, COS_ELEVATION_FX), dirx);
    let vy: i64 = fx_mul(final_speed, SIN_ELEVATION_FX);
    let vz: i64 = fx_mul(fx_mul(final_speed, COS_ELEVATION_FX), dirz);
    if hdist > MAX_HORIZONTAL_DIST_FX {
        proof {
            lemma_mul_le_nonneg(
                abs_i(FAR_SCALE_NUM_FX as int),
                FX_ONE as int,
                786432,
                FX_ONE as int,
            );
            assert(786432int * 65536 <= 65536int * 983040) by (nonlinear_arith);
            assert(65536int * (hdist as int) >= 65536int * 983040) by (nonlinear_arith)
                requires
                    hdist as int >= 983040,
            ;
            lemma_fxdiv_bound(FAR_SCALE_NUM_FX as int, hdist as int, FX_ONE as int);
        }
        let sf: i64 = fx_div(FAR_SCALE_NUM_FX, hdist);
        proof {
            lemma_fxmul_unit(vx as int, sf as int);
            lemma_fxmul_unit(vy as int, sf as int);
            lemma_fxmul_unit(vz as int, sf as int);
        }
        Vec3Fx { x: fx_mul(vx, sf), y: fx_mul(vy, sf), z: fx_mul(vz, sf) }
    } else {
        Vec3Fx { x: vx, y: vy, z: vz }
    }
}

/// Fire, if a valid pick exists: produce a projectile launched from just
/// above the player toward the picked target, its velocity the solved one
/// plus a small bounded cosmetic jitter with a slight upward bias. Without a
/// valid pick nothing is produced — fire is suppressed.
pub fn spawn_projectile(player_pos: Vec3Fx, look: &MouseLook) -> (r: Option<Projectile>)
    requires
        player_pos.bounded(PLAY_LIM as int),
        crate::camera::wf_mouselook(*look),
    ensures
        r is Some <==> look.is_initialized,
        r is Some ==> ({
            let pr = r.unwrap();
            let solved = solve_launch_spec(vw(player_pos), vw(look.target_position));
            &&& pr.start_position.x == player_pos.x
            &&& pr.start_position.y == player_pos.y + LAUNCH_OFFSET_Y_FX
            &&& pr.start_position.z == player_pos.z
            &&& pr.target_position == look.target_position
            &&& abs_i(pr.initial_velocity.x - solved.x) <= JITTER_XZ_FX as int
            &&& abs_i(pr.initial_velocity.z - solved.z) <= JITTER_XZ_FX as int
            &&& 0 <= pr.initial_velocity.y - solved.y <= JITTER_Y_FX as int
            &&& pr.lifetime == PROJECTILE_LIFETIME_FX
            &&& pr.age == 0
            &&& pr.speed == PROJECTILE_SPEED_FX
            &&& wf_projectile(pr)
        }),
{
    if !look.is_initialized {
        return None;
    }
    let solved: Vec3Fx = solve_launch_velocity(player_pos, look.target_position);
    let jx: i64 = random_in_range(-JITTER_XZ_FX, JITTER_XZ_FX);
    let jy: i64 = random_in_range(0, JITTER_Y_FX);
    let jz: i64 = random_in_range(-JITTER_XZ_FX, JITTER_XZ_FX);
    Some(
        Projectile {
            start_position: Vec3Fx {
                x: player_pos.x,
                y: player_pos.y + LAUNCH_OFFSET_Y_FX,
                z: player_pos.z,
            },
            target_position: look.target_position,
            initial_velocity: Vec3Fx { x: solved.x + jx, y: solved.y + jy, z: solved.z + jz },
            lifetime: PROJECTILE_LIFETIME_FX,
            age: 0,
            speed: PROJECTILE_SPEED_FX,
        },
    )
}

/// The closed-form flight position of a projectile at the given age.
pub fn projectile_position(p: &Projectile, t: i64) -> (r: Vec3Fx)
    requires
        wf_projectile(*p),
        0 <= t <= PROJECTILE_AGE_LIM_FX,
    ensures
        vw(r) == flight_pos_spec(vw(p.start_position), vw(p.initial_velocity), t as int),
        abs_i(r.x as int) <= WORLD_LIM as int,
        abs_i(r.z as int) <= WORLD_LIM as int,
{
    proof {
        lemma_mul_le_nonneg(abs_i(vw(p.initial_velocity).x), t as int, 1477837, 1310720);
        lemma_mul_le_nonneg(abs_i(vw(p.initial_velocity).y), t as int, 1477837, 1310720);
        lemma_mul_le_nonneg(abs_i(vw(p.initial_velocity).z), t as int, 1477837, 1310720);
        lemma_fxmul_bound(vw(p.initial_velocity).x, t as int, 29556740);
        lemma_fxmul_bound(vw(p.initial_velocity).y, t as int, 29556740);
        lemma_fxmul_bound(vw(p.initial_velocity).z, t as int, 29556740);
        lemma_mul_le_nonneg(t as int, t as int, 1310720, 1310720);
        lemma_fxmul_bound(t as int, t as int, 26214400);
        crate::fixed::lemma_fxmul_nonneg(t as int, t as int);
        lemma_mul_le_nonneg(
            abs_i(PROJECTILE_HALF_GRAVITY_FX as int),
            abs_i(fxmul(t as int, t as int)),
            642253,
            26214400,
        );
        lemma_fxmul_bound(PROJECTILE_HALF_GRAVITY_FX as int, fxmul(t as int, t as int), 256901200);
    }
    let mx: i64 = fx_mul(p.initial_velocity.x, t);
    let my: i64 = fx_mul(p.initial_velocity.y, t);
    let mz: i64 = fx_mul(p.initial_velocity.z, t);
    let tt: i64 = fx_mul(t, t);
    let drop: i64 = fx_mul(PROJECTILE_HALF_GRAVITY_FX, tt);
    Vec3Fx {
        x: p.start_position.x + mx,
        y: p.start_position.y + my - drop,
        z: p.start_position.z + mz,
    }
}

/// The aged projectile, after terrain interaction: the flight position at the
/// new age; if it lies at or below the terrain, snapped onto the surface,
/// flagged stuck, and — on first impact only — granted the grace period.
pub open spec fn proj_step_spec(g: ProjectileG, dt: int) -> ProjectileG {
    let age = g.age + dt;
    let raw = flight_pos_spec(g.start, g.v0, age);
    let h = spec_terrain_height(raw.x, raw.z);
    if raw.y <= h {
        ProjectileG {
            lifetime: if g.speed != 0 {
                age + STUCK_GRACE_FX as int
            } else {
                g.lifetime
            },
            age,
            speed: 0,
            ..g
        }
    } else {
        ProjectileG { age, ..g }
    }
}

/// The world position the aged projectile reports.
pub open spec fn proj_step_pos_spec(g: ProjectileG, dt: int) -> V3 {
    let age = g.age + dt;
    let raw = flight_pos_spec(g.start, g.v0, age);
    let h = spec_terrain_height(raw.x, raw.z);
    if raw.y <= h {
        V3 { x: raw.x, y: h, z: raw.z }
    } else {
        raw
    }
}

/// The aged projectile has outlived its lifetime and is to be removed.
pub open spec fn proj_expired_spec(g: ProjectileG, dt: int) -> bool {
    g.age + dt >= g.lifetime
}

/// One projectile tick: age the projectile; report nothing when the lifetime
/// is spent (the caller removes it); otherwise recompute the closed-form
/// position, snapping onto the terrain, flagging the projectile stuck and
/// granting the one-time grace period on impact.
pub fn update_projectile(p: &mut Projectile, dt: i64) -> (r: Option<Vec3Fx>)
    requires
        wf_projectile(*old(p)),
        0 <= dt <= FX_ONE,
    ensures
        r is None <==> proj_expired_spec(pw(*old(p)), dt as int),
        r is None ==> *final(p) == *old(p),
        r is Some ==> pw(*final(p)) == proj_step_spec(pw(*old(p)), dt as int),
        r is Some ==> vw(r.unwrap()) == proj_step_pos_spec(pw(*old(p)), dt as int),
        r is Some ==> wf_projectile(*final(p)),
{
    let age: i64 = p.age + dt;
    if age >= p.lifetime {
        return None;
    }
    let pos: Vec3Fx = projectile_position(p, age);
    let h: i64 = get_terrain_height(pos.x, pos.z);
    p.age = age;
    if pos.y <= h {
        if p.speed != 0 {
            p.lifetime = age + STUCK_GRACE_FX;
        }
        p.speed = 0;
        Some(Vec3Fx { x: pos.x, y: h, z: pos.z })
    } else {
        Some(pos)
    }
}

/// The whole-list step: every projectile aged, expired ones removed, the
/// rest updated through terrain interaction; order is preserved.
pub open spec fn proj_step_list_spec(s: Seq<ProjectileG>, dt: int) -> Seq<ProjectileG> {
    s.filter(|g: ProjectileG| !proj_expired_spec(g, dt)).map_values(
        |g: ProjectileG| proj_step_spec(g, dt),
    )
}

/// The world position recomputable from an already-stepped projectile.
pub open spec fn pos_of_stepped_spec(g: ProjectileG) -> V3 {
    let raw = flight_pos_spec(g.start, g.v0, g.age);
    let h = spec_terrain_height(raw.x, raw.z);
    if raw.y <= h {
        V3 { x: raw.x, y: h, z: raw.z }
    } else {
        raw
    }
}

/// Appending one projectile to the input appends its stepped form to the
/// output exactly when it survives the tick.
proof fn lemma_step_list_push(s: Seq<ProjectileG>, g: ProjectileG, dt: int)
    ensures
        !proj_expired_spec(g, dt) ==> proj_step_list_spec(s.push(g), dt) == proj_step_list_spec(
            s,
            dt,
        ).push(proj_step_spec(g, dt)),
        proj_expired_spec(g, dt) ==> proj_step_list_spec(s.push(g), dt) == proj_step_list_spec(
            s,
            dt,
        ),
{
    let pred = |x: ProjectileG| !proj_expired_spec(x, dt);
    let f = |x: ProjectileG| proj_step_spec(x, dt);
    reveal_with_fuel(Seq::filter, 2);
    assert(s.push(g).drop_last() =~= s);
    assert(s.push(g).last() == g);
    if pred(g) {
        assert(s.push(g).filter(pred) == s.filter(pred).push(g));
        assert(s.filter(pred).push(g).map_values(f) =~= s.filter(pred).map_values(f).push(f(g)));
    } else {
        assert(s.push(g).filter(pred) == s.filter(pred));
    }
}

/// One tick over all projectiles: each is aged, expired ones are removed in
/// order, the rest updated through terrain interaction. The returned
/// positions align index by index with the surviving projectiles.
pub fn update_projectiles(list: &mut Vec<Projectile>, dt: i64) -> (positions: Vec<Vec3Fx>)
    requires
        forall|k: int| 0 <= k < old(list)@.len() ==> wf_projectile(#[trigger] old(list)@[k]),
        0 <= dt <= FX_ONE,
    ensures
        final(list)@.map_values(|p: Projectile| pw(p)) == proj_step_list_spec(
            old(list)@.map_values(|p: Projectile| pw(p)),
            dt as int,
        ),
        positions@.len() == final(list)@.len(),
        forall|k: int| 0 <= k < final(list)@.len() ==> wf_projectile(#[trigger] final(list)@[k]),
        forall|k: int|
            0 <= k < final(list)@.len() ==> vw(#[trigger] positions@[k]) == pos_of_stepped_spec(
                pw(final(list)@[k]),
            ),
{
    let ghost src: Seq<Projectile> = list@;
    let ghost srcg: Seq<ProjectileG> = list@.map_values(|p: Projectile| pw(p));
    let n0: usize = list.len();
    proof {
        assert(src.len() == n0 as int);
    }
    let mut kept: Vec<Projectile> = Vec::new();
    let mut positions: Vec<Vec3Fx> = Vec::new();
    let mut i: usize = 0;
    while list.len() > 0
        invariant
            0 <= dt <= FX_ONE,
            srcg == src.map_values(|p: Projectile| pw(p)),
            src.len() <= usize::MAX,
            i + list@.len() == src.len(),
            list@ == src.subrange(i as int, src.len() as int),
            forall|k: int| 0 <= k < src.len() ==> wf_projectile(#[trigger] src[k]),
            kept@.map_values(|p: Projectile| pw(p)) == proj_step_list_spec(
                srcg.subrange(0, i as int),
                dt as int,
            ),
            positions@.len() == kept@.len(),
            forall|k: int| 0 <= k < kept@.len() ==> wf_projectile(#[trigger] kept@[k]),
            forall|k: int|
                0 <= k < kept@.len() ==> vw(#[trigger] positions@[k]) == pos_of_stepped_spec(
                    pw(kept@[k]),
                ),
        decreases list@.len(),
    {
        let mut p: Projectile = list.remove(0);
        proof {
            assert(p == src[i as int]);
            assert(list@ =~= src.subrange(i as int + 1, src.len() as int));
            assert(srcg.subrange(0, i as int + 1) =~= srcg.subrange(0, i as int).push(
                pw(src[i as int]),
            ));
            lemma_step_list_push(srcg.subrange(0, i as int), pw(src[i as int]), dt as int);
        }
        let ghost kept0: Seq<Projectile> = kept@;
        let r: Option<Vec3Fx> = update_projectile(&mut p, dt);
        match r {
            Some(pos) => {
                kept.push(p);
                positions.push(pos);
                proof {
                    assert(kept@.map_values(|q: Projectile| pw(q)) =~= kept0.map_values(
                        |q: Projectile| pw(q),
                    ).push(pw(p)));
                }
            },
            None => {
            },
        }
        i = i + 1;
    }
    proof {
        assert(srcg.subrange(0, src.len() as int) =~= srcg);
    }
    *list = kept;
    positions
}

} // verus!
