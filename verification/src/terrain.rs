//! The procedural height field: a deterministic, seeded function from world
//! (x, z) coordinates to terrain elevation.
//!
//! Three octaves of seeded lattice-value noise at distinct spatial scales are
//! summed with fixed weights, remapped through a monotone curve that sharpens
//! peaks and flattens valleys, and scaled to the terrain height range. The
//! whole pipeline is integer arithmetic, so a sample is bit-identical for
//! identical inputs — the property chunk seams and physics rely on.

use vstd::prelude::*;
use vstd::arithmetic::div_mod::lemma_div_is_ordered;
use vstd::arithmetic::div_mod::lemma_div_pos_is_pos;
use vstd::arithmetic::div_mod::lemma_fundamental_div_mod;
use vstd::arithmetic::div_mod::lemma_mod_division_less_than_divisor;
use vstd::arithmetic::div_mod::lemma_multiply_divide_le;
use crate::fixed::{
    FX_ONE, abs_i, clamp_i, fx_clamp, fx_lerp, fx_mul, fxlerp, fxmul, lemma_fxmul_bound,
    lemma_fxmul_nonneg, lemma_mul_le_nonneg, lemma_sq_bound, };

verus! {

/// World-space side length of one terrain chunk.
pub const CHUNK_SIZE_FX: i64 = 2621440;

/// Vertices per chunk side (one grid cell less than the vertex count).
pub const CHUNK_RESOLUTION: usize = 24;

/// Peak-to-valley scale of the terrain.
pub const TERRAIN_HEIGHT_SCALE_FX: i64 = 524288;

/// Base seed of the height field.
pub const TERRAIN_SEED: u64 = 123;

/// Spatial scale of the primary terrain features.
pub const MAIN_NOISE_SCALE_FX: i64 = 5242880;

/// Spatial scale of the secondary details.
pub const DETAIL_NOISE_SCALE_FX: i64 = 1966080;

/// Spatial scale of the small details.
pub const TERTIARY_NOISE_SCALE_FX: i64 = 655360;

/// Largest world coordinate magnitude the height field accepts.
pub const WORLD_LIM: i64 = 0x20_0000_0000;

/// The pseudo-random lattice corner value in [-FX_ONE, FX_ONE]: a
/// multiplicative hash of the cell coordinates and the seed, folded into the
/// fixed-point unit range. Pure integer arithmetic, hence deterministic.
#[verifier::opaque]
pub open spec fn corner_spec(seed: int, cx: int, cz: int) -> int {
    let ux = cx + 0x100000000;
    let uz = cz + 0x100000000;
    let u = ux * 73856093 + uz * 19349663 + seed * 83492791;
    let m = (u * 2654435761) % 0x1FFFFFFFFFFFFFFF;
    let w = (m * 2246822519) % 0x1FFFFFFFFFFFFFFF;
    (w % 131073) - 65536
}

/// The smoothstep fade `t * t * (3 - 2 * t)` on fixed-point fractions.
#[verifier::opaque]
pub open spec fn fade_spec(t: int) -> int {
    (t * t * (3 * 65536 - 2 * t)) / 0x100000000
}

/// One octave of lattice-value noise: bilinear interpolation, with smoothstep
/// fades, of the four corner values of the lattice cell containing (x, z).
#[verifier::opaque]
pub open spec fn value_noise_spec(seed: int, x: int, z: int, scale: int) -> int {
    let cx = x / scale;
    let cz = z / scale;
    let tx = ((x % scale) * 65536) / scale;
    let tz = ((z % scale) * 65536) / scale;
    let u = fade_spec(tx);
    let v = fade_spec(tz);
    let c00 = corner_spec(seed, cx, cz);
    let c10 = corner_spec(seed, cx + 1, cz);
    let c01 = corner_spec(seed, cx, cz + 1);
    let c11 = corner_spec(seed, cx + 1, cz + 1);
    fxlerp(fxlerp(c00, c10, u), fxlerp(c01, c11, u), v)
}

/// The weighted sum of the three noise octaves at (x, z).
pub open spec fn combined_noise_spec(x: int, z: int) -> int {
    let main = value_noise_spec(TERRAIN_SEED as int, x, z, MAIN_NOISE_SCALE_FX as int);
    let detail = value_noise_spec(TERRAIN_SEED as int + 42, x, z, DETAIL_NOISE_SCALE_FX as int);
    let tertiary = value_noise_spec(
        TERRAIN_SEED as int + 123,
        x,
        z,
        TERTIARY_NOISE_SCALE_FX as int,
    );
    main + fxmul(detail, 19661) + fxmul(tertiary, 6554)
}

/// The monotone remap of the summed octaves: normalize into [0, 1], sharpen
/// peaks and flatten valleys with a curve blending the value and its square,
/// rescale to [-1, 1], and apply the global height scale.
pub open spec fn remap_spec(combined: int) -> int {
    let clamped = clamp_i(combined + 65536, 0, 131072);
    let half = clamped / 2;
    let curved = (7 * half + 3 * fxmul(half, half)) / 10;
    16 * curved - 524288
}

/// The terrain height at world coordinates (x, z): three weighted noise
/// octaves, a monotone peak-sharpening remap, and the global height scale.
pub open spec fn spec_terrain_height(x: int, z: int) -> int {
    remap_spec(combined_noise_spec(x, z))
}

/// Euclidean division of a world coordinate by a noise scale stays on the
/// lattice the corner hash accepts, and the remainder is a proper fraction.
proof fn lemma_ediv_lattice(x: int, d: int)
    requires
        655360 <= d <= 5242880,
        -0x2000000000 <= x <= 0x2000000000,
    ensures
        -209717 <= x / d <= 209717,
        0 <= x % d < d,
{
    lemma_fundamental_div_mod(x, d);
    lemma_mod_division_less_than_divisor(x, d);
    let q = x / d;
    let r = x % d;
    assert(-209717 <= q <= 209717) by (nonlinear_arith)
        requires
            x == d * q + r,
            0 <= r < d,
            655360 <= d <= 5242880,
            -0x2000000000 <= x <= 0x2000000000,
    ;
}

/// The hashed corner value of a lattice cell.
fn corner_value(seed: u64, cx: i64, cz: i64) -> (r: i64)
    requires
        seed <= 0x100000000,
        -0x40000000 <= cx <= 0x40000000,
        -0x40000000 <= cz <= 0x40000000,
    ensures
        r == corner_spec(seed as int, cx as int, cz as int),
        -65536 <= r <= 65536,
{
    proof {
        reveal(corner_spec);
    }
    let ux: u64 = (cx + 0x100000000) as u64;
    let uz: u64 = (cz + 0x100000000) as u64;
    let u: u128 = (ux as u128) * 73856093 + (uz as u128) * 19349663 + (seed as u128) * 83492791;
    let m: u128 = (u * 2654435761) % 0x1FFFFFFFFFFFFFFF;
    let w: u128 = (m * 2246822519) % 0x1FFFFFFFFFFFFFFF;
    let v: u128 = w % 131073;
    (v as i64) - 65536
}

/// The smoothstep fade of a fixed-point fraction.
fn fade(t: i64) -> (r: i64)
    requires
        0 <= t <= 65536,
    ensures
        r == fade_spec(t as int),
        0 <= r <= 65536,
{
    let tu: u64 = t as u64;
    proof {
        reveal(fade_spec);
        lemma_mul_le_nonneg(tu as int, tu as int, 65536, 65536);
        lemma_mul_le_nonneg((tu * tu) as int, 3 * 65536 - 2 * (tu as int), 0x100000000, 196608);
        lemma_fade_cube(t as int);
        lemma_div_is_ordered(
            (tu as int) * (tu as int) * (3 * 65536 - 2 * (tu as int)),
            65536int * 65536 * 65536,
            0x100000000,
        );
        lemma_div_pos_is_pos((tu as int) * (tu as int) * (3 * 65536 - 2 * (tu as int)), 0x100000000);
    }
    let q: u64 = tu * tu * (3 * 65536 - 2 * tu);
    let f: u64 = q / 0x100000000;
    f as i64
}

/// The fade cubic never leaves the unit range: `t² (3 - 2t) <= 1` on [0, 1].
proof fn lemma_fade_cube(t: int)
    by (nonlinear_arith)
    requires
        0 <= t <= 65536,
    ensures
        t * t * (3 * 65536 - 2 * t) <= 65536 * 65536 * 65536,
        0 <= t * t * (3 * 65536 - 2 * t),
{
    assert((65536 - t) * (65536 - t) * (65536 + 2 * t) >= 0);
}

/// One octave of lattice-value noise at the given spatial scale.
fn value_noise(seed: u64, x: i64, z: i64, scale: i64) -> (r: i64)
    requires
        seed <= 0x100000000,
        655360 <= scale <= 5242880,
        -WORLD_LIM <= x <= WORLD_LIM,
        -WORLD_LIM <= z <= WORLD_LIM,
    ensures
        r == value_noise_spec(seed as int, x as int, z as int, scale as int),
        -65536 <= r <= 65536,
{
    proof {
        reveal(value_noise_spec);
        lemma_ediv_lattice(x as int, scale as int);
        lemma_ediv_lattice(z as int, scale as int);
    }
    let cx: i64 = x.checked_div_euclid(scale).unwrap();
    let cz: i64 = z.checked_div_euclid(scale).unwrap();
    let rx: i64 = x.checked_rem_euclid(scale).unwrap();
    let rz: i64 = z.checked_rem_euclid(scale).unwrap();
    proof {
        lemma_mul_le_nonneg(rx as int, 65536, scale as int, 65536);
        lemma_mul_le_nonneg(rz as int, 65536, scale as int, 65536);
        lemma_multiply_divide_le((rx as int) * 65536, scale as int, 65536);
        lemma_multiply_divide_le((rz as int) * 65536, scale as int, 65536);
        lemma_div_pos_is_pos((rx as int) * 65536, scale as int);
        lemma_div_pos_is_pos((rz as int) * 65536, scale as int);
    }
    let tx: i64 = (((rx as u64) * 65536) / (scale as u64)) as i64;
    let tz: i64 = (((rz as u64) * 65536) / (scale as u64)) as i64;
    let u: i64 = fade(tx);
    let v: i64 = fade(tz);
    let c00: i64 = corner_value(seed, cx, cz);
    let c10: i64 = corner_value(seed, cx + 1, cz);
    let c01: i64 = corner_value(seed, cx, cz + 1);
    let c11: i64 = corner_value(seed, cx + 1, cz + 1);
    let a: i64 = fx_lerp(c00, c10, u);
    let b: i64 = fx_lerp(c01, c11, u);
    fx_lerp(a, b, v)
}

/// The remap stage, on the summed octaves.
fn remap_height(combined: i64) -> (r: i64)
    requires
        -91752 <= combined <= 91752,
    ensures
        r == remap_spec(combined as int),
        -TERRAIN_HEIGHT_SCALE_FX <= r <= TERRAIN_HEIGHT_SCALE_FX,
{
    let clamped: i64 = fx_clamp(combined + 65536, 0, 131072);
    let half: i64 = ((clamped as u64) / 2) as i64;
    proof {
        lemma_sq_bound(half as int, 65536);
        lemma_fxmul_bound(half as int, half as int, 65536);
        lemma_fxmul_nonneg(half as int, half as int);
        lemma_div_is_ordered(7 * (half as int) + 3 * fxmul(half as int, half as int), 655360, 10);
        lemma_div_pos_is_pos(7 * (half as int) + 3 * fxmul(half as int, half as int), 10);
    }
    let sq: i64 = fx_mul(half, half);
    let curved: i64 = (((7 * half + 3 * sq) as u64) / 10) as i64;
    16 * curved - 524288
}

/// The terrain height at any world position. Deterministic: the result is a
/// pure function of the coordinates and the (compile-time) seed, so repeated
/// queries agree exactly, and chunk meshes sampling world coordinates share
/// identical edge heights.
pub fn get_terrain_height(x: i64, z: i64) -> (r: i64)
    requires
        -WORLD_LIM <= x <= WORLD_LIM,
        -WORLD_LIM <= z <= WORLD_LIM,
    ensures
        r == spec_terrain_height(x as int, z as int),
        -TERRAIN_HEIGHT_SCALE_FX <= r <= TERRAIN_HEIGHT_SCALE_FX,
{
    let n_main: i64 = value_noise(TERRAIN_SEED, x, z, MAIN_NOISE_SCALE_FX);
    let n_detail: i64 = value_noise(TERRAIN_SEED + 42, x, z, DETAIL_NOISE_SCALE_FX);
    let n_tertiary: i64 = value_noise(TERRAIN_SEED + 123, x, z, TERTIARY_NOISE_SCALE_FX);
    proof {
        assert(abs_i(n_detail as int) <= 65536 && abs_i(19661) == 19661);
        assert(abs_i(n_tertiary as int) <= 65536 && abs_i(6554) == 6554);
        lemma_mul_le_nonneg(abs_i(n_detail as int), 19661, 65536, 19661);
        lemma_mul_le_nonneg(abs_i(n_tertiary as int), 6554, 65536, 6554);
        lemma_fxmul_bound(n_detail as int, 19661, 19661);
        lemma_fxmul_bound(n_tertiary as int, 6554, 6554);
    }
    let combined: i64 = n_main + fx_mul(n_detail, 19661) + fx_mul(n_tertiary, 6554);
    proof {
        assert(combined == combined_noise_spec(x as int, z as int));
    }
    remap_height(combined)
}

/// Height queries are deterministic: two results for one sample agree.
///
/// Any two values that the height contract produced for the same coordinates
/// are bit-identical, whatever order the queries ran in.
pub proof fn lemma_height_deterministic(x: int, z: int, r1: int, r2: int)
    requires
        r1 == spec_terrain_height(x, z),
        r2 == spec_terrain_height(x, z),
    ensures
        r1 == r2,
{
}

} // verus!
