//! Three-component fixed-point vectors: positions, velocities and normals.

use vstd::prelude::*;
use crate::fixed::{
    FX_LIM, FX_ONE, abs_i, fx_abs_u, fx_lerp, fx_mul, fxlerp, fxmul, is_sqrt, isqrt_u,
    lemma_abs_mul, lemma_sq_bound, max_i, min_i, sqrt_i,
};

verus! {

/// A world-space vector; each component is a fixed-point value.
#[derive(Clone, Copy, Debug, PartialEq, Eq, Structural)]
pub struct Vec3Fx {
    pub x: i64,
    pub y: i64,
    pub z: i64,
}

impl Vec3Fx {
    /// Every component has magnitude at most `lim`.
    pub open spec fn bounded(self, lim: int) -> bool {
        abs_i(self.x as int) <= lim && abs_i(self.y as int) <= lim && abs_i(self.z as int) <= lim
    }

    pub open spec fn norm_sq_spec(self) -> int {
        (self.x as int) * (self.x as int) + (self.y as int) * (self.y as int) + (self.z as int)
            * (self.z as int)
    }

    /// The squared length of the horizontal (x, z) part.
    pub open spec fn horiz_sq_spec(self) -> int {
        (self.x as int) * (self.x as int) + (self.z as int) * (self.z as int)
    }

    pub fn zero() -> (r: Vec3Fx)
        ensures
            r == (Vec3Fx { x: 0, y: 0, z: 0 }),
    {
        Vec3Fx { x: 0, y: 0, z: 0 }
    }

    pub fn new(x: i64, y: i64, z: i64) -> (r: Vec3Fx)
        ensures
            r == (Vec3Fx { x, y, z }),
    {
        Vec3Fx { x, y, z }
    }

    pub fn add(self, o: Vec3Fx) -> (r: Vec3Fx)
        requires
            self.bounded(FX_LIM as int),
            o.bounded(FX_LIM as int),
        ensures
            r.x == self.x + o.x,
            r.y == self.y + o.y,
            r.z == self.z + o.z,
    {
        Vec3Fx { x: self.x + o.x, y: self.y + o.y, z: self.z + o.z }
    }

    pub fn sub(self, o: Vec3Fx) -> (r: Vec3Fx)
        requires
            self.bounded(FX_LIM as int),
            o.bounded(FX_LIM as int),
        ensures
            r.x == self.x - o.x,
            r.y == self.y - o.y,
            r.z == self.z - o.z,
    {
        Vec3Fx { x: self.x - o.x, y: self.y - o.y, z: self.z - o.z }
    }

    /// Componentwise fixed-point scaling by the factor `t`.
    pub fn scale(self, t: i64) -> (r: Vec3Fx)
        requires
            self.bounded(FX_LIM as int),
            -FX_LIM <= t <= FX_LIM,
        ensures
            r.x == fxmul(self.x as int, t as int),
            r.y == fxmul(self.y as int, t as int),
            r.z == fxmul(self.z as int, t as int),
    {
        Vec3Fx { x: fx_mul(self.x, t), y: fx_mul(self.y, t), z: fx_mul(self.z, t) }
    }

    /// Componentwise interpolation toward `o` by the fixed-point fraction `t`.
    pub fn lerp(self, o: Vec3Fx, t: i64) -> (r: Vec3Fx)
        requires
            self.bounded((FX_LIM / 2) as int),
            o.bounded((FX_LIM / 2) as int),
            0 <= t <= FX_ONE,
        ensures
            r.x == fxlerp(self.x as int, o.x as int, t as int),
            r.y == fxlerp(self.y as int, o.y as int, t as int),
            r.z == fxlerp(self.z as int, o.z as int, t as int),
            r.x <= max_i(self.x as int, o.x as int) && r.x >= min_i(self.x as int, o.x as int),
            r.y <= max_i(self.y as int, o.y as int) && r.y >= min_i(self.y as int, o.y as int),
            r.z <= max_i(self.z as int, o.z as int) && r.z >= min_i(self.z as int, o.z as int),
    {
        Vec3Fx {
            x: fx_lerp(self.x, o.x, t),
            y: fx_lerp(self.y, o.y, t),
            z: fx_lerp(self.z, o.z, t),
        }
    }

    /// The squared length, exact, as an unsigned word.
    pub fn norm_sq(self) -> (r: u128)
        requires
            self.bounded(0x4000_0000_0000),
        ensures
            r == self.norm_sq_spec(),
    {
        proof {
            lemma_abs_mul(self.x as int, self.x as int);
            lemma_abs_mul(self.y as int, self.y as int);
            lemma_abs_mul(self.z as int, self.z as int);
            lemma_sq_bound(self.x as int, 0x4000_0000_0000);
            lemma_sq_bound(self.y as int, 0x4000_0000_0000);
            lemma_sq_bound(self.z as int, 0x4000_0000_0000);
        }
        let ux: u64 = fx_abs_u(self.x);
        let uy: u64 = fx_abs_u(self.y);
        let uz: u64 = fx_abs_u(self.z);
        (ux as u128) * (ux as u128) + (uy as u128) * (uy as u128) + (uz as u128) * (uz as u128)
    }

    /// The squared length of the horizontal (x, z) part, exact.
    pub fn horiz_sq(self) -> (r: u128)
        requires
            self.bounded(0x4000_0000_0000),
        ensures
            r == self.horiz_sq_spec(),
    {
        proof {
            lemma_abs_mul(self.x as int, self.x as int);
            lemma_abs_mul(self.z as int, self.z as int);
            lemma_sq_bound(self.x as int, 0x4000_0000_0000);
            lemma_sq_bound(self.z as int, 0x4000_0000_0000);
        }
        let ux: u64 = fx_abs_u(self.x);
        let uz: u64 = fx_abs_u(self.z);
        (ux as u128) * (ux as u128) + (uz as u128) * (uz as u128)
    }

    /// The length, rounded down; fixed-point, like the components.
    pub fn length(self) -> (r: i64)
        requires
            self.bounded(FX_LIM as int),
        ensures
            r == sqrt_i(self.norm_sq_spec()),
            0 <= r < 0x10000000000,
            is_sqrt(self.norm_sq_spec(), r as int),
    {
        proof {
            lemma_sq_bound(self.x as int, FX_LIM as int);
            lemma_sq_bound(self.y as int, FX_LIM as int);
            lemma_sq_bound(self.z as int, FX_LIM as int);
        }
        let n: u128 = self.norm_sq();
        let s: u64 = isqrt_u(n);
        proof {
            lemma_sqrt_sq_le(n as int, s as int);
        }
        s as i64
    }
}

/// A square root witness is bounded by the square root of its square's bound.
pub proof fn lemma_sqrt_sq_le(n: int, s: int)
    by (nonlinear_arith)
    requires
        is_sqrt(n, s),
        n < 0x100000000000000000000,
    ensures
        s < 0x10000000000,
{
}

} // verus!
