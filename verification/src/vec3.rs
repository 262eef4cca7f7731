//! Fixed-point 3-D vectors.

use vstd::prelude::*;
use crate::fixed::{abs_spec, isqrt, lemma_isqrt_component, lemma_square_bound, sqrt_floor};

verus! {

/// A point or direction, one fixed-point coordinate per axis.
#[derive(Clone, Copy, Debug, PartialEq, Eq, Structural)]
pub struct Vec3Fx {
    /// x coordinate.
    pub x: i64,
    /// y coordinate.
    pub y: i64,
    /// z coordinate.
    pub z: i64,
}

/// Squared Euclidean norm.
pub open spec fn norm_sq_spec(v: Vec3Fx) -> int {
    (v.x as int) * (v.x as int) + (v.y as int) * (v.y as int) + (v.z as int) * (v.z as int)
}

/// Every coordinate's magnitude is bounded by `m`.
pub open spec fn in_box(v: Vec3Fx, m: int) -> bool {
    abs_spec(v.x as int) <= m && abs_spec(v.y as int) <= m && abs_spec(v.z as int) <= m
}

impl Vec3Fx {
    /// The origin.
    pub fn zero() -> (r: Vec3Fx)
        ensures
            r == (Vec3Fx { x: 0, y: 0, z: 0 }),
    {
        Vec3Fx { x: 0, y: 0, z: 0 }
    }

    /// Component-wise sum.
    pub fn add(self, other: Vec3Fx) -> (r: Vec3Fx)
        requires
            i64::MIN <= self.x + other.x <= i64::MAX,
            i64::MIN <= self.y + other.y <= i64::MAX,
            i64::MIN <= self.z + other.z <= i64::MAX,
        ensures
            r.x == self.x + other.x,
            r.y == self.y + other.y,
            r.z == self.z + other.z,
    {
        Vec3Fx { x: self.x + other.x, y: self.y + other.y, z: self.z + other.z }
    }

    /// Component-wise difference.
    pub fn sub(self, other: Vec3Fx) -> (r: Vec3Fx)
        requires
            i64::MIN <= self.x - other.x <= i64::MAX,
            i64::MIN <= self.y - other.y <= i64::MAX,
            i64::MIN <= self.z - other.z <= i64::MAX,
        ensures
            r.x == self.x - other.x,
            r.y == self.y - other.y,
            r.z == self.z - other.z,
    {
        Vec3Fx { x: self.x - other.x, y: self.y - other.y, z: self.z - other.z }
    }

    /// Squared norm, exact.
    pub fn norm_sq(self) -> (r: u128)
        requires
            in_box(self, 2_000_000_000_000_000_000),
        ensures
            r as int == norm_sq_spec(self),
    {
        proof {
            lemma_square_bound(self.x as int, 2_000_000_000_000_000_000);
            lemma_square_bound(self.y as int, 2_000_000_000_000_000_000);
            lemma_square_bound(self.z as int, 2_000_000_000_000_000_000);
        }
        let xs: i128 = (self.x as i128) * (self.x as i128);
        let ys: i128 = (self.y as i128) * (self.y as i128);
        let zs: i128 = (self.z as i128) * (self.z as i128);
        (xs as u128) + (ys as u128) + (zs as u128)
    }

    /// Euclidean length, rounded down; each coordinate's magnitude is
    /// bounded by the result.
    pub fn norm(self) -> (r: i64)
        requires
            in_box(self, 2_000_000_000_000_000_000),
        ensures
            r >= 0,
            (r as int) * (r as int) <= norm_sq_spec(self),
            (r as int + 1) * (r as int + 1) > norm_sq_spec(self),
            r as int == sqrt_floor(norm_sq_spec(self)),
            abs_spec(self.x as int) <= r as int,
            abs_spec(self.y as int) <= r as int,
            abs_spec(self.z as int) <= r as int,
    {
        let sq = self.norm_sq();
        let r = isqrt(sq);
        proof {
            let n = norm_sq_spec(self);
            lemma_square_bound(self.x as int, 2_000_000_000_000_000_000);
            lemma_square_bound(self.y as int, 2_000_000_000_000_000_000);
            lemma_square_bound(self.z as int, 2_000_000_000_000_000_000);
            assert(abs_spec(self.x as int) * abs_spec(self.x as int) == (self.x as int) * (
            self.x as int) && (self.y as int) * (self.y as int) >= 0 && (self.z as int) * (
            self.z as int) >= 0) by (nonlinear_arith);
            lemma_isqrt_component(abs_spec(self.x as int), r as int, n);
            assert(abs_spec(self.y as int) * abs_spec(self.y as int) == (self.y as int) * (
            self.y as int) && (self.x as int) * (self.x as int) >= 0) by (nonlinear_arith);
            lemma_isqrt_component(abs_spec(self.y as int), r as int, n);
            assert(abs_spec(self.z as int) * abs_spec(self.z as int) == (self.z as int) * (
            self.z as int)) by (nonlinear_arith);
            lemma_isqrt_component(abs_spec(self.z as int), r as int, n);
            assert(r as int <= 4_000_000_000_000_000_000) by (nonlinear_arith)
                requires
                    0 <= r as int,
                    (r as int) * (r as int) <= n,
                    n <= 3 * (2_000_000_000_000_000_000int * 2_000_000_000_000_000_000),
            {}
        }
        r as i64
    }
}

} // verus!
