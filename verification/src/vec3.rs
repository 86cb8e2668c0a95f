//! Fixed-point vectors: 3D points and directions, 2D texture coordinates,
//! Euclidean length and unit-length normalization.

use crate::num::{
    isqrt, isqrt_u128, lemma_isqrt_unique, lemma_mul_bound, lemma_square_bound, lemma_tdiv_abs_le,
    tdiv, tdiv_i128, SCALE,
};
use vstd::prelude::*;

verus! {

/// A 3D point or direction whose components are fixed-point numbers in
/// `1/SCALE` units.
#[derive(Clone, Copy, Debug, PartialEq, Eq, Structural)]
pub struct Vec3 {
    pub x: i64,
    pub y: i64,
    pub z: i64,
}

/// A 2D texture coordinate in `1/SCALE` units.
#[derive(Clone, Copy, Debug, PartialEq, Eq, Structural)]
pub struct Vec2 {
    pub x: i64,
    pub y: i64,
}

/// The mathematical triple a `Vec3` stands for.
pub open spec fn vec3_model(v: Vec3) -> (int, int, int) {
    (v.x as int, v.y as int, v.z as int)
}

/// Squared Euclidean length of a triple.
pub open spec fn norm2(p: (int, int, int)) -> int {
    p.0 * p.0 + p.1 * p.1 + p.2 * p.2
}

/// All three components lie within `[-limit, limit]`.
pub open spec fn in_range(p: (int, int, int), limit: int) -> bool {
    &&& -limit <= p.0 <= limit
    &&& -limit <= p.1 <= limit
    &&& -limit <= p.2 <= limit
}

/// The fixed-point length of a triple: the integer square root of the squared
/// length, which is again a `1/SCALE` value.
pub open spec fn norm_spec(p: (int, int, int)) -> int {
    isqrt(norm2(p) as nat) as int
}

/// A triple scaled to unit length (length `SCALE` in fixed-point), rounding
/// each component toward zero; the zero vector has no direction and is kept.
pub open spec fn normalize_spec(p: (int, int, int)) -> (int, int, int) {
    if norm2(p) == 0 {
        p
    } else {
        let len = norm_spec(p);
        (tdiv(p.0 * SCALE, len), tdiv(p.1 * SCALE, len), tdiv(p.2 * SCALE, len))
    }
}

/// A triple is unit length in fixed point: its length is exactly one whole
/// unit, `SCALE` fixed-point steps.
pub open spec fn unit_norm(p: (int, int, int)) -> bool {
    norm_spec(p) == SCALE as int
}

/// Normalizing a triple that is already unit length returns it unchanged:
/// each component is multiplied by `SCALE` and divided by the length
/// `SCALE` again, an exact round trip.
pub proof fn lemma_normalize_unit(p: (int, int, int))
    requires
        unit_norm(p),
    ensures
        normalize_spec(p) == p,
{
    if norm2(p) == 0 {
        assert(isqrt(0) == 0);
    }
    crate::num::lemma_tdiv_mul_cancel(p.0, SCALE as int);
    crate::num::lemma_tdiv_mul_cancel(p.1, SCALE as int);
    crate::num::lemma_tdiv_mul_cancel(p.2, SCALE as int);
}

/// A sum of squares is never negative.
pub proof fn lemma_norm2_nonneg(p: (int, int, int))
    by (nonlinear_arith)
    ensures
        norm2(p) >= 0,
{
}

/// Each component of a vector is bounded in magnitude by the vector's length.
pub proof fn lemma_component_le_norm(p: (int, int, int))
    ensures
        -norm_spec(p) <= p.0 <= norm_spec(p),
        -norm_spec(p) <= p.1 <= norm_spec(p),
        -norm_spec(p) <= p.2 <= norm_spec(p),
{
    lemma_abs_le_isqrt_of_square_sum(p.0, p.1, p.2);
    lemma_abs_le_isqrt_of_square_sum(p.1, p.0, p.2);
    lemma_abs_le_isqrt_of_square_sum(p.2, p.0, p.1);
    assert(p.1 * p.1 + p.0 * p.0 + p.2 * p.2 == norm2(p));
    assert(p.2 * p.2 + p.0 * p.0 + p.1 * p.1 == norm2(p));
}

proof fn lemma_abs_le_isqrt_of_square_sum(a: int, b: int, c: int)
    ensures
        ({
            let n = (a * a + b * b + c * c) as nat;
            -(isqrt(n) as int) <= a <= isqrt(n) as int
        }),
{
    let aa = if a >= 0 {
        a
    } else {
        -a
    };
    assert(a * a == aa * aa) by (nonlinear_arith)
        requires
            aa == a || aa == -a,
    ;
    assert(aa * aa >= 0 && b * b >= 0 && c * c >= 0) by (nonlinear_arith);
    assert(aa * aa < (aa + 1) * (aa + 1)) by (nonlinear_arith)
        requires
            aa >= 0,
    ;
    let n = (a * a + b * b + c * c) as nat;
    assert((aa * aa) as nat <= n);
    lemma_isqrt_unique((aa * aa) as nat, aa as nat);
    crate::num::lemma_isqrt_monotone((aa * aa) as nat, n);
}

impl Vec3 {
    /// Fixed-point Euclidean length of the vector.
    pub fn norm(&self) -> (r: i64)
        requires
            in_range(vec3_model(*self), 0x4000_0000_0000_0000),
        ensures
            r as int == norm_spec(vec3_model(*self)),
            r >= 0,
    {
        proof {
            lemma_square_bound(self.x as int, 0x4000_0000_0000_0000);
            lemma_square_bound(self.y as int, 0x4000_0000_0000_0000);
            lemma_square_bound(self.z as int, 0x4000_0000_0000_0000);
        }
        let xx: i128 = (self.x as i128) * (self.x as i128);
        let yy: i128 = (self.y as i128) * (self.y as i128);
        let zz: i128 = (self.z as i128) * (self.z as i128);
        let n2: u128 = (xx + yy + zz) as u128;
        let r: u128 = isqrt_u128(n2);
        proof {
            assert(r < 0x8000_0000_0000_0000) by (nonlinear_arith)
                requires
                    (r as int) * (r as int) <= n2 as int,
                    n2 as int <= 3 * (0x4000_0000_0000_0000int * 0x4000_0000_0000_0000int),
                    r >= 0,
            ;
        }
        r as i64
    }

    /// Scale the vector to unit length, rounding each component toward zero;
    /// the zero vector is returned unchanged.
    pub fn normalized(&self) -> (r: Vec3)
        requires
            in_range(vec3_model(*self), 0x4000_0000_0000_0000),
        ensures
            vec3_model(r) == normalize_spec(vec3_model(*self)),
    {
        proof {
            lemma_norm2_nonneg(vec3_model(*self));
        }
        let len: i64 = self.norm();
        if len == 0 {
            proof {
                let m = vec3_model(*self);
                lemma_component_le_norm(m);
                assert(m.0 == 0 && m.1 == 0 && m.2 == 0);
                assert(norm2(m) == 0) by (nonlinear_arith)
                    requires
                        m.0 == 0 && m.1 == 0 && m.2 == 0,
                ;
            }
            *self
        } else {
            proof {
                lemma_component_le_norm(vec3_model(*self));
                lemma_mul_bound(self.x as int, SCALE as int, len as int, SCALE as int);
                lemma_mul_bound(self.y as int, SCALE as int, len as int, SCALE as int);
                lemma_mul_bound(self.z as int, SCALE as int, len as int, SCALE as int);
                lemma_tdiv_abs_le(self.x as int * SCALE, len as int, SCALE as int);
                lemma_tdiv_abs_le(self.y as int * SCALE, len as int, SCALE as int);
                lemma_tdiv_abs_le(self.z as int * SCALE, len as int, SCALE as int);
            }
            let nx: i128 = tdiv_i128((self.x as i128) * (SCALE as i128), len as i128);
            let ny: i128 = tdiv_i128((self.y as i128) * (SCALE as i128), len as i128);
            let nz: i128 = tdiv_i128((self.z as i128) * (SCALE as i128), len as i128);
            Vec3 { x: nx as i64, y: ny as i64, z: nz as i64 }
        }
    }
}

} // verus!
