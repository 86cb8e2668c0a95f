//! 4x4 fixed-point transformation matrices and the homogeneous point and
//! vector transforms they induce.
//!
//! A matrix entry is a fixed-point number in `1/SCALE` units. A point
//! `(x, y, z)` is transformed as the homogeneous column `(x, y, z, 1)`;
//! because every matrix accepted by the executable transforms is affine (its
//! bottom row is `(0, 0, 0, 1)`), the homogeneous weight of the result is
//! exactly `1` and normalizing by it is the identity.

use crate::num::{
    lemma_mul_bound, lemma_tdiv_abs_le, lemma_tdiv_mul_cancel, tdiv, tdiv_i128, SCALE,
};
use crate::vec3::{in_range, vec3_model, Vec3};
use vstd::prelude::*;

verus! {

/// Largest magnitude allowed for a matrix entry, `2^36` fixed-point steps.
pub const MAT_LIMIT: i64 = 0x10_0000_0000;

/// Largest magnitude allowed for a coordinate fed to a transform, `2^40`
/// fixed-point steps.
pub const POINT_LIMIT: i64 = 0x100_0000_0000;

/// Largest magnitude a transformed coordinate can reach, `2^62`.
pub const RESULT_LIMIT: i64 = 0x4000_0000_0000_0000;

/// One row of a 4x4 matrix.
#[derive(Clone, Copy, Debug, PartialEq, Eq, Structural)]
pub struct Row4 {
    pub x: i64,
    pub y: i64,
    pub z: i64,
    pub w: i64,
}

/// A 4x4 transformation matrix in row-major order.
#[derive(Clone, Copy, Debug, PartialEq, Eq, Structural)]
pub struct Mat4 {
    pub rx: Row4,
    pub ry: Row4,
    pub rz: Row4,
    pub rw: Row4,
}

/// The bottom row is `(0, 0, 0, 1)` in fixed-point, so the matrix maps
/// points with homogeneous weight `1` to points with homogeneous weight `1`.
pub open spec fn is_affine(m: Mat4) -> bool {
    m.rw.x == 0 && m.rw.y == 0 && m.rw.z == 0 && m.rw.w == SCALE
}

/// Every entry lies within `[-limit, limit]`.
pub open spec fn mat_in_range(m: Mat4, limit: int) -> bool {
    &&& row_in_range(m.rx, limit)
    &&& row_in_range(m.ry, limit)
    &&& row_in_range(m.rz, limit)
    &&& row_in_range(m.rw, limit)
}

pub open spec fn row_in_range(r: Row4, limit: int) -> bool {
    &&& -limit <= r.x <= limit
    &&& -limit <= r.y <= limit
    &&& -limit <= r.z <= limit
    &&& -limit <= r.w <= limit
}

/// Dot product of a matrix row with the homogeneous point `(p, 1)`; the `w`
/// entry meets the weight `1`, stored as `SCALE`.
pub open spec fn row_apply_point(r: Row4, p: (int, int, int)) -> int {
    r.x * p.0 + r.y * p.1 + r.z * p.2 + r.w * SCALE
}

/// Dot product of a matrix row with the homogeneous direction `(p, 0)`: the
/// translation column does not act on directions.
pub open spec fn row_apply_vector(r: Row4, p: (int, int, int)) -> int {
    r.x * p.0 + r.y * p.1 + r.z * p.2
}

/// The point an affine matrix sends `p` to: each row's dot product carries a
/// double `SCALE` factor, one from the entries and one from the coordinates,
/// and dividing one out returns the result to `1/SCALE` units.
pub open spec fn transform_point_spec(m: Mat4, p: (int, int, int)) -> (int, int, int) {
    (
        tdiv(row_apply_point(m.rx, p), SCALE as int),
        tdiv(row_apply_point(m.ry, p), SCALE as int),
        tdiv(row_apply_point(m.rz, p), SCALE as int),
    )
}

/// The direction an affine matrix sends `p` to; translation is ignored.
pub open spec fn transform_vector_spec(m: Mat4, p: (int, int, int)) -> (int, int, int) {
    (
        tdiv(row_apply_vector(m.rx, p), SCALE as int),
        tdiv(row_apply_vector(m.ry, p), SCALE as int),
        tdiv(row_apply_vector(m.rz, p), SCALE as int),
    )
}

/// The identity matrix: ones down the diagonal, in fixed-point.
pub open spec fn identity_spec() -> Mat4 {
    Mat4 {
        rx: Row4 { x: SCALE, y: 0, z: 0, w: 0 },
        ry: Row4 { x: 0, y: SCALE, z: 0, w: 0 },
        rz: Row4 { x: 0, y: 0, z: SCALE, w: 0 },
        rw: Row4 { x: 0, y: 0, z: 0, w: SCALE },
    }
}

/// A pure translation by `t`.
pub open spec fn translation_spec(t: Vec3) -> Mat4 {
    Mat4 {
        rx: Row4 { x: SCALE, y: 0, z: 0, w: t.x },
        ry: Row4 { x: 0, y: SCALE, z: 0, w: t.y },
        rz: Row4 { x: 0, y: 0, z: SCALE, w: t.z },
        rw: Row4 { x: 0, y: 0, z: 0, w: SCALE },
    }
}

/// The identity matrix moves no point and no direction.
pub proof fn lemma_identity_is_noop(p: (int, int, int))
    ensures
        transform_point_spec(identity_spec(), p) == p,
        transform_vector_spec(identity_spec(), p) == p,
{
    let m = identity_spec();
    assert(row_apply_point(m.rx, p) == p.0 * SCALE);
    assert(row_apply_point(m.ry, p) == p.1 * SCALE);
    assert(row_apply_point(m.rz, p) == p.2 * SCALE);
    assert(row_apply_vector(m.rx, p) == p.0 * SCALE);
    assert(row_apply_vector(m.ry, p) == p.1 * SCALE);
    assert(row_apply_vector(m.rz, p) == p.2 * SCALE);
    lemma_tdiv_mul_cancel(p.0, SCALE as int);
    lemma_tdiv_mul_cancel(p.1, SCALE as int);
    lemma_tdiv_mul_cancel(p.2, SCALE as int);
}

/// A translation matrix adds its offset to every point, exactly, and moves
/// no direction.
pub proof fn lemma_translation_adds(t: Vec3, p: (int, int, int))
    ensures
        transform_point_spec(translation_spec(t), p) == (p.0 + t.x, p.1 + t.y, p.2 + t.z),
        transform_vector_spec(translation_spec(t), p) == p,
{
    let m = translation_spec(t);
    assert(row_apply_point(m.rx, p) == (p.0 + t.x) * SCALE);
    assert(row_apply_point(m.ry, p) == (p.1 + t.y) * SCALE);
    assert(row_apply_point(m.rz, p) == (p.2 + t.z) * SCALE);
    assert(row_apply_vector(m.rx, p) == p.0 * SCALE);
    assert(row_apply_vector(m.ry, p) == p.1 * SCALE);
    assert(row_apply_vector(m.rz, p) == p.2 * SCALE);
    lemma_tdiv_mul_cancel(p.0 + t.x, SCALE as int);
    lemma_tdiv_mul_cancel(p.1 + t.y, SCALE as int);
    lemma_tdiv_mul_cancel(p.2 + t.z, SCALE as int);
    lemma_tdiv_mul_cancel(p.0, SCALE as int);
    lemma_tdiv_mul_cancel(p.1, SCALE as int);
    lemma_tdiv_mul_cancel(p.2, SCALE as int);
}

impl Mat4 {
    /// The identity transform.
    pub fn identity() -> (r: Mat4)
        ensures
            r == identity_spec(),
            is_affine(r),
            mat_in_range(r, MAT_LIMIT as int),
    {
        Mat4 {
            rx: Row4 { x: SCALE, y: 0, z: 0, w: 0 },
            ry: Row4 { x: 0, y: SCALE, z: 0, w: 0 },
            rz: Row4 { x: 0, y: 0, z: SCALE, w: 0 },
            rw: Row4 { x: 0, y: 0, z: 0, w: SCALE },
        }
    }

    /// A pure translation by `t`.
    pub fn from_translation(t: &Vec3) -> (r: Mat4)
        ensures
            r == translation_spec(*t),
            is_affine(r),
            in_range(vec3_model(*t), MAT_LIMIT as int) ==> mat_in_range(r, MAT_LIMIT as int),
    {
        Mat4 {
            rx: Row4 { x: SCALE, y: 0, z: 0, w: t.x },
            ry: Row4 { x: 0, y: SCALE, z: 0, w: t.y },
            rz: Row4 { x: 0, y: 0, z: SCALE, w: t.z },
            rw: Row4 { x: 0, y: 0, z: 0, w: SCALE },
        }
    }

    /// Apply the matrix to a point (homogeneous weight `1`).
    pub fn transform_point(&self, p: &Vec3) -> (r: Vec3)
        requires
            is_affine(*self),
            mat_in_range(*self, MAT_LIMIT as int),
            in_range(vec3_model(*p), POINT_LIMIT as int),
        ensures
            vec3_model(r) == transform_point_spec(*self, vec3_model(*p)),
            in_range(vec3_model(r), RESULT_LIMIT as int),
    {
        let x = row_dot_point(&self.rx, p);
        let y = row_dot_point(&self.ry, p);
        let z = row_dot_point(&self.rz, p);
        Vec3 { x, y, z }
    }

    /// Apply the matrix to a direction (homogeneous weight `0`).
    pub fn transform_vector(&self, p: &Vec3) -> (r: Vec3)
        requires
            mat_in_range(*self, MAT_LIMIT as int),
            in_range(vec3_model(*p), POINT_LIMIT as int),
        ensures
            vec3_model(r) == transform_vector_spec(*self, vec3_model(*p)),
            in_range(vec3_model(r), RESULT_LIMIT as int),
    {
        let x = row_dot_vector(&self.rx, p);
        let y = row_dot_vector(&self.ry, p);
        let z = row_dot_vector(&self.rz, p);
        Vec3 { x, y, z }
    }
}

fn row_dot_point(r: &Row4, p: &Vec3) -> (d: i64)
    requires
        row_in_range(*r, MAT_LIMIT as int),
        in_range(vec3_model(*p), POINT_LIMIT as int),
    ensures
        d as int == tdiv(row_apply_point(*r, vec3_model(*p)), SCALE as int),
        -RESULT_LIMIT <= d <= RESULT_LIMIT,
{
    proof {
        lemma_mul_bound(r.x as int, p.x as int, MAT_LIMIT as int, POINT_LIMIT as int);
        lemma_mul_bound(r.y as int, p.y as int, MAT_LIMIT as int, POINT_LIMIT as int);
        lemma_mul_bound(r.z as int, p.z as int, MAT_LIMIT as int, POINT_LIMIT as int);
        lemma_mul_bound(r.w as int, SCALE as int, MAT_LIMIT as int, SCALE as int);
    }
    let s: i128 = (r.x as i128) * (p.x as i128) + (r.y as i128) * (p.y as i128) + (r.z as i128)
        * (p.z as i128) + (r.w as i128) * (SCALE as i128);
    proof {
        lemma_tdiv_abs_le(s as int, SCALE as int, RESULT_LIMIT as int);
    }
    tdiv_i128(s, SCALE as i128) as i64
}

fn row_dot_vector(r: &Row4, p: &Vec3) -> (d: i64)
    requires
        row_in_range(*r, MAT_LIMIT as int),
        in_range(vec3_model(*p), POINT_LIMIT as int),
    ensures
        d as int == tdiv(row_apply_vector(*r, vec3_model(*p)), SCALE as int),
        -RESULT_LIMIT <= d <= RESULT_LIMIT,
{
    proof {
        lemma_mul_bound(r.x as int, p.x as int, MAT_LIMIT as int, POINT_LIMIT as int);
        lemma_mul_bound(r.y as int, p.y as int, MAT_LIMIT as int, POINT_LIMIT as int);
        lemma_mul_bound(r.z as int, p.z as int, MAT_LIMIT as int, POINT_LIMIT as int);
    }
    let s: i128 = (r.x as i128) * (p.x as i128) + (r.y as i128) * (p.y as i128) + (r.z as i128)
        * (p.z as i128);
    proof {
        lemma_tdiv_abs_le(s as int, SCALE as int, RESULT_LIMIT as int);
    }
    tdiv_i128(s, SCALE as i128) as i64
}

} // verus!
