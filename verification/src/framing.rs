//! Spherical camera and light placement: the bounding-sphere radius of a
//! mesh around the origin, the camera distance that fits that sphere into a
//! vertical field of view, and the spherical-to-Cartesian position of a
//! camera or light given its polar and azimuthal angles.

use crate::mesh::Mesh;
use crate::num::{
    fixed_div, isqrt, isqrt_u128, lemma_mul_bound, lemma_square_bound, lemma_tdiv_abs_le, tdiv,
    tdiv_i128, SCALE,
};
use crate::vec3::{in_range, norm2, vec3_model, Vec3};
use vstd::prelude::*;

verus! {

/// The squared distances of a vertex sequence from the origin.
pub open spec fn norm2s(s: Seq<Vec3>) -> Seq<int> {
    s.map_values(|v: Vec3| norm2(vec3_model(v)))
}

/// The bounding-sphere radius of a mesh around the origin: the greatest
/// Euclidean distance from the origin to any vertex, in fixed-point, and
/// zero for an empty mesh.
pub fn max_distance_from_origin(mesh: &Mesh) -> (r: i64)
    requires
        mesh.positions_in_range(0x4000_0000_0000_0000),
    ensures
        mesh.positions@.len() == 0 ==> r == 0,
        mesh.positions@.len() > 0 ==> r as int == isqrt(norm2s(mesh.positions@).max() as nat),
        r >= 0,
{
    let n = mesh.positions.len();
    if n == 0 {
        return 0;
    }
    let mut best: u128 = vertex_norm2(&mesh.positions[0]);
    let mut i: usize = 1;
    while i < n
        invariant
            1 <= i <= n,
            n == mesh.positions@.len(),
            mesh.positions_in_range(0x4000_0000_0000_0000),
            forall|j: int|
                0 <= j < i ==> norm2(vec3_model(#[trigger] mesh.positions@[j])) <= best as int,
            exists|j: int|
                0 <= j < i && best as int == norm2(vec3_model(#[trigger] mesh.positions@[j])),
            best <= 3 * (0x4000_0000_0000_0000u128 * 0x4000_0000_0000_0000u128),
        decreases n - i,
    {
        let sq = vertex_norm2(&mesh.positions[i]);
        if sq > best {
            best = sq;
            proof {
                assert(best as int == norm2(vec3_model(mesh.positions@[i as int])));
            }
        }
        i = i + 1;
    }
    proof {
        let s = mesh.positions@;
        let q = norm2s(s);
        assert(q.len() == s.len());
        assert forall|j: int| 0 <= j < q.len() implies #[trigger] q[j] <= best as int by {
            assert(q[j] == norm2(vec3_model(s[j])));
        }
        let w = choose|j: int| 0 <= j < s.len() && best as int == norm2(vec3_model(#[trigger] s[j]));
        assert(q[w] == best as int);
        crate::bounding_box::lemma_max_char(q, best as int);
    }
    let r: u128 = isqrt_u128(best);
    proof {
        assert(r < 0x8000_0000_0000_0000) by (nonlinear_arith)
            requires
                (r as int) * (r as int) <= best as int,
                best as int <= 3 * (0x4000_0000_0000_0000int * 0x4000_0000_0000_0000int),
                r >= 0,
        ;
    }
    r as i64
}

/// Squared distance of a vertex from the origin, exactly.
fn vertex_norm2(v: &Vec3) -> (r: u128)
    requires
        in_range(vec3_model(*v), 0x4000_0000_0000_0000),
    ensures
        r as int == norm2(vec3_model(*v)),
        r <= 3 * (0x4000_0000_0000_0000u128 * 0x4000_0000_0000_0000u128),
{
    proof {
        lemma_square_bound(v.x as int, 0x4000_0000_0000_0000);
        lemma_square_bound(v.y as int, 0x4000_0000_0000_0000);
        lemma_square_bound(v.z as int, 0x4000_0000_0000_0000);
    }
    let xx: i128 = (v.x as i128) * (v.x as i128);
    let yy: i128 = (v.y as i128) * (v.y as i128);
    let zz: i128 = (v.z as i128) * (v.z as i128);
    (xx + yy + zz) as u128
}

/// The camera distance that fits a bounding sphere of the given radius into
/// the frustum: `radius / sin(fovy / 2)`, with the sine handed in as a
/// fixed-point value.
pub fn camera_distance(radius: i64, sin_half_fovy: i64) -> (r: i64)
    requires
        0 <= radius <= 0x4000_0000_0000,
        1 <= sin_half_fovy <= SCALE,
    ensures
        r as int == tdiv(radius * SCALE, sin_half_fovy as int),
        r >= 0,
{
    proof {
        vstd::arithmetic::div_mod::lemma_div_pos_is_pos(
            radius as int * SCALE,
            sin_half_fovy as int,
        );
    }
    fixed_div(radius, sin_half_fovy)
}

/// The Cartesian position at distance `dist` from the origin, at polar
/// angle `theta` from the +Z axis and azimuthal angle `phi` from the +X
/// axis in the XY plane: `(dist sin theta cos phi, dist sin theta sin phi,
/// dist cos theta)`, each product rounded toward zero once at the end. The
/// sines and cosines are handed in as fixed-point values.
pub open spec fn spherical_position_spec(
    dist: int,
    sin_theta: int,
    cos_theta: int,
    sin_phi: int,
    cos_phi: int,
) -> (int, int, int) {
    (
        tdiv(dist * sin_theta * cos_phi, SCALE * SCALE),
        tdiv(dist * sin_theta * sin_phi, SCALE * SCALE),
        tdiv(dist * cos_theta, SCALE as int),
    )
}

/// Place a camera or light on the sphere of radius `dist` around the
/// origin, from its polar and azimuthal angles' sines and cosines.
pub fn spherical_position(
    dist: i64,
    sin_theta: i64,
    cos_theta: i64,
    sin_phi: i64,
    cos_phi: i64,
) -> (r: Vec3)
    requires
        -0x4000_0000_0000_0000 <= dist <= 0x4000_0000_0000_0000,
        -SCALE <= sin_theta <= SCALE,
        -SCALE <= cos_theta <= SCALE,
        -SCALE <= sin_phi <= SCALE,
        -SCALE <= cos_phi <= SCALE,
    ensures
        vec3_model(r) == spherical_position_spec(
            dist as int,
            sin_theta as int,
            cos_theta as int,
            sin_phi as int,
            cos_phi as int,
        ),
{
    proof {
        lemma_mul_bound(dist as int, sin_theta as int, 0x4000_0000_0000_0000, SCALE as int);
        lemma_mul_bound(
            dist as int * sin_theta as int,
            cos_phi as int,
            0x4000_0000_0000_0000int * SCALE,
            SCALE as int,
        );
        lemma_mul_bound(
            dist as int * sin_theta as int,
            sin_phi as int,
            0x4000_0000_0000_0000int * SCALE,
            SCALE as int,
        );
        lemma_mul_bound(dist as int, cos_theta as int, 0x4000_0000_0000_0000, SCALE as int);
        lemma_tdiv_abs_le(
            dist as int * sin_theta as int * cos_phi as int,
            SCALE * SCALE,
            0x4000_0000_0000_0000,
        );
        lemma_tdiv_abs_le(
            dist as int * sin_theta as int * sin_phi as int,
            SCALE * SCALE,
            0x4000_0000_0000_0000,
        );
        lemma_tdiv_abs_le(dist as int * cos_theta as int, SCALE as int, 0x4000_0000_0000_0000);
    }
    let st: i128 = (dist as i128) * (sin_theta as i128);
    let x: i128 = tdiv_i128(st * (cos_phi as i128), (SCALE as i128) * (SCALE as i128));
    let y: i128 = tdiv_i128(st * (sin_phi as i128), (SCALE as i128) * (SCALE as i128));
    let z: i128 = tdiv_i128((dist as i128) * (cos_theta as i128), SCALE as i128);
    Vec3 { x: x as i64, y: y as i64, z: z as i64 }
}

} // verus!
