//! Axis-aligned bounding boxes and the auto-framing decisions made from
//! them: which axis to look down, how large the visible cross section is,
//! and where an axis-snapped camera and light stand.

use crate::error::Error;
use crate::mesh::Mesh;
use crate::num::{lemma_mul_bound, lemma_tdiv_abs_le, tdiv, SCALE};
use crate::vec3::{vec3_model, Vec3};
use vstd::prelude::*;

verus! {

/// One of the three coordinate axes.
#[derive(Clone, Copy, Debug, PartialEq, Eq, Structural)]
pub enum Axis {
    X,
    Y,
    Z,
}

/// The component of a triple that lies along an axis.
pub open spec fn axis_comp(p: (int, int, int), a: Axis) -> int {
    match a {
        Axis::X => p.0,
        Axis::Y => p.1,
        Axis::Z => p.2,
    }
}

/// The components of a vertex sequence along one axis.
pub open spec fn comps(s: Seq<Vec3>, a: Axis) -> Seq<int> {
    s.map_values(|v: Vec3| axis_comp(vec3_model(v), a))
}

/// A value that bounds a non-empty integer sequence from below and occurs in
/// it is the sequence's minimum.
pub proof fn lemma_min_char(s: Seq<int>, m: int)
    requires
        s.len() > 0,
        forall|i: int| 0 <= i < s.len() ==> m <= #[trigger] s[i],
        exists|i: int| 0 <= i < s.len() && m == #[trigger] s[i],
    ensures
        s.min() == m,
{
    s.min_ensures();
    let w = choose|i: int| 0 <= i < s.len() && m == #[trigger] s[i];
    assert(s.min() <= s[w]);
    assert(s.contains(s.min()));
    let j = choose|j: int| 0 <= j < s.len() && s[j] == s.min();
    assert(m <= s[j]);
}

/// A value that bounds a non-empty integer sequence from above and occurs in
/// it is the sequence's maximum.
pub proof fn lemma_max_char(s: Seq<int>, m: int)
    requires
        s.len() > 0,
        forall|i: int| 0 <= i < s.len() ==> #[trigger] s[i] <= m,
        exists|i: int| 0 <= i < s.len() && m == #[trigger] s[i],
    ensures
        s.max() == m,
{
    s.max_ensures();
    let w = choose|i: int| 0 <= i < s.len() && m == #[trigger] s[i];
    assert(s[w] <= s.max());
    assert(s.contains(s.max()));
    let j = choose|j: int| 0 <= j < s.len() && s[j] == s.max();
    assert(s[j] <= m);
}

/// A pair of values that bound every component of a non-empty vertex
/// sequence along an axis, and are both attained, are that axis's extrema.
pub proof fn lemma_axis_extents(s: Seq<Vec3>, a: Axis, lo: i64, hi: i64)
    requires
        s.len() > 0,
        forall|j: int|
            0 <= j < s.len() ==> lo as int <= axis_comp(vec3_model(#[trigger] s[j]), a) <= hi as int,
        exists|j: int|
            0 <= j < s.len() && lo as int == axis_comp(vec3_model(#[trigger] s[j]), a),
        exists|j: int|
            0 <= j < s.len() && hi as int == axis_comp(vec3_model(#[trigger] s[j]), a),
    ensures
        comps(s, a).min() == lo as int,
        comps(s, a).max() == hi as int,
{
    let c = comps(s, a);
    assert(c.len() == s.len());
    assert forall|j: int| 0 <= j < c.len() implies lo as int <= #[trigger] c[j] <= hi as int by {
        assert(c[j] == axis_comp(vec3_model(s[j]), a));
    }
    let wl = choose|j: int|
        0 <= j < s.len() && lo as int == axis_comp(vec3_model(#[trigger] s[j]), a);
    assert(c[wl] == lo as int);
    let wh = choose|j: int|
        0 <= j < s.len() && hi as int == axis_comp(vec3_model(#[trigger] s[j]), a);
    assert(c[wh] == hi as int);
    lemma_min_char(c, lo as int);
    lemma_max_char(c, hi as int);
}

/// Axis-aligned bounds around a mesh: the least and greatest vertex
/// coordinate along each axis. Computed once from a mesh's current
/// positions; transforming the mesh afterwards does not resynchronize an
/// already computed box.
#[derive(Clone, Copy, Debug, PartialEq, Eq, Structural)]
pub struct BoundingBox {
    pub x_min: i64,
    pub x_max: i64,
    pub y_min: i64,
    pub y_max: i64,
    pub z_min: i64,
    pub z_max: i64,
}

/// Every bound lies within `[-limit, limit]`.
pub open spec fn box_in_range(b: BoundingBox, limit: int) -> bool {
    &&& -limit <= b.x_min <= limit
    &&& -limit <= b.x_max <= limit
    &&& -limit <= b.y_min <= limit
    &&& -limit <= b.y_max <= limit
    &&& -limit <= b.z_min <= limit
    &&& -limit <= b.z_max <= limit
}

/// The box the positions of a non-empty mesh span.
pub open spec fn box_of(s: Seq<Vec3>) -> BoundingBox {
    BoundingBox {
        x_min: comps(s, Axis::X).min() as i64,
        x_max: comps(s, Axis::X).max() as i64,
        y_min: comps(s, Axis::Y).min() as i64,
        y_max: comps(s, Axis::Y).max() as i64,
        z_min: comps(s, Axis::Z).min() as i64,
        z_max: comps(s, Axis::Z).max() as i64,
    }
}

impl BoundingBox {
    /// On each axis the lower bound is at most the upper bound.
    pub open spec fn wf(&self) -> bool {
        self.x_min <= self.x_max && self.y_min <= self.y_max && self.z_min <= self.z_max
    }

    /// Extent along the X axis.
    pub open spec fn dx_spec(&self) -> int {
        self.x_max - self.x_min
    }

    /// Extent along the Y axis.
    pub open spec fn dy_spec(&self) -> int {
        self.y_max - self.y_min
    }

    /// Extent along the Z axis.
    pub open spec fn dz_spec(&self) -> int {
        self.z_max - self.z_min
    }

    /// The box spanned by the positions of the given mesh, or
    /// [`Error::EmptyMesh`] when the mesh has no vertices: an empty mesh has
    /// no bounds, and degenerate zero bounds are never invented for it.
    pub fn new(mesh: &Mesh) -> (r: Result<BoundingBox, Error>)
        ensures
            match r {
                Ok(b) => mesh.positions@.len() > 0 && b == box_of(mesh.positions@) && b.wf(),
                Err(e) => e == Error::EmptyMesh && mesh.positions@.len() == 0,
            },
    {
        match mesh.bounding_box() {
            Some((mn, mx)) => Ok(
                BoundingBox {
                    x_min: mn.x,
                    x_max: mx.x,
                    y_min: mn.y,
                    y_max: mx.y,
                    z_min: mn.z,
                    z_max: mx.z,
                },
            ),
            None => Err(Error::EmptyMesh),
        }
    }

    /// Translate the box by a vector, moving both bounds of every axis.
    pub fn shift(&mut self, vec: &Vec3)
        requires
            i64::MIN <= old(self).x_min + vec.x <= i64::MAX,
            i64::MIN <= old(self).x_max + vec.x <= i64::MAX,
            i64::MIN <= old(self).y_min + vec.y <= i64::MAX,
            i64::MIN <= old(self).y_max + vec.y <= i64::MAX,
            i64::MIN <= old(self).z_min + vec.z <= i64::MAX,
            i64::MIN <= old(self).z_max + vec.z <= i64::MAX,
        ensures
            final(self).x_min == old(self).x_min + vec.x,
            final(self).x_max == old(self).x_max + vec.x,
            final(self).y_min == old(self).y_min + vec.y,
            final(self).y_max == old(self).y_max + vec.y,
            final(self).z_min == old(self).z_min + vec.z,
            final(self).z_max == old(self).z_max + vec.z,
    {
        self.x_min = self.x_min + vec.x;
        self.x_max = self.x_max + vec.x;
        self.y_min = self.y_min + vec.y;
        self.y_max = self.y_max + vec.y;
        self.z_min = self.z_min + vec.z;
        self.z_max = self.z_max + vec.z;
    }

    /// Extent along the X axis.
    pub fn dx(&self) -> (r: i64)
        requires
            self.wf(),
            self.x_max - self.x_min <= i64::MAX,
        ensures
            r == self.dx_spec(),
            r >= 0,
    {
        self.x_max - self.x_min
    }

    /// Extent along the Y axis.
    pub fn dy(&self) -> (r: i64)
        requires
            self.wf(),
            self.y_max - self.y_min <= i64::MAX,
        ensures
            r == self.dy_spec(),
            r >= 0,
    {
        self.y_max - self.y_min
    }

    /// Extent along the Z axis.
    pub fn dz(&self) -> (r: i64)
        requires
            self.wf(),
            self.z_max - self.z_min <= i64::MAX,
        ensures
            r == self.dz_spec(),
            r >= 0,
    {
        self.z_max - self.z_min
    }

    /// The center of the box: the lower bound plus half the extent on each
    /// axis, halves rounded down.
    pub fn center(&self) -> (r: Vec3)
        requires
            self.wf(),
            box_in_range(*self, 0x2000_0000_0000_0000),
        ensures
            vec3_model(r) == center_spec(*self),
    {
        let half_dx: i64 = half_nonneg(self.x_max - self.x_min);
        let half_dy: i64 = half_nonneg(self.y_max - self.y_min);
        let half_dz: i64 = half_nonneg(self.z_max - self.z_min);
        Vec3 { x: self.x_min + half_dx, y: self.y_min + half_dy, z: self.z_min + half_dz }
    }

    /// The translation that moves the box's center onto the origin.
    pub fn center_to_origin(&self) -> (r: Vec3)
        requires
            self.wf(),
            box_in_range(*self, 0x2000_0000_0000_0000),
        ensures
            r.x as int == -center_spec(*self).0,
            r.y as int == -center_spec(*self).1,
            r.z as int == -center_spec(*self).2,
    {
        let c = self.center();
        Vec3 { x: -c.x, y: -c.y, z: -c.z }
    }
}

impl BoundingBox {
    /// The cross-sectional area the box shows to a viewer looking down the
    /// given axis.
    pub open spec fn area_along(&self, a: Axis) -> int {
        match a {
            Axis::X => self.dy_spec() * self.dz_spec(),
            Axis::Y => self.dx_spec() * self.dz_spec(),
            Axis::Z => self.dx_spec() * self.dy_spec(),
        }
    }

    /// The axis selection rule: Y wins only when considered and strictly
    /// larger than both others; otherwise X wins only when strictly larger
    /// than Z, so a tie between X and Z falls to Z.
    pub open spec fn chosen_axis(&self, consider_y: bool) -> Axis {
        if consider_y && self.area_along(Axis::Y) > self.area_along(Axis::X) && self.area_along(
            Axis::Y,
        ) > self.area_along(Axis::Z) {
            Axis::Y
        } else if self.area_along(Axis::X) > self.area_along(Axis::Z) {
            Axis::X
        } else {
            Axis::Z
        }
    }

    /// Width and height of the cross section a viewer sees looking down the
    /// given axis.
    pub open spec fn visible_size_spec(&self, a: Axis) -> (int, int) {
        match a {
            Axis::X => (self.dz_spec(), self.dy_spec()),
            Axis::Y => (self.dx_spec(), self.dz_spec()),
            Axis::Z => (self.dx_spec(), self.dy_spec()),
        }
    }

    /// The visible height the camera must fit vertically: the cross-section
    /// height directly when the aspect ratio is at least as wide as the
    /// cross section, else the width scaled down by the aspect ratio.
    pub open spec fn target_height_spec(&self, aspect: int, a: Axis) -> int {
        let vw = self.visible_size_spec(a).0;
        let vh = self.visible_size_spec(a).1;
        if aspect * vh >= vw * SCALE {
            vh
        } else {
            tdiv(vw * SCALE, aspect)
        }
    }

    /// The camera's distance from the box along the viewing axis:
    /// `sin(theta) * target_height`, where `theta` is the complement of half
    /// the vertical field of view and its sine is handed in as a fixed-point
    /// value.
    pub open spec fn camera_to_box_spec(&self, aspect: int, sin_theta: int, a: Axis) -> int {
        tdiv(sin_theta * self.target_height_spec(aspect, a), SCALE as int)
    }

    /// The camera's position on the given axis: the camera-to-box distance
    /// plus the box's extent along that axis, the other components zero.
    pub open spec fn camera_position_spec(&self, aspect: int, sin_theta: int, a: Axis) -> (
        int,
        int,
        int,
    ) {
        let c = self.camera_to_box_spec(aspect, sin_theta, a);
        match a {
            Axis::X => (c + self.dx_spec(), 0, 0),
            Axis::Y => (0, c + self.dy_spec(), 0),
            Axis::Z => (0, 0, c + self.dz_spec()),
        }
    }

    /// The light's position for the given viewing axis.
    pub open spec fn light_position_spec(&self, a: Axis) -> (int, int, int) {
        match a {
            Axis::X => (self.dx_spec(), self.dy_spec(), 0),
            Axis::Y => (0, self.dy_spec(), -self.dz_spec()),
            Axis::Z => (0, self.dy_spec(), self.dz_spec()),
        }
    }

    /// The axis along which the box has the largest cross-sectional area,
    /// looking down which makes the best use of the viewport. The Y axis
    /// competes only when `consider_y` is set; a tie between X and Z goes to
    /// Z.
    pub fn largest_cross_section_axis(&self, consider_y: bool) -> (r: Axis)
        requires
            self.wf(),
            box_in_range(*self, 0x2000_0000_0000_0000),
        ensures
            r == self.chosen_axis(consider_y),
            self.area_along(r) >= self.area_along(Axis::X),
            self.area_along(r) >= self.area_along(Axis::Z),
            consider_y ==> self.area_along(r) >= self.area_along(Axis::Y),
    {
        let dx: i128 = (self.x_max as i128) - (self.x_min as i128);
        let dy: i128 = (self.y_max as i128) - (self.y_min as i128);
        let dz: i128 = (self.z_max as i128) - (self.z_min as i128);
        proof {
            lemma_mul_bound(dy as int, dz as int, 0x4000_0000_0000_0000, 0x4000_0000_0000_0000);
            lemma_mul_bound(dx as int, dz as int, 0x4000_0000_0000_0000, 0x4000_0000_0000_0000);
            lemma_mul_bound(dx as int, dy as int, 0x4000_0000_0000_0000, 0x4000_0000_0000_0000);
        }
        let x_axis_area: i128 = dy * dz;
        let y_axis_area: i128 = dx * dz;
        let z_axis_area: i128 = dx * dy;
        if consider_y && y_axis_area > x_axis_area && y_axis_area > z_axis_area {
            Axis::Y
        } else if x_axis_area > z_axis_area {
            Axis::X
        } else {
            Axis::Z
        }
    }

    /// Width and height of the box's cross section when viewed along the
    /// given axis.
    pub fn visible_size(&self, axis: &Axis) -> (r: (i64, i64))
        requires
            self.wf(),
            box_in_range(*self, 0x2000_0000_0000_0000),
        ensures
            r.0 as int == self.visible_size_spec(*axis).0,
            r.1 as int == self.visible_size_spec(*axis).1,
            r.0 >= 0,
            r.1 >= 0,
    {
        match axis {
            Axis::X => (self.z_max - self.z_min, self.y_max - self.y_min),
            Axis::Y => (self.x_max - self.x_min, self.z_max - self.z_min),
            Axis::Z => (self.x_max - self.x_min, self.y_max - self.y_min),
        }
    }

    /// A position on the given axis from which the camera, pointed at the
    /// origin, sees the whole cross section of the box at the given aspect
    /// ratio. `sin_theta` is the fixed-point sine of the complement of half
    /// the vertical field of view.
    pub fn pick_camera_position(&self, aspect: i64, sin_theta: i64, axis: &Axis) -> (r: Vec3)
        requires
            self.wf(),
            box_in_range(*self, 0x2000_0000_0000),
            aspect >= 1,
            0 <= sin_theta <= SCALE,
        ensures
            vec3_model(r) == self.camera_position_spec(aspect as int, sin_theta as int, *axis),
    {
        let (vw, vh) = self.visible_size(axis);
        proof {
            lemma_mul_bound(aspect as int, vh as int, i64::MAX as int, 0x4000_0000_0000_0000);
        }
        let th: i64 = if (aspect as i128) * (vh as i128) >= (vw as i128) * (SCALE as i128) {
            vh
        } else {
            proof {
                lemma_tdiv_abs_le(vw as int * SCALE, aspect as int, 0x4000_0000_0000_0000);
                vstd::arithmetic::div_mod::lemma_div_pos_is_pos(vw as int * SCALE, aspect as int);
            }
            crate::num::tdiv_i128((vw as i128) * (SCALE as i128), aspect as i128) as i64
        };
        proof {
            assert(0 <= th <= 0x4000_0000_0000_0000);
            lemma_mul_bound(sin_theta as int, th as int, SCALE as int, 0x4000_0000_0000_0000);
            vstd::arithmetic::mul::lemma_mul_nonnegative(sin_theta as int, th as int);
            vstd::arithmetic::div_mod::lemma_div_pos_is_pos(
                sin_theta as int * th as int,
                SCALE as int,
            );
            lemma_tdiv_abs_le(
                sin_theta as int * th as int,
                SCALE as int,
                0x4000_0000_0000_0000,
            );
        }
        let ctb: i64 = crate::num::fixed_mul(sin_theta, th);
        match axis {
            Axis::X => Vec3 { x: ctb + (self.x_max - self.x_min), y: 0, z: 0 },
            Axis::Y => Vec3 { x: 0, y: ctb + (self.y_max - self.y_min), z: 0 },
            Axis::Z => Vec3 { x: 0, y: 0, z: ctb + (self.z_max - self.z_min) },
        }
    }

    /// A position for the point light, off to the side of the viewing axis.
    pub fn pick_light_position(&self, axis: &Axis) -> (r: Vec3)
        requires
            self.wf(),
            box_in_range(*self, 0x2000_0000_0000_0000),
        ensures
            vec3_model(r) == self.light_position_spec(*axis),
    {
        match axis {
            Axis::X => Vec3 {
                x: self.x_max - self.x_min,
                y: self.y_max - self.y_min,
                z: 0,
            },
            Axis::Y => Vec3 {
                x: 0,
                y: self.y_max - self.y_min,
                z: -(self.z_max - self.z_min),
            },
            Axis::Z => Vec3 {
                x: 0,
                y: self.y_max - self.y_min,
                z: self.z_max - self.z_min,
            },
        }
    }
}

/// The center of a box: lower bound plus half the extent, per axis.
pub open spec fn center_spec(b: BoundingBox) -> (int, int, int) {
    (
        b.x_min + b.dx_spec() / 2,
        b.y_min + b.dy_spec() / 2,
        b.z_min + b.dz_spec() / 2,
    )
}

/// Shifting every element of a non-empty integer sequence shifts its
/// extrema by the same amount.
pub proof fn lemma_shifted_extrema(q: Seq<int>, d: int)
    requires
        q.len() > 0,
    ensures
        q.map_values(|x: int| x + d).min() == q.min() + d,
        q.map_values(|x: int| x + d).max() == q.max() + d,
{
    let q2 = q.map_values(|x: int| x + d);
    q.min_ensures();
    q.max_ensures();
    assert(q2.len() == q.len());
    assert forall|i: int| 0 <= i < q2.len() implies q.min() + d <= #[trigger] q2[i] <= q.max()
        + d by {
        assert(q2[i] == q[i] + d);
    }
    let jl = choose|j: int| 0 <= j < q.len() && q[j] == q.min();
    assert(q2[jl] == q.min() + d);
    let jh = choose|j: int| 0 <= j < q.len() && q[j] == q.max();
    assert(q2[jh] == q.max() + d);
    lemma_min_char(q2, q.min() + d);
    lemma_max_char(q2, q.max() + d);
}

/// The extrema of a non-empty vertex sequence's components are component
/// values, so they lie within the 64-bit range and in order.
pub proof fn lemma_comps_extrema_in_i64(s: Seq<Vec3>, a: Axis)
    requires
        s.len() > 0,
    ensures
        i64::MIN <= comps(s, a).min() <= i64::MAX,
        i64::MIN <= comps(s, a).max() <= i64::MAX,
        comps(s, a).min() <= comps(s, a).max(),
{
    let c = comps(s, a);
    assert(c.len() == s.len());
    c.min_ensures();
    c.max_ensures();
    let jl = choose|j: int| 0 <= j < c.len() && c[j] == c.min();
    assert(c[jl] == axis_comp(vec3_model(s[jl]), a));
    let jh = choose|j: int| 0 <= j < c.len() && c[j] == c.max();
    assert(c[jh] == axis_comp(vec3_model(s[jh]), a));
    assert(c.min() <= c[0] <= c.max());
}

/// Recentering: translating a mesh by the vector that carries its
/// bounding-box center onto the origin leaves a bounding box symmetric
/// about the origin, up to the single fixed-point step that rounding half
/// of an odd extent loses. `s` are the positions before the translation,
/// `s2` the positions after it (as [`crate::mesh::Mesh::transform`]
/// guarantees them), and `t` the translation that
/// [`BoundingBox::center_to_origin`] computes.
pub proof fn lemma_recentering_symmetric(s: Seq<Vec3>, s2: Seq<Vec3>, t: Vec3, a: Axis)
    requires
        s.len() > 0,
        s2.len() == s.len(),
        forall|i: int|
            0 <= i < s.len() ==> vec3_model(#[trigger] s2[i]) == crate::matrix::transform_point_spec(
                crate::matrix::translation_spec(t),
                vec3_model(s[i]),
            ),
        t.x as int == -center_spec(box_of(s)).0,
        t.y as int == -center_spec(box_of(s)).1,
        t.z as int == -center_spec(box_of(s)).2,
    ensures
        0 <= comps(s2, a).min() + comps(s2, a).max() <= 1,
        (comps(s, a).max() - comps(s, a).min()) % 2 == 0 ==> comps(s2, a).min() == -comps(
            s2,
            a,
        ).max(),
{
    lemma_comps_extrema_in_i64(s, Axis::X);
    lemma_comps_extrema_in_i64(s, Axis::Y);
    lemma_comps_extrema_in_i64(s, Axis::Z);
    lemma_comps_extrema_in_i64(s, a);
    let c = comps(s, a);
    assert(c.len() == s.len());
    let e = c.max() - c.min();
    let ta = match a {
        Axis::X => t.x as int,
        Axis::Y => t.y as int,
        Axis::Z => t.z as int,
    };
    let bx = box_of(s);
    assert(bx.x_min as int == comps(s, Axis::X).min());
    assert(bx.x_max as int == comps(s, Axis::X).max());
    assert(bx.y_min as int == comps(s, Axis::Y).min());
    assert(bx.y_max as int == comps(s, Axis::Y).max());
    assert(bx.z_min as int == comps(s, Axis::Z).min());
    assert(bx.z_max as int == comps(s, Axis::Z).max());
    assert(ta == -(c.min() + e / 2));
    assert(comps(s2, a) =~= c.map_values(|x: int| x + ta)) by {
        assert forall|i: int| 0 <= i < s.len() implies comps(s2, a)[i] == c.map_values(
            |x: int| x + ta,
        )[i] by {
            crate::matrix::lemma_translation_adds(t, vec3_model(s[i]));
            assert(comps(s2, a)[i] == axis_comp(vec3_model(s2[i]), a));
            assert(c.map_values(|x: int| x + ta)[i] == c[i] + ta);
            assert(c[i] == axis_comp(vec3_model(s[i]), a));
        }
    }
    lemma_shifted_extrema(c, ta);
    let mn2 = comps(s2, a).min();
    let mx2 = comps(s2, a).max();
    assert(mn2 == c.min() + ta);
    assert(mx2 == c.max() + ta);
    assert(mn2 + mx2 == e - 2 * (e / 2));
    assert(e >= 0);
    assert(e - 2 * (e / 2) == e % 2);
    assert(0 <= e % 2 < 2);
}

/// Half of a non-negative number, rounded down.
fn half_nonneg(v: i64) -> (r: i64)
    requires
        v >= 0,
    ensures
        r == v as int / 2,
        0 <= r <= v,
{
    ((v as u64) / 2) as i64
}

} // verus!
