//! The mesh data model and its construction rules: parallel per-vertex
//! attribute arrays, a triangle index list, an importer for surface-triangle
//! data, and the in-place affine transform.

use crate::bounding_box::{axis_comp, comps, lemma_axis_extents, Axis};
use crate::error::Error;
use crate::matrix::{
    is_affine, mat_in_range, transform_point_spec, transform_vector_spec, Mat4, MAT_LIMIT,
    POINT_LIMIT, RESULT_LIMIT,
};
use crate::vec3::{in_range, normalize_spec, vec3_model, Vec2, Vec3};
use vstd::prelude::*;

verus! {

/// Largest magnitude accepted for an imported coordinate, `2^36` fixed-point
/// steps. A surface triangle with a coordinate beyond this range is treated
/// as malformed, the fixed-point analogue of a non-finite value.
pub const COORD_LIMIT: i64 = 0x10_0000_0000;

/// One triangle of a surface description: three vertex positions and the
/// facet normal shared by all three, as surface-triangle sources store them.
#[derive(Clone, Copy, Debug, PartialEq, Eq, Structural)]
pub struct SurfaceTriangle {
    pub v0: Vec3,
    pub v1: Vec3,
    pub v2: Vec3,
    pub normal: Vec3,
}

/// All four vectors of the triangle lie within `[-limit, limit]`.
pub open spec fn triangle_in_range(t: SurfaceTriangle, limit: int) -> bool {
    &&& in_range(vec3_model(t.v0), limit)
    &&& in_range(vec3_model(t.v1), limit)
    &&& in_range(vec3_model(t.v2), limit)
    &&& in_range(vec3_model(t.normal), limit)
}

/// Every triangle of the sequence lies within `[-limit, limit]`.
pub open spec fn surface_in_range(s: Seq<SurfaceTriangle>, limit: int) -> bool {
    forall|i: int| 0 <= i < s.len() ==> triangle_in_range(#[trigger] s[i], limit)
}

/// A mesh of triangles: parallel vertex attribute arrays indexed by vertex
/// id, plus a list of index triples, one per triangle. Immutable once built
/// but for the in-place [`Mesh::transform`].
#[derive(Debug)]
pub struct Mesh {
    /// A position for each vertex, in world space.
    pub positions: Vec<Vec3>,
    /// A normal vector for each vertex.
    pub normals: Vec<Vec3>,
    /// Optional texture coordinates, one per vertex.
    pub uvs: Option<Vec<Vec2>>,
    /// Optional tangent vectors, one per vertex, attached only when
    /// explicitly supplied.
    pub tangents: Option<Vec<Vec3>>,
    /// Each element describes one triangle by three indices into the vertex
    /// attribute arrays.
    pub triangle_vertex_indices: Vec<(usize, usize, usize)>,
}

impl Mesh {
    /// The attribute arrays are parallel and every triangle index points at a
    /// vertex that exists.
    pub open spec fn wf(&self) -> bool {
        &&& forall|i: int|
            0 <= i < self.triangle_vertex_indices@.len() ==> {
                let t = #[trigger] self.triangle_vertex_indices@[i];
                t.0 < self.positions@.len() && t.1 < self.positions@.len() && t.2
                    < self.positions@.len()
            }
        &&& self.normals@.len() == self.positions@.len()
        &&& match self.uvs {
            Some(u) => u@.len() == self.positions@.len(),
            None => true,
        }
        &&& match self.tangents {
            Some(t) => t@.len() == self.positions@.len(),
            None => true,
        }
    }

    /// Every vertex position lies within `[-limit, limit]`.
    pub open spec fn positions_in_range(&self, limit: int) -> bool {
        forall|i: int|
            0 <= i < self.positions@.len() ==> in_range(
                vec3_model(#[trigger] self.positions@[i]),
                limit,
            )
    }

    /// Every vertex normal lies within `[-limit, limit]`.
    pub open spec fn normals_in_range(&self, limit: int) -> bool {
        forall|i: int|
            0 <= i < self.normals@.len() ==> in_range(
                vec3_model(#[trigger] self.normals@[i]),
                limit,
            )
    }

    /// The least and greatest coordinate of any vertex along each axis:
    /// `Some((low_corner, high_corner))`, or `None` when the mesh has no
    /// vertices.
    pub fn bounding_box(&self) -> (r: Option<(Vec3, Vec3)>)
        ensures
            match r {
                None => self.positions@.len() == 0,
                Some(mm) => {
                    let s = self.positions@;
                    &&& s.len() > 0
                    &&& mm.0.x as int == comps(s, Axis::X).min()
                    &&& mm.0.y as int == comps(s, Axis::Y).min()
                    &&& mm.0.z as int == comps(s, Axis::Z).min()
                    &&& mm.1.x as int == comps(s, Axis::X).max()
                    &&& mm.1.y as int == comps(s, Axis::Y).max()
                    &&& mm.1.z as int == comps(s, Axis::Z).max()
                    &&& mm.0.x <= mm.1.x && mm.0.y <= mm.1.y && mm.0.z <= mm.1.z
                },
            },
    {
        if self.positions.len() == 0 {
            return None;
        }
        let n = self.positions.len();
        let mut mn = self.positions[0];
        let mut mx = self.positions[0];
        let mut i: usize = 1;
        while i < n
            invariant
                1 <= i <= n,
                n == self.positions@.len(),
                forall|j: int| 0 <= j < i ==> mn.x <= (#[trigger] self.positions@[j]).x,
                forall|j: int| 0 <= j < i ==> mn.y <= (#[trigger] self.positions@[j]).y,
                forall|j: int| 0 <= j < i ==> mn.z <= (#[trigger] self.positions@[j]).z,
                forall|j: int| 0 <= j < i ==> (#[trigger] self.positions@[j]).x <= mx.x,
                forall|j: int| 0 <= j < i ==> (#[trigger] self.positions@[j]).y <= mx.y,
                forall|j: int| 0 <= j < i ==> (#[trigger] self.positions@[j]).z <= mx.z,
                exists|j: int| 0 <= j < i && mn.x == (#[trigger] self.positions@[j]).x,
                exists|j: int| 0 <= j < i && mn.y == (#[trigger] self.positions@[j]).y,
                exists|j: int| 0 <= j < i && mn.z == (#[trigger] self.positions@[j]).z,
                exists|j: int| 0 <= j < i && mx.x == (#[trigger] self.positions@[j]).x,
                exists|j: int| 0 <= j < i && mx.y == (#[trigger] self.positions@[j]).y,
                exists|j: int| 0 <= j < i && mx.z == (#[trigger] self.positions@[j]).z,
            decreases n - i,
        {
            let p = self.positions[i];
            if p.x < mn.x {
                mn.x = p.x;
            }
            if p.y < mn.y {
                mn.y = p.y;
            }
            if p.z < mn.z {
                mn.z = p.z;
            }
            if p.x > mx.x {
                mx.x = p.x;
            }
            if p.y > mx.y {
                mx.y = p.y;
            }
            if p.z > mx.z {
                mx.z = p.z;
            }
            proof {
                let s = self.positions@;
                if p.x == mn.x {
                    assert(mn.x == s[i as int].x);
                }
                if p.y == mn.y {
                    assert(mn.y == s[i as int].y);
                }
                if p.z == mn.z {
                    assert(mn.z == s[i as int].z);
                }
                if p.x == mx.x {
                    assert(mx.x == s[i as int].x);
                }
                if p.y == mx.y {
                    assert(mx.y == s[i as int].y);
                }
                if p.z == mx.z {
                    assert(mx.z == s[i as int].z);
                }
            }
            i = i + 1;
        }
        proof {
            let s = self.positions@;
            assert forall|j: int|
                0 <= j < s.len() implies mn.x as int <= axis_comp(
                vec3_model(#[trigger] s[j]),
                Axis::X,
            ) <= mx.x as int by {}
            assert forall|j: int|
                0 <= j < s.len() implies mn.y as int <= axis_comp(
                vec3_model(#[trigger] s[j]),
                Axis::Y,
            ) <= mx.y as int by {}
            assert forall|j: int|
                0 <= j < s.len() implies mn.z as int <= axis_comp(
                vec3_model(#[trigger] s[j]),
                Axis::Z,
            ) <= mx.z as int by {}
            let jx = choose|j: int| 0 <= j < s.len() && mn.x == (#[trigger] s[j]).x;
            assert(mn.x as int == axis_comp(vec3_model(s[jx]), Axis::X));
            let jy = choose|j: int| 0 <= j < s.len() && mn.y == (#[trigger] s[j]).y;
            assert(mn.y as int == axis_comp(vec3_model(s[jy]), Axis::Y));
            let jz = choose|j: int| 0 <= j < s.len() && mn.z == (#[trigger] s[j]).z;
            assert(mn.z as int == axis_comp(vec3_model(s[jz]), Axis::Z));
            let kx = choose|j: int| 0 <= j < s.len() && mx.x == (#[trigger] s[j]).x;
            assert(mx.x as int == axis_comp(vec3_model(s[kx]), Axis::X));
            let ky = choose|j: int| 0 <= j < s.len() && mx.y == (#[trigger] s[j]).y;
            assert(mx.y as int == axis_comp(vec3_model(s[ky]), Axis::Y));
            let kz = choose|j: int| 0 <= j < s.len() && mx.z == (#[trigger] s[j]).z;
            assert(mx.z as int == axis_comp(vec3_model(s[kz]), Axis::Z));
            lemma_axis_extents(s, Axis::X, mn.x, mx.x);
            lemma_axis_extents(s, Axis::Y, mn.y, mx.y);
            lemma_axis_extents(s, Axis::Z, mn.z, mx.z);
        }
        Some((mn, mx))
    }

    /// Apply an affine transformation to every vertex: positions move as
    /// homogeneous points, normals move as directions and are then scaled
    /// back to unit length. Texture coordinates, tangents and the triangle
    /// list are untouched.
    pub fn transform(&mut self, m: &Mat4)
        requires
            is_affine(*m),
            mat_in_range(*m, MAT_LIMIT as int),
            old(self).positions_in_range(POINT_LIMIT as int),
            old(self).normals_in_range(POINT_LIMIT as int),
        ensures
            final(self).positions@.len() == old(self).positions@.len(),
            forall|i: int|
                0 <= i < old(self).positions@.len() ==> vec3_model(
                    #[trigger] final(self).positions@[i],
                ) == transform_point_spec(*m, vec3_model(old(self).positions@[i])),
            final(self).normals@.len() == old(self).normals@.len(),
            forall|i: int|
                0 <= i < old(self).normals@.len() ==> vec3_model(
                    #[trigger] final(self).normals@[i],
                ) == normalize_spec(transform_vector_spec(*m, vec3_model(old(self).normals@[i]))),
            final(self).uvs == old(self).uvs,
            final(self).tangents == old(self).tangents,
            final(self).triangle_vertex_indices == old(self).triangle_vertex_indices,
            final(self).positions_in_range(RESULT_LIMIT as int),
            old(self).wf() ==> final(self).wf(),
    {
        let ghost orig = *self;
        let n = self.positions.len();
        let mut i: usize = 0;
        while i < n
            invariant
                i <= n,
                n == self.positions@.len(),
                self.positions@.len() == orig.positions@.len(),
                self.normals == orig.normals,
                self.uvs == orig.uvs,
                self.tangents == orig.tangents,
                self.triangle_vertex_indices == orig.triangle_vertex_indices,
                is_affine(*m),
                mat_in_range(*m, MAT_LIMIT as int),
                orig.positions_in_range(POINT_LIMIT as int),
                forall|j: int|
                    i <= j < n ==> #[trigger] self.positions@[j] == orig.positions@[j],
                forall|j: int|
                    0 <= j < i ==> vec3_model(#[trigger] self.positions@[j])
                        == transform_point_spec(*m, vec3_model(orig.positions@[j])),
                forall|j: int|
                    0 <= j < i ==> in_range(
                        vec3_model(#[trigger] self.positions@[j]),
                        RESULT_LIMIT as int,
                    ),
            decreases n - i,
        {
            let p = self.positions[i];
            let q = m.transform_point(&p);
            self.positions.set(i, q);
            i = i + 1;
        }
        let nn = self.normals.len();
        let mut k: usize = 0;
        while k < nn
            invariant
                k <= nn,
                nn == self.normals@.len(),
                self.normals@.len() == orig.normals@.len(),
                self.positions@.len() == orig.positions@.len(),
                self.uvs == orig.uvs,
                self.tangents == orig.tangents,
                self.triangle_vertex_indices == orig.triangle_vertex_indices,
                is_affine(*m),
                mat_in_range(*m, MAT_LIMIT as int),
                orig.normals_in_range(POINT_LIMIT as int),
                forall|j: int|
                    0 <= j < orig.positions@.len() ==> vec3_model(#[trigger] self.positions@[j])
                        == transform_point_spec(*m, vec3_model(orig.positions@[j])),
                forall|j: int|
                    0 <= j < orig.positions@.len() ==> in_range(
                        vec3_model(#[trigger] self.positions@[j]),
                        RESULT_LIMIT as int,
                    ),
                forall|j: int| k <= j < nn ==> #[trigger] self.normals@[j] == orig.normals@[j],
                forall|j: int|
                    0 <= j < k ==> vec3_model(#[trigger] self.normals@[j]) == normalize_spec(
                        transform_vector_spec(*m, vec3_model(orig.normals@[j])),
                    ),
            decreases nn - k,
        {
            let v = self.normals[k];
            let w = m.transform_vector(&v);
            let u = w.normalized();
            self.normals.set(k, u);
            k = k + 1;
        }
    }
}

/// Owns vertex data in object space plus an object-to-world transform;
/// consumed by [`MeshBuilder::build`], which moves the buffers into an
/// immutable [`Mesh`].
#[derive(Debug)]
pub struct MeshBuilder {
    pub positions: Vec<Vec3>,
    pub normals: Vec<Vec3>,
    pub uvs: Option<Vec<Vec2>>,
    pub tangents: Option<Vec<Vec3>>,
    pub object_to_world: Mat4,
    pub triangle_vertex_indices: Vec<(usize, usize, usize)>,
}

impl MeshBuilder {
    /// The builder's buffers form a mesh that is well formed, its
    /// coordinates are in transformable range and its object-to-world matrix
    /// is an in-range affine map. [`MeshBuilder::build`] is total on valid
    /// builders.
    pub open spec fn valid(&self) -> bool {
        &&& forall|i: int|
            0 <= i < self.triangle_vertex_indices@.len() ==> {
                let t = #[trigger] self.triangle_vertex_indices@[i];
                t.0 < self.positions@.len() && t.1 < self.positions@.len() && t.2
                    < self.positions@.len()
            }
        &&& self.normals@.len() == self.positions@.len()
        &&& match self.uvs {
            Some(u) => u@.len() == self.positions@.len(),
            None => true,
        }
        &&& match self.tangents {
            Some(t) => t@.len() == self.positions@.len(),
            None => true,
        }
        &&& forall|i: int|
            0 <= i < self.positions@.len() ==> in_range(
                vec3_model(#[trigger] self.positions@[i]),
                POINT_LIMIT as int,
            )
        &&& is_affine(self.object_to_world)
        &&& mat_in_range(self.object_to_world, MAT_LIMIT as int)
    }

    /// A builder over the given buffers, with no texture coordinates, no
    /// tangents, and the identity object-to-world transform.
    pub fn new(
        positions: Vec<Vec3>,
        normals: Vec<Vec3>,
        triangle_vertex_indices: Vec<(usize, usize, usize)>,
    ) -> (r: MeshBuilder)
        ensures
            r.positions == positions,
            r.normals == normals,
            r.triangle_vertex_indices == triangle_vertex_indices,
            r.uvs is None,
            r.tangents is None,
            r.object_to_world == crate::matrix::identity_spec(),
    {
        MeshBuilder {
            positions,
            normals,
            uvs: None,
            tangents: None,
            object_to_world: Mat4::identity(),
            triangle_vertex_indices,
        }
    }

    /// Attach per-vertex texture coordinates.
    pub fn uvs(self, uvs: Vec<Vec2>) -> (r: MeshBuilder)
        ensures
            r == (MeshBuilder { uvs: Some(uvs), ..self }),
    {
        MeshBuilder { uvs: Some(uvs), ..self }
    }

    /// Attach per-vertex tangent vectors.
    pub fn tangents(self, tangents: Vec<Vec3>) -> (r: MeshBuilder)
        ensures
            r == (MeshBuilder { tangents: Some(tangents), ..self }),
    {
        MeshBuilder { tangents: Some(tangents), ..self }
    }

    /// Replace the object-to-world transform applied by
    /// [`MeshBuilder::build`].
    pub fn object_to_world(self, object_to_world: Mat4) -> (r: MeshBuilder)
        ensures
            r == (MeshBuilder { object_to_world, ..self }),
    {
        MeshBuilder { object_to_world, ..self }
    }

    /// Consume the builder and produce an immutable mesh whose positions are
    /// the object-space positions sent through the object-to-world matrix.
    /// All other attributes pass through unchanged; in particular the
    /// normals are deliberately not re-derived from the matrix, so an
    /// object-to-world map with non-uniform scale or shear leaves them out
    /// of step with the transformed positions.
    pub fn build(self) -> (r: Mesh)
        requires
            self.valid(),
        ensures
            r.positions@.len() == self.positions@.len(),
            forall|i: int|
                0 <= i < self.positions@.len() ==> vec3_model(#[trigger] r.positions@[i])
                    == transform_point_spec(self.object_to_world, vec3_model(self.positions@[i])),
            r.normals == self.normals,
            r.uvs == self.uvs,
            r.tangents == self.tangents,
            r.triangle_vertex_indices == self.triangle_vertex_indices,
            r.wf(),
            r.positions_in_range(RESULT_LIMIT as int),
    {
        let MeshBuilder { mut positions, normals, uvs, tangents, object_to_world, triangle_vertex_indices } =
            self;
        let ghost orig = positions@;
        let n = positions.len();
        let mut i: usize = 0;
        while i < n
            invariant
                i <= n,
                n == positions@.len(),
                positions@.len() == orig.len(),
                is_affine(object_to_world),
                mat_in_range(object_to_world, MAT_LIMIT as int),
                forall|j: int|
                    0 <= j < orig.len() ==> in_range(
                        vec3_model(#[trigger] orig[j]),
                        POINT_LIMIT as int,
                    ),
                forall|j: int| i <= j < n ==> #[trigger] positions@[j] == orig[j],
                forall|j: int|
                    0 <= j < i ==> vec3_model(#[trigger] positions@[j]) == transform_point_spec(
                        object_to_world,
                        vec3_model(orig[j]),
                    ),
                forall|j: int|
                    0 <= j < i ==> in_range(
                        vec3_model(#[trigger] positions@[j]),
                        RESULT_LIMIT as int,
                    ),
            decreases n - i,
        {
            let p = positions[i];
            let q = object_to_world.transform_point(&p);
            positions.set(i, q);
            i = i + 1;
        }
        Mesh { positions, normals, uvs, tangents, triangle_vertex_indices }
    }

    /// Build a mesh-builder from an ordered surface-triangle list: triangle
    /// `i` owns the three fresh vertex slots `3i, 3i+1, 3i+2`, its facet
    /// normal is replicated into all three, and no coincident positions are
    /// shared across triangles. A coordinate outside the representable range
    /// makes the whole stream malformed and is reported, not clamped.
    pub fn from_surface(triangles: &Vec<SurfaceTriangle>) -> (r: Result<MeshBuilder, Error>)
        requires
            3 * triangles@.len() <= usize::MAX,
        ensures
            match r {
                Ok(b) => {
                    &&& surface_in_range(triangles@, COORD_LIMIT as int)
                    &&& b.valid()
                    &&& b.positions@.len() == 3 * triangles@.len()
                    &&& b.normals@.len() == 3 * triangles@.len()
                    &&& b.triangle_vertex_indices@.len() == triangles@.len()
                    &&& forall|i: int|
                        0 <= i < triangles@.len() ==> {
                            let t = #[trigger] triangles@[i];
                            &&& b.positions@[3 * i] == t.v0
                            &&& b.positions@[3 * i + 1] == t.v1
                            &&& b.positions@[3 * i + 2] == t.v2
                            &&& b.normals@[3 * i] == t.normal
                            &&& b.normals@[3 * i + 1] == t.normal
                            &&& b.normals@[3 * i + 2] == t.normal
                        }
                    &&& forall|i: int|
                        0 <= i < triangles@.len() ==> {
                            let tv = #[trigger] b.triangle_vertex_indices@[i];
                            tv.0 == 3 * i && tv.1 == 3 * i + 1 && tv.2 == 3 * i + 2
                        }
                    &&& b.uvs is None
                    &&& b.tangents is None
                    &&& b.object_to_world == crate::matrix::identity_spec()
                },
                Err(e) => {
                    &&& e == Error::ParseError
                    &&& !surface_in_range(triangles@, COORD_LIMIT as int)
                },
            },
    {
        let mut positions: Vec<Vec3> = Vec::new();
        let mut normals: Vec<Vec3> = Vec::new();
        let mut triangle_vertex_indices: Vec<(usize, usize, usize)> = Vec::new();
        let n = triangles.len();
        let mut i: usize = 0;
        while i < n
            invariant
                i <= n,
                n == triangles@.len(),
                3 * triangles@.len() <= usize::MAX,
                positions@.len() == 3 * i,
                normals@.len() == 3 * i,
                triangle_vertex_indices@.len() == i,
                forall|j: int|
                    0 <= j < i ==> triangle_in_range(#[trigger] triangles@[j], COORD_LIMIT as int),
                forall|j: int|
                    0 <= j < i ==> {
                        let t = #[trigger] triangles@[j];
                        &&& positions@[3 * j] == t.v0
                        &&& positions@[3 * j + 1] == t.v1
                        &&& positions@[3 * j + 2] == t.v2
                        &&& normals@[3 * j] == t.normal
                        &&& normals@[3 * j + 1] == t.normal
                        &&& normals@[3 * j + 2] == t.normal
                    },
                forall|j: int|
                    0 <= j < i ==> {
                        let tv = #[trigger] triangle_vertex_indices@[j];
                        tv.0 == 3 * j && tv.1 == 3 * j + 1 && tv.2 == 3 * j + 2
                    },
            decreases n - i,
        {
            let t = &triangles[i];
            let ok = vec3_within(&t.v0, COORD_LIMIT) && vec3_within(&t.v1, COORD_LIMIT)
                && vec3_within(&t.v2, COORD_LIMIT) && vec3_within(&t.normal, COORD_LIMIT);
            if !ok {
                proof {
                    assert(!triangle_in_range(triangles@[i as int], COORD_LIMIT as int));
                }
                return Err(Error::ParseError);
            }
            positions.push(t.v0);
            positions.push(t.v1);
            positions.push(t.v2);
            normals.push(t.normal);
            normals.push(t.normal);
            normals.push(t.normal);
            let base: usize = 3 * i;
            triangle_vertex_indices.push((base, base + 1, base + 2));
            i = i + 1;
        }
        let b = MeshBuilder {
            positions,
            normals,
            uvs: None,
            tangents: None,
            object_to_world: Mat4::identity(),
            triangle_vertex_indices,
        };
        proof {
            assert forall|i2: int| 0 <= i2 < b.positions@.len() implies in_range(
                vec3_model(#[trigger] b.positions@[i2]),
                POINT_LIMIT as int,
            ) by {
                let j = i2 / 3;
                assert(0 <= j < triangles@.len());
                assert(i2 == 3 * j || i2 == 3 * j + 1 || i2 == 3 * j + 2);
                assert(triangle_in_range(triangles@[j], COORD_LIMIT as int));
            }
        }
        Ok(b)
    }
}

/// Importing a surface and building it with the default identity
/// object-to-world transform yields three vertex slots per triangle: the
/// mesh has `3 * len(triangles)` positions, triangle `i` owns slots
/// `3i, 3i+1, 3i+2` holding its three vertices, and every normal slot in
/// that range is identical to the triangle's facet normal. The builder
/// arrays are related to the triangles as [`MeshBuilder::from_surface`]
/// guarantees, and the mesh arrays to the builder arrays as
/// [`MeshBuilder::build`] guarantees.
pub proof fn lemma_built_surface_mesh_layout(
    triangles: Seq<SurfaceTriangle>,
    builder_positions: Seq<Vec3>,
    builder_normals: Seq<Vec3>,
    mesh_positions: Seq<Vec3>,
    mesh_normals: Seq<Vec3>,
)
    requires
        builder_positions.len() == 3 * triangles.len(),
        builder_normals.len() == 3 * triangles.len(),
        forall|i: int|
            0 <= i < triangles.len() ==> {
                let t = #[trigger] triangles[i];
                &&& builder_positions[3 * i] == t.v0
                &&& builder_positions[3 * i + 1] == t.v1
                &&& builder_positions[3 * i + 2] == t.v2
                &&& builder_normals[3 * i] == t.normal
                &&& builder_normals[3 * i + 1] == t.normal
                &&& builder_normals[3 * i + 2] == t.normal
            },
        mesh_positions.len() == builder_positions.len(),
        forall|i: int|
            0 <= i < builder_positions.len() ==> vec3_model(#[trigger] mesh_positions[i])
                == transform_point_spec(
                crate::matrix::identity_spec(),
                vec3_model(builder_positions[i]),
            ),
        mesh_normals == builder_normals,
    ensures
        mesh_positions.len() == 3 * triangles.len(),
        mesh_normals.len() == 3 * triangles.len(),
        forall|i: int|
            0 <= i < triangles.len() ==> {
                let t = #[trigger] triangles[i];
                &&& mesh_positions[3 * i] == t.v0
                &&& mesh_positions[3 * i + 1] == t.v1
                &&& mesh_positions[3 * i + 2] == t.v2
                &&& mesh_normals[3 * i] == t.normal
                &&& mesh_normals[3 * i + 1] == t.normal
                &&& mesh_normals[3 * i + 2] == t.normal
            },
{
    assert forall|i: int| 0 <= i < builder_positions.len() implies #[trigger] mesh_positions[i]
        == builder_positions[i] by {
        crate::matrix::lemma_identity_is_noop(vec3_model(builder_positions[i]));
        assert(vec3_model(mesh_positions[i]) == vec3_model(builder_positions[i]));
    }
    assert forall|i: int| 0 <= i < triangles.len() implies {
        let t = #[trigger] triangles[i];
        &&& mesh_positions[3 * i] == t.v0
        &&& mesh_positions[3 * i + 1] == t.v1
        &&& mesh_positions[3 * i + 2] == t.v2
    } by {
        assert(mesh_positions[3 * i] == builder_positions[3 * i]);
        assert(mesh_positions[3 * i + 1] == builder_positions[3 * i + 1]);
        assert(mesh_positions[3 * i + 2] == builder_positions[3 * i + 2]);
    }
}

/// Round trip: transforming a mesh by the identity matrix leaves every
/// position unchanged, and leaves every normal unchanged too as long as the
/// normal is unit length in fixed point — re-scaling to unit length is part
/// of the transform, so a normal of another length (say `(0, 0, 2)`) would
/// be shortened by it even under the identity. `s` and `n` are the
/// positions and normals before the transform, `s2` and `n2` the arrays
/// after it, related exactly as [`Mesh::transform`] guarantees.
pub proof fn lemma_identity_transform_is_noop(
    s: Seq<Vec3>,
    s2: Seq<Vec3>,
    n: Seq<Vec3>,
    n2: Seq<Vec3>,
)
    requires
        s2.len() == s.len(),
        n2.len() == n.len(),
        forall|i: int|
            0 <= i < s.len() ==> vec3_model(#[trigger] s2[i]) == transform_point_spec(
                crate::matrix::identity_spec(),
                vec3_model(s[i]),
            ),
        forall|i: int|
            0 <= i < n.len() ==> vec3_model(#[trigger] n2[i]) == normalize_spec(
                transform_vector_spec(crate::matrix::identity_spec(), vec3_model(n[i])),
            ),
        forall|i: int| 0 <= i < n.len() ==> crate::vec3::unit_norm(vec3_model(#[trigger] n[i])),
    ensures
        s2 == s,
        n2 == n,
{
    assert forall|i: int| 0 <= i < s.len() implies s2[i] == #[trigger] s[i] by {
        crate::matrix::lemma_identity_is_noop(vec3_model(s[i]));
        assert(vec3_model(s2[i]) == vec3_model(s[i]));
    }
    assert(s2 =~= s);
    assert forall|i: int| 0 <= i < n.len() implies n2[i] == #[trigger] n[i] by {
        crate::matrix::lemma_identity_is_noop(vec3_model(n[i]));
        crate::vec3::lemma_normalize_unit(vec3_model(n[i]));
        assert(vec3_model(n2[i]) == vec3_model(n[i]));
    }
    assert(n2 =~= n);
}

/// Runtime check that all three components lie within `[-limit, limit]`.
fn vec3_within(v: &Vec3, limit: i64) -> (b: bool)
    requires
        limit >= 0,
    ensures
        b == in_range(vec3_model(*v), limit as int),
{
    -limit <= v.x && v.x <= limit && -limit <= v.y && v.y <= limit && -limit <= v.z && v.z
        <= limit
}

} // verus!
