//! A lightweight view of one triangle of a mesh, resolving its index triple
//! into vertex positions and texture coordinates.

use crate::mesh::Mesh;
use crate::num::SCALE;
use crate::vec3::{Vec2, Vec3};
use vstd::prelude::*;

verus! {

/// A reference to an individual triangle in a mesh.
#[derive(Debug, Clone, Copy)]
pub struct Triangle<'msh> {
    pub mesh: &'msh Mesh,
    pub index_in_mesh: usize,
}

impl<'msh> Triangle<'msh> {
    /// The positions of the triangle's three vertices in world space.
    pub fn world_space_vertices(&self) -> (r: (Vec3, Vec3, Vec3))
        requires
            self.mesh.wf(),
            self.index_in_mesh < self.mesh.triangle_vertex_indices@.len(),
        ensures
            ({
                let t = self.mesh.triangle_vertex_indices@[self.index_in_mesh as int];
                &&& r.0 == self.mesh.positions@[t.0 as int]
                &&& r.1 == self.mesh.positions@[t.1 as int]
                &&& r.2 == self.mesh.positions@[t.2 as int]
            }),
    {
        let (i1, i2, i3) = self.mesh.triangle_vertex_indices[self.index_in_mesh];
        let p1 = self.mesh.positions[i1];
        let p2 = self.mesh.positions[i2];
        let p3 = self.mesh.positions[i3];
        (p1, p2, p3)
    }

    /// The texture coordinates of the triangle's three vertices. A mesh
    /// without texture coordinates yields the default triple
    /// `(0, 0), (1, 0), (1, 1)`.
    pub fn uv_vertices(&self) -> (r: (Vec2, Vec2, Vec2))
        requires
            self.mesh.wf(),
            self.index_in_mesh < self.mesh.triangle_vertex_indices@.len(),
        ensures
            ({
                let t = self.mesh.triangle_vertex_indices@[self.index_in_mesh as int];
                match self.mesh.uvs {
                    Some(uvs) => {
                        &&& r.0 == uvs@[t.0 as int]
                        &&& r.1 == uvs@[t.1 as int]
                        &&& r.2 == uvs@[t.2 as int]
                    },
                    None => {
                        &&& r.0 == (Vec2 { x: 0, y: 0 })
                        &&& r.1 == (Vec2 { x: SCALE, y: 0 })
                        &&& r.2 == (Vec2 { x: SCALE, y: SCALE })
                    },
                }
            }),
    {
        match &self.mesh.uvs {
            Some(uvs) => {
                let (i1, i2, i3) = self.mesh.triangle_vertex_indices[self.index_in_mesh];
                (uvs[i1], uvs[i2], uvs[i3])
            },
            None => (
                Vec2 { x: 0, y: 0 },
                Vec2 { x: SCALE, y: 0 },
                Vec2 { x: SCALE, y: SCALE },
            ),
        }
    }
}

impl Mesh {
    /// A view of the triangle at the given index.
    pub fn triangle_at<'msh>(&'msh self, index: usize) -> (r: Triangle<'msh>)
        requires
            index < self.triangle_vertex_indices@.len(),
        ensures
            r.mesh == self,
            r.index_in_mesh == index,
    {
        Triangle { mesh: self, index_in_mesh: index }
    }

    /// Views of all triangles of the mesh, in index order.
    pub fn triangles<'msh>(&'msh self) -> (r: Vec<Triangle<'msh>>)
        ensures
            r@.len() == self.triangle_vertex_indices@.len(),
            forall|i: int|
                0 <= i < r@.len() ==> (#[trigger] r@[i]).mesh == self && r@[i].index_in_mesh == i,
    {
        let triangle_count = self.triangle_vertex_indices.len();
        let mut out: Vec<Triangle> = Vec::new();
        let mut i: usize = 0;
        while i < triangle_count
            invariant
                i <= triangle_count,
                triangle_count == self.triangle_vertex_indices@.len(),
                out@.len() == i,
                forall|j: int|
                    0 <= j < i ==> (#[trigger] out@[j]).mesh == self && out@[j].index_in_mesh == j,
            decreases triangle_count - i,
        {
            let t = self.triangle_at(i);
            out.push(t);
            i = i + 1;
        }
        out
    }
}

} // verus!
