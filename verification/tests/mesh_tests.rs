use meshframe::bounding_box::BoundingBox;
use meshframe::error::Error;
use meshframe::matrix::Mat4;
use meshframe::mesh::{Mesh, MeshBuilder, SurfaceTriangle};
use meshframe::num::SCALE;
use meshframe::vec3::{Vec2, Vec3};

const S: i64 = SCALE;

fn v(x: i64, y: i64, z: i64) -> Vec3 {
    Vec3 { x, y, z }
}

fn two_triangles() -> Vec<SurfaceTriangle> {
    vec![
        SurfaceTriangle {
            v0: v(0, 0, 0),
            v1: v(S, 0, 0),
            v2: v(0, S, 0),
            normal: v(0, 0, S),
        },
        SurfaceTriangle {
            v0: v(S, S, 0),
            v1: v(2 * S, S, 0),
            v2: v(S, 2 * S, 0),
            normal: v(0, 0, -S),
        },
    ]
}

#[test]
fn from_surface_allocates_three_slots_per_triangle() {
    let triangles = two_triangles();
    let mesh = MeshBuilder::from_surface(&triangles).unwrap().build();
    assert_eq!(mesh.positions.len(), 3 * triangles.len());
    assert_eq!(mesh.normals.len(), 3 * triangles.len());
    assert_eq!(mesh.triangle_vertex_indices.len(), triangles.len());
    for (i, t) in triangles.iter().enumerate() {
        assert_eq!(mesh.positions[3 * i], t.v0);
        assert_eq!(mesh.positions[3 * i + 1], t.v1);
        assert_eq!(mesh.positions[3 * i + 2], t.v2);
        assert_eq!(mesh.normals[3 * i], t.normal);
        assert_eq!(mesh.normals[3 * i + 1], t.normal);
        assert_eq!(mesh.normals[3 * i + 2], t.normal);
        assert_eq!(mesh.triangle_vertex_indices[i], (3 * i, 3 * i + 1, 3 * i + 2));
    }
}

#[test]
fn from_surface_rejects_out_of_range_coordinate() {
    let triangles = vec![SurfaceTriangle {
        v0: v(i64::MAX, 0, 0),
        v1: v(S, 0, 0),
        v2: v(0, S, 0),
        normal: v(0, 0, S),
    }];
    assert_eq!(
        MeshBuilder::from_surface(&triangles).unwrap_err(),
        Error::ParseError
    );
}

#[test]
fn bounding_box_of_empty_mesh_is_none() {
    let mesh = MeshBuilder::new(Vec::new(), Vec::new(), Vec::new()).build();
    assert!(mesh.bounding_box().is_none());
    assert_eq!(BoundingBox::new(&mesh).unwrap_err(), Error::EmptyMesh);
}

#[test]
fn bounding_box_of_single_triangle() {
    let triangles = vec![SurfaceTriangle {
        v0: v(0, 0, 0),
        v1: v(S, 0, 0),
        v2: v(0, S, 0),
        normal: v(0, 0, S),
    }];
    let mesh = MeshBuilder::from_surface(&triangles).unwrap().build();
    let (mn, mx) = mesh.bounding_box().unwrap();
    assert_eq!(mn, v(0, 0, 0));
    assert_eq!(mx, v(S, S, 0));
}

#[test]
fn recentering_makes_bounds_symmetric() {
    let triangles = vec![SurfaceTriangle {
        v0: v(0, 0, 0),
        v1: v(2 * S, 0, 0),
        v2: v(0, 4 * S, 0),
        normal: v(0, 0, S),
    }];
    let mut mesh = MeshBuilder::from_surface(&triangles).unwrap().build();
    let bb = BoundingBox::new(&mesh).unwrap();
    let to_origin = bb.center_to_origin();
    assert_eq!(to_origin, v(-S, -2 * S, 0));
    mesh.transform(&Mat4::from_translation(&to_origin));
    let bb2 = BoundingBox::new(&mesh).unwrap();
    assert_eq!(bb2.x_min, -bb2.x_max);
    assert_eq!(bb2.y_min, -bb2.y_max);
    assert_eq!(bb2.z_min, -bb2.z_max);
    assert_eq!(bb2.x_max, S);
    assert_eq!(bb2.y_max, 2 * S);
    assert_eq!(bb2.z_max, 0);
}

#[test]
fn identity_transform_changes_nothing() {
    let triangles = two_triangles();
    let mut mesh = MeshBuilder::from_surface(&triangles).unwrap().build();
    let positions_before = mesh.positions.clone();
    let normals_before = mesh.normals.clone();
    mesh.transform(&Mat4::identity());
    assert_eq!(mesh.positions, positions_before);
    assert_eq!(mesh.normals, normals_before);
}

#[test]
fn translation_moves_positions_and_keeps_normals() {
    let triangles = two_triangles();
    let mut mesh = MeshBuilder::from_surface(&triangles).unwrap().build();
    let normals_before = mesh.normals.clone();
    mesh.transform(&Mat4::from_translation(&v(S, -S, 3 * S)));
    assert_eq!(mesh.positions[0], v(S, -S, 3 * S));
    assert_eq!(mesh.positions[1], v(2 * S, -S, 3 * S));
    assert_eq!(mesh.normals, normals_before);
}

#[test]
fn build_applies_object_to_world_transform() {
    let triangles = vec![SurfaceTriangle {
        v0: v(0, 0, 0),
        v1: v(S, 0, 0),
        v2: v(0, S, 0),
        normal: v(0, 0, S),
    }];
    let mesh = MeshBuilder::from_surface(&triangles)
        .unwrap()
        .object_to_world(Mat4::from_translation(&v(10 * S, 0, 0)))
        .build();
    assert_eq!(mesh.positions[0], v(10 * S, 0, 0));
    assert_eq!(mesh.positions[1], v(11 * S, 0, 0));
    assert_eq!(mesh.positions[2], v(10 * S, S, 0));
    assert_eq!(mesh.normals[0], v(0, 0, S));
}

#[test]
fn builder_attaches_uvs_and_tangents() {
    let uvs = vec![
        Vec2 { x: 0, y: 0 },
        Vec2 { x: S, y: 0 },
        Vec2 { x: S, y: S },
    ];
    let tangents = vec![v(S, 0, 0), v(S, 0, 0), v(S, 0, 0)];
    let triangles = vec![SurfaceTriangle {
        v0: v(0, 0, 0),
        v1: v(S, 0, 0),
        v2: v(0, S, 0),
        normal: v(0, 0, S),
    }];
    let mesh = MeshBuilder::from_surface(&triangles)
        .unwrap()
        .uvs(uvs.clone())
        .tangents(tangents.clone())
        .build();
    assert_eq!(mesh.uvs.as_ref().unwrap(), &uvs);
    assert_eq!(mesh.tangents.as_ref().unwrap(), &tangents);
}

#[test]
fn triangle_views_resolve_vertices() {
    let triangles = two_triangles();
    let mesh = MeshBuilder::from_surface(&triangles).unwrap().build();
    let views = mesh.triangles();
    assert_eq!(views.len(), 2);
    let (p0, p1, p2) = views[1].world_space_vertices();
    assert_eq!(p0, v(S, S, 0));
    assert_eq!(p1, v(2 * S, S, 0));
    assert_eq!(p2, v(S, 2 * S, 0));
}

#[test]
fn uv_vertices_default_when_absent() {
    let triangles = two_triangles();
    let mesh = MeshBuilder::from_surface(&triangles).unwrap().build();
    let t = mesh.triangle_at(0);
    let (a, b, c) = t.uv_vertices();
    assert_eq!(a, Vec2 { x: 0, y: 0 });
    assert_eq!(b, Vec2 { x: S, y: 0 });
    assert_eq!(c, Vec2 { x: S, y: S });
}

#[test]
fn uv_vertices_read_attached_coordinates() {
    let triangles = vec![SurfaceTriangle {
        v0: v(0, 0, 0),
        v1: v(S, 0, 0),
        v2: v(0, S, 0),
        normal: v(0, 0, S),
    }];
    let uvs = vec![
        Vec2 { x: 1, y: 2 },
        Vec2 { x: 3, y: 4 },
        Vec2 { x: 5, y: 6 },
    ];
    let mesh = MeshBuilder::from_surface(&triangles)
        .unwrap()
        .uvs(uvs)
        .build();
    let (a, b, c) = mesh.triangle_at(0).uv_vertices();
    assert_eq!(a, Vec2 { x: 1, y: 2 });
    assert_eq!(b, Vec2 { x: 3, y: 4 });
    assert_eq!(c, Vec2 { x: 5, y: 6 });
}

#[test]
fn bounding_box_shift_moves_both_bounds() {
    let mut bb = BoundingBox {
        x_min: 0,
        x_max: S,
        y_min: -S,
        y_max: S,
        z_min: 0,
        z_max: 0,
    };
    bb.shift(&v(S, S, -S));
    assert_eq!(bb.x_min, S);
    assert_eq!(bb.x_max, 2 * S);
    assert_eq!(bb.y_min, 0);
    assert_eq!(bb.y_max, 2 * S);
    assert_eq!(bb.z_min, -S);
    assert_eq!(bb.z_max, -S);
}

#[test]
fn center_rounds_half_of_odd_extent_down() {
    let bb = BoundingBox {
        x_min: 0,
        x_max: 3,
        y_min: 0,
        y_max: 0,
        z_min: 0,
        z_max: 0,
    };
    let c = bb.center();
    assert_eq!(c, v(1, 0, 0));
    let t = bb.center_to_origin();
    assert_eq!(t, v(-1, 0, 0));
}

#[test]
fn from_surface_of_empty_list_gives_empty_mesh() {
    let triangles: Vec<SurfaceTriangle> = Vec::new();
    let mesh = MeshBuilder::from_surface(&triangles).unwrap().build();
    assert_eq!(mesh.positions.len(), 0);
    assert_eq!(mesh.triangle_vertex_indices.len(), 0);
    assert!(mesh.bounding_box().is_none());
}

#[test]
fn bounding_box_spans_negative_coordinates() {
    let triangles = vec![SurfaceTriangle {
        v0: v(-3 * S, -S, 0),
        v1: v(S, 0, -2 * S),
        v2: v(0, 2 * S, S),
        normal: v(0, 0, S),
    }];
    let mesh = MeshBuilder::from_surface(&triangles).unwrap().build();
    let (mn, mx) = mesh.bounding_box().unwrap();
    assert_eq!(mn, v(-3 * S, -S, -2 * S));
    assert_eq!(mx, v(S, 2 * S, S));
}

#[test]
fn error_values_are_distinct_and_described() {
    assert_ne!(Error::ParseError, Error::EmptyMesh);
    assert_eq!(Error::RenderFailure.describe(), "the renderer failed");
    assert_eq!(Error::EmptyMesh.describe(), "mesh is empty");
}
