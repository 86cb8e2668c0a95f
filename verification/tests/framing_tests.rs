use meshframe::bounding_box::{Axis, BoundingBox};
use meshframe::framing::{camera_distance, max_distance_from_origin, spherical_position};
use meshframe::mesh::MeshBuilder;
use meshframe::num::SCALE;
use meshframe::vec3::Vec3;

const S: i64 = SCALE;

fn v(x: i64, y: i64, z: i64) -> Vec3 {
    Vec3 { x, y, z }
}

fn cube_box(side: i64) -> BoundingBox {
    BoundingBox {
        x_min: 0,
        x_max: side,
        y_min: 0,
        y_max: side,
        z_min: 0,
        z_max: side,
    }
}

#[test]
fn cube_tie_break_prefers_z_over_x() {
    let bb = cube_box(2 * S);
    // dx == dy == dz, so the X and Z cross sections are equal; with Y out of
    // consideration the tie must fall to Z.
    assert_eq!(bb.largest_cross_section_axis(false), Axis::Z);
}

#[test]
fn y_axis_wins_only_when_considered_and_strictly_largest() {
    let bb = BoundingBox {
        x_min: 0,
        x_max: 4 * S,
        y_min: 0,
        y_max: S,
        z_min: 0,
        z_max: 3 * S,
    };
    // area over X = dy*dz = 3, over Y = dx*dz = 12, over Z = dx*dy = 4 (in
    // square units).
    assert_eq!(bb.largest_cross_section_axis(true), Axis::Y);
    assert_eq!(bb.largest_cross_section_axis(false), Axis::Z);
}

#[test]
fn x_axis_wins_when_its_cross_section_is_largest() {
    let bb = BoundingBox {
        x_min: 0,
        x_max: S,
        y_min: 0,
        y_max: 3 * S,
        z_min: 0,
        z_max: 3 * S,
    };
    // area over X = 9, over Z = 3 (in square units).
    assert_eq!(bb.largest_cross_section_axis(false), Axis::X);
}

#[test]
fn visible_size_pairs_extents_by_axis() {
    let bb = BoundingBox {
        x_min: 0,
        x_max: S,
        y_min: 0,
        y_max: 2 * S,
        z_min: 0,
        z_max: 3 * S,
    };
    assert_eq!(bb.visible_size(&Axis::X), (3 * S, 2 * S));
    assert_eq!(bb.visible_size(&Axis::Y), (S, 3 * S));
    assert_eq!(bb.visible_size(&Axis::Z), (S, 2 * S));
}

#[test]
fn camera_position_on_z_axis() {
    let bb = cube_box(2 * S);
    // Wide viewport (aspect 2), so the target height is the cross-section
    // height 2; with sin(theta) = 1/2 the camera stands 1 unit behind the
    // box, plus the box's own extent 2.
    let pos = bb.pick_camera_position(2 * S, S / 2, &Axis::Z);
    assert_eq!(pos, v(0, 0, 3 * S));
}

#[test]
fn camera_position_narrow_aspect_uses_width() {
    let bb = cube_box(2 * S);
    // Tall viewport (aspect 1/2): the width 2 must fit, so the target height
    // is 2 / (1/2) = 4; with sin(theta) = 1 the camera stands 4 units behind
    // the box, plus its extent 2.
    let pos = bb.pick_camera_position(S / 2, S, &Axis::X);
    assert_eq!(pos, v(6 * S, 0, 0));
}

#[test]
fn light_position_per_axis() {
    let bb = BoundingBox {
        x_min: 0,
        x_max: S,
        y_min: 0,
        y_max: 2 * S,
        z_min: 0,
        z_max: 3 * S,
    };
    assert_eq!(bb.pick_light_position(&Axis::X), v(S, 2 * S, 0));
    assert_eq!(bb.pick_light_position(&Axis::Y), v(0, 2 * S, -3 * S));
    assert_eq!(bb.pick_light_position(&Axis::Z), v(0, 2 * S, 3 * S));
}

#[test]
fn spherical_position_at_equator_lies_on_x_axis() {
    // theta = 90 degrees: sin = 1, cos = 0; phi = 0: sin = 0, cos = 1.
    let pos = spherical_position(5 * S, S, 0, 0, S);
    assert_eq!(pos, v(5 * S, 0, 0));
}

#[test]
fn spherical_position_at_pole_ignores_azimuth() {
    // theta = 0: sin = 0, cos = 1; any azimuth gives the +Z pole.
    let approx_sin_quarter = 46341; // sin(45 degrees) in fixed point, rounded
    let pos1 = spherical_position(5 * S, 0, S, 0, S);
    let pos2 = spherical_position(5 * S, 0, S, approx_sin_quarter, approx_sin_quarter);
    assert_eq!(pos1, v(0, 0, 5 * S));
    assert_eq!(pos2, v(0, 0, 5 * S));
}

#[test]
fn camera_distance_is_radius_over_sine() {
    // radius 3, sin(fovy / 2) = 1/2: the camera must stand 6 units out.
    assert_eq!(camera_distance(3 * S, S / 2), 6 * S);
    // A full hemisphere (sine 1) needs exactly the radius.
    assert_eq!(camera_distance(3 * S, S), 3 * S);
}

#[test]
fn max_distance_finds_farthest_vertex() {
    let positions = vec![v(0, 0, 0), v(3 * S, 4 * S, 0), v(S, 0, 0)];
    let normals = vec![v(0, 0, S), v(0, 0, S), v(0, 0, S)];
    let mesh = MeshBuilder::new(positions, normals, vec![(0, 1, 2)]).build();
    // The farthest vertex is (3, 4, 0), at distance exactly 5.
    assert_eq!(max_distance_from_origin(&mesh), 5 * S);
}

#[test]
fn max_distance_of_empty_mesh_is_zero() {
    let mesh = MeshBuilder::new(Vec::new(), Vec::new(), Vec::new()).build();
    assert_eq!(max_distance_from_origin(&mesh), 0);
}

#[test]
fn norm_and_normalized_vectors() {
    let a = v(3 * S, 4 * S, 0);
    assert_eq!(a.norm(), 5 * S);
    let u = a.normalized();
    // 3/5 and 4/5 in fixed point, rounded toward zero.
    assert_eq!(u, v(39321, 52428, 0));
    let zero = v(0, 0, 0);
    assert_eq!(zero.normalized(), zero);
}
