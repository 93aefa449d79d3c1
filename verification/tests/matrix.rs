use glam::{DMat4, DQuat, DVec3, Mat4, Quat, Vec3};
use usd_scene::document::{Document, LocalTransform, Node, NodeKind};
use usd_scene::flatten::traverse;
use usd_scene::frames::{TransformStep, Traversal};
use usd_scene::matrix::{from_cols_array, identity, to_cols_array, transpose, ONE_F32, ONE_F64};
use usd_scene::mesh::MeshSource;

fn approx_eq(a: f32, b: f32) -> bool {
    (a - b).abs() < 1e-4
}

/// A matrix whose entries name their place: row `r`, column `c` holds `10 r + c`.
fn numbered() -> [[u32; 4]; 4] {
    let mut m = [[0u32; 4]; 4];
    for r in 0..4 {
        for c in 0..4 {
            m[r][c] = (10 * r + c) as u32;
        }
    }
    m
}

fn to_bits(rows: [[f64; 4]; 4]) -> [[u64; 4]; 4] {
    rows.map(|row| row.map(f64::to_bits))
}

fn from_bits(rows: [[u64; 4]; 4]) -> [[f64; 4]; 4] {
    rows.map(|row| row.map(f64::from_bits))
}

/// A single-precision matrix as the row-major double-precision matrix of the
/// scene description.
fn mat4_to_rows(mat: Mat4) -> [[u64; 4]; 4] {
    let cols = mat.to_cols_array().map(|v| (v as f64).to_bits());
    from_cols_array(&cols)
}

/// The row-major double-precision matrix of the scene description as a
/// single-precision matrix.
fn rows_to_mat4(rows: &[[u64; 4]; 4]) -> Mat4 {
    let cols = to_cols_array(rows).map(|v| f64::from_bits(v) as f32);
    Mat4::from_cols_array(&cols)
}

#[test]
fn constants_are_the_bits_of_one() {
    assert_eq!(ONE_F32, 1.0f32.to_bits());
    assert_eq!(ONE_F64, 1.0f64.to_bits());
}

#[test]
fn identity_is_the_identity() {
    assert_eq!(from_bits(identity()), DMat4::IDENTITY.to_cols_array_2d());
}

#[test]
fn transpose_exchanges_rows_and_columns() {
    let m = numbered();
    let t = transpose(&m);
    for r in 0..4 {
        for c in 0..4 {
            assert_eq!(t[r][c], (10 * c + r) as u32);
        }
    }
    assert_eq!(transpose(&t), m);
}

#[test]
fn cols_array_is_column_major() {
    let m = numbered();
    let cols = to_cols_array(&m);
    assert_eq!(cols, [0, 10, 20, 30, 1, 11, 21, 31, 2, 12, 22, 32, 3, 13, 23, 33]);
    for col in 0..4 {
        for row in 0..4 {
            assert_eq!(cols[col * 4 + row], m[row][col]);
        }
    }
    assert_eq!(from_cols_array(&cols), m);
}

#[test]
fn matrix_roundtrip() {
    let mat = Mat4::from_scale_rotation_translation(
        Vec3::new(1.5, -2.0, 0.75),
        Quat::from_rotation_y(std::f32::consts::FRAC_PI_3),
        Vec3::new(4.0, 5.0, -6.0),
    );
    let usd = mat4_to_rows(mat);
    let back = rows_to_mat4(&usd);
    let diff = mat - back;
    for value in diff.to_cols_array() {
        assert!(approx_eq(value, 0.0));
    }
}

#[test]
fn rows_hold_the_translation_in_the_last_column() {
    let mat = Mat4::from_translation(Vec3::new(4.0, 5.0, -6.0));
    let rows = mat4_to_rows(mat);
    assert_eq!(f64::from_bits(rows[0][3]), 4.0);
    assert_eq!(f64::from_bits(rows[1][3]), 5.0);
    assert_eq!(f64::from_bits(rows[2][3]), -6.0);
    assert_eq!(f64::from_bits(rows[3][3]), 1.0);
}

fn node(path: &str, stored: Option<[[u64; 4]; 4]>, kind: NodeKind) -> Node {
    Node {
        path: String::from(path),
        local: LocalTransform { resolved: None, authored: stored },
        kind,
    }
}

fn resolved_node(path: &str, resolved: [[u64; 4]; 4], kind: NodeKind) -> Node {
    Node {
        path: String::from(path),
        local: LocalTransform { resolved: Some(resolved), authored: None },
        kind,
    }
}

fn empty_mesh() -> NodeKind {
    NodeKind::Mesh(MeshSource {
        double_sided: None,
        points: None,
        face_vertex_counts: None,
        face_vertex_indices: None,
        normals_attr: None,
        normals_primvar: None,
        st: None,
    })
}

/// The product of the steps of a frame, each step multiplied on from the
/// right, as the rows of the result.
fn world_of(t: &Traversal, frame: usize) -> DMat4 {
    let mut steps = Vec::new();
    let mut at = Some(frame);
    while let Some(f) = at {
        steps.push(t.frames[f].step);
        at = t.frames[f].parent;
    }
    let mut world = DMat4::IDENTITY;
    for step in steps.iter().rev() {
        let local = match step {
            TransformStep::Local(rows) => DMat4::from_cols_array_2d(&from_bits(*rows)).transpose(),
            TransformStep::Point { .. } => unreachable!(),
        };
        world = world * local;
    }
    world
}

#[test]
fn a_child_is_placed_in_the_frame_of_its_parent() {
    // the parent turns a quarter about z, doubles every length and moves by (10, 0, 0);
    // the child moves by (1, 0, 0) in the frame of the parent
    let parent = DMat4::from_scale_rotation_translation(
        DVec3::splat(2.0),
        DQuat::from_rotation_z(std::f64::consts::FRAC_PI_2),
        DVec3::new(10.0, 0.0, 0.0),
    );
    let child = DMat4::from_translation(DVec3::new(1.0, 0.0, 0.0));
    // the scene description stores each matrix with rows and columns exchanged
    let stored = |m: DMat4| Some(to_bits(m.to_cols_array_2d()));
    let doc = Document {
        nodes: vec![
            node("/p", stored(parent), NodeKind::Group(vec![1])),
            node("/p/c", stored(child), empty_mesh()),
        ],
        root: 0,
    };
    let t = traverse(&doc, 4).unwrap();
    let world = world_of(&t, t.occurrences[0].frame);
    // the origin of the child: one unit along the parent's x axis, which points along y,
    // doubled, from (10, 0, 0)
    let origin = world.transform_point3(DVec3::ZERO);
    assert!((origin - DVec3::new(10.0, 2.0, 0.0)).length() < 1e-9);
    let reference = parent * child;
    for (got, want) in world.to_cols_array().iter().zip(reference.to_cols_array().iter()) {
        assert!((got - want).abs() < 1e-9);
    }
}

#[test]
fn a_resolved_parent_is_composed_without_exchange() {
    let parent = DMat4::from_scale_rotation_translation(
        DVec3::new(1.0, 2.0, 3.0),
        DQuat::from_rotation_x(0.7),
        DVec3::new(-4.0, 5.0, 6.0),
    );
    let child = DMat4::from_scale_rotation_translation(
        DVec3::splat(0.5),
        DQuat::from_rotation_y(-1.1),
        DVec3::new(1.0, 0.0, 2.0),
    );
    // the resolved matrix comes in the composing convention, row by row; the raw
    // attribute comes with rows and columns exchanged
    let rows = |m: DMat4| to_bits(m.transpose().to_cols_array_2d());
    let stored = |m: DMat4| to_bits(m.to_cols_array_2d());
    let doc = Document {
        nodes: vec![
            resolved_node("/p", rows(parent), NodeKind::Group(vec![1])),
            node("/p/c", Some(stored(child)), empty_mesh()),
        ],
        root: 0,
    };
    let t = traverse(&doc, 4).unwrap();
    let world = world_of(&t, t.occurrences[0].frame);
    let reference = parent * child;
    for (got, want) in world.to_cols_array().iter().zip(reference.to_cols_array().iter()) {
        assert!((got - want).abs() < 1e-9);
    }
}
