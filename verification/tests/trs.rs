use glam::{Mat4, Quat, Vec3};
use usd_scene::document::{Document, LocalTransform, Node, NodeKind, PointInstancer};
use usd_scene::flatten::traverse;
use usd_scene::frames::TransformStep;
use usd_scene::matrix::{from_cols_array, to_cols_array};
use usd_scene::mesh::MeshSource;

// Of the library, these tests check that a traversal hands the position,
// orientation and scale of a point on to its step as they are stored. The
// composition of the step into a matrix, `make_trs_matrix` below, is this
// file's own arithmetic: the library does not compute with scalars.

/// The matrix of a point step, row-major and in double precision: scale, then
/// the normalised rotation, then translation.
fn make_trs_matrix(step: &TransformStep) -> [[f64; 4]; 4] {
    let TransformStep::Point { translation, rotation, scale } = step else {
        panic!("not the step of a point: {:?}", step);
    };
    let rot = rotation.map(f32::from_bits);
    let mut rotation = Quat::from_xyzw(rot[0], rot[1], rot[2], rot[3]);
    if rotation.length_squared() <= f32::EPSILON {
        rotation = Quat::IDENTITY;
    } else {
        rotation = rotation.normalize();
    }
    let mat = Mat4::from_scale_rotation_translation(
        Vec3::from_array(scale.map(f32::from_bits)),
        rotation,
        Vec3::from_array(translation.map(f32::from_bits)),
    );
    from_cols_array(&mat.to_cols_array().map(|v| v as f64))
}

fn matrix4d_to_mat4(rows: &[[f64; 4]; 4]) -> Mat4 {
    Mat4::from_cols_array(&to_cols_array(rows).map(|v| v as f32))
}

/// The step of the one point of an instancer with the given per-point values.
fn point_step(pos: [f32; 3], rot: [f32; 4], scale: [f32; 3]) -> TransformStep {
    let none = LocalTransform { resolved: None, authored: None };
    let instancer = PointInstancer {
        proto_indices: vec![0],
        positions: vec![pos.map(f32::to_bits)],
        scales: vec![scale.map(f32::to_bits)],
        orientations: vec![rot.map(f32::to_bits)],
        prototypes: vec![String::from("/proto")],
    };
    let proto = MeshSource {
        double_sided: None,
        points: None,
        face_vertex_counts: None,
        face_vertex_indices: None,
        normals_attr: None,
        normals_primvar: None,
        st: None,
    };
    let doc = Document {
        nodes: vec![
            Node { path: String::from("/i"), local: none, kind: NodeKind::PointInstancer(instancer) },
            Node { path: String::from("/proto"), local: none, kind: NodeKind::Mesh(proto) },
        ],
        root: 0,
    };
    let traversal = traverse(&doc, 4).unwrap();
    assert_eq!(traversal.occurrences.len(), 1);
    let mesh_frame = traversal.frames[traversal.occurrences[0].frame];
    traversal.frames[mesh_frame.parent.unwrap()].step
}

#[test]
fn make_trs_matches_glam() {
    let pos = [1.0, -2.5, 3.25];
    let rot = [0.1, 0.2, 0.3, 0.9];
    let scale = [2.0, 3.0, 0.5];

    let usd_matrix = make_trs_matrix(&point_step(pos, rot, scale));
    let glam_rot = {
        let mut q = Quat::from_xyzw(rot[0], rot[1], rot[2], rot[3]);
        if q.length_squared() <= f32::EPSILON {
            q = Quat::IDENTITY;
        } else {
            q = q.normalize();
        }
        q
    };
    let glam_mat = Mat4::from_scale_rotation_translation(
        Vec3::from_array(scale),
        glam_rot,
        Vec3::from_array(pos),
    );

    let converted = matrix4d_to_mat4(&usd_matrix);
    let diff = glam_mat - converted;
    for v in diff.to_cols_array() {
        assert!(v.abs() < 1e-4, "matrix mismatch: {:?}", diff);
    }
}

#[test]
fn a_point_without_rotation_is_placed_unrotated() {
    // the stored rotation is the null quaternion; the step hands it on as stored,
    // and the matrix of the step is that of the identity rotation
    let step = point_step([1.0, 2.0, 3.0], [0.0, 0.0, 0.0, 0.0], [1.0, 1.0, 1.0]);
    assert_eq!(
        step,
        TransformStep::Point {
            translation: [1.0f32, 2.0, 3.0].map(f32::to_bits),
            rotation: [0; 4],
            scale: [1.0f32, 1.0, 1.0].map(f32::to_bits),
        }
    );
    let rows = make_trs_matrix(&step);
    let expected = Mat4::from_translation(Vec3::new(1.0, 2.0, 3.0));
    let diff = expected - matrix4d_to_mat4(&rows);
    for v in diff.to_cols_array() {
        assert!(v.is_finite());
        assert!(v.abs() < 1e-6);
    }
}
