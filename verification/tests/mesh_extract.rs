use usd_scene::interpolation::PrimvarInterpolation;
use usd_scene::mesh::{
    copy_vec, get_mesh_data, widen_index, widen_indices, AuthoredNormals, MeshSource, SceneData,
};

fn b(x: f32) -> u32 {
    x.to_bits()
}

fn p(x: f32, y: f32, z: f32) -> [u32; 3] {
    [b(x), b(y), b(z)]
}

fn absent() -> MeshSource {
    MeshSource {
        double_sided: None,
        points: None,
        face_vertex_counts: None,
        face_vertex_indices: None,
        normals_attr: None,
        normals_primvar: None,
        st: None,
    }
}

#[test]
fn absent_attributes_give_defaults() {
    let mesh = get_mesh_data(&absent());
    assert!(mesh.positions.is_empty());
    assert!(mesh.face_vertex_counts.is_empty());
    assert!(mesh.face_vertex_indices.is_empty());
    assert_eq!(mesh.normals, None);
    assert_eq!(mesh.normal_indices, None);
    assert_eq!(mesh.normal_interpolation, None);
    assert_eq!(mesh.uvs, None);
    assert!(!mesh.double_sided);
}

#[test]
fn authored_attributes_are_copied() {
    let mut src = absent();
    src.double_sided = Some(true);
    src.points = Some(vec![p(0.0, 0.0, 0.0), p(1.0, 0.0, 0.0), p(0.0, 1.0, 0.0)]);
    src.face_vertex_counts = Some(vec![3]);
    src.face_vertex_indices = Some(vec![0, 1, 2]);
    src.st = Some(vec![[b(0.0), b(0.0)], [b(1.0), b(0.0)], [b(0.0), b(1.0)]]);
    let mesh = get_mesh_data(&src);
    assert_eq!(mesh.positions, vec![p(0.0, 0.0, 0.0), p(1.0, 0.0, 0.0), p(0.0, 1.0, 0.0)]);
    assert_eq!(mesh.face_vertex_counts, vec![3usize]);
    assert_eq!(mesh.face_vertex_indices, vec![0usize, 1, 2]);
    assert_eq!(mesh.uvs, Some(vec![[b(0.0), b(0.0)], [b(1.0), b(0.0)], [b(0.0), b(1.0)]]));
    assert!(mesh.double_sided);
}

#[test]
fn double_sided_false_is_kept() {
    let mut src = absent();
    src.double_sided = Some(false);
    assert!(!get_mesh_data(&src).double_sided);
}

#[test]
fn direct_normals_win_over_primvar() {
    let mut src = absent();
    src.normals_attr = Some(AuthoredNormals {
        values: vec![p(0.0, 0.0, 1.0)],
        interpolation: Some(String::from("constant")),
        indices: Some(vec![0]),
    });
    src.normals_primvar = Some(AuthoredNormals {
        values: vec![p(1.0, 0.0, 0.0), p(0.0, 1.0, 0.0)],
        interpolation: Some(String::from("vertex")),
        indices: None,
    });
    let mesh = get_mesh_data(&src);
    assert_eq!(mesh.normals, Some(vec![p(0.0, 0.0, 1.0)]));
    assert_eq!(mesh.normal_indices, Some(vec![0usize]));
    assert_eq!(mesh.normal_interpolation, Some(PrimvarInterpolation::Constant));
}

#[test]
fn primvar_normals_are_used_when_direct_is_absent() {
    let mut src = absent();
    src.normals_primvar = Some(AuthoredNormals {
        values: vec![p(1.0, 0.0, 0.0), p(0.0, 1.0, 0.0)],
        interpolation: Some(String::from("faceVarying")),
        indices: Some(vec![1, 0, 1]),
    });
    let mesh = get_mesh_data(&src);
    assert_eq!(mesh.normals, Some(vec![p(1.0, 0.0, 0.0), p(0.0, 1.0, 0.0)]));
    assert_eq!(mesh.normal_indices, Some(vec![1usize, 0, 1]));
    assert_eq!(mesh.normal_interpolation, Some(PrimvarInterpolation::FaceVarying));
}

#[test]
fn primvar_normals_are_used_when_direct_is_empty() {
    let mut src = absent();
    src.normals_attr = Some(AuthoredNormals {
        values: vec![],
        interpolation: Some(String::from("uniform")),
        indices: Some(vec![0]),
    });
    src.normals_primvar = Some(AuthoredNormals {
        values: vec![p(0.0, 1.0, 0.0)],
        interpolation: Some(String::from("vertex")),
        indices: None,
    });
    let mesh = get_mesh_data(&src);
    assert_eq!(mesh.normals, Some(vec![p(0.0, 1.0, 0.0)]));
    assert_eq!(mesh.normal_indices, None);
    assert_eq!(mesh.normal_interpolation, Some(PrimvarInterpolation::Vertex));
}

#[test]
fn empty_normals_leave_all_three_fields_absent() {
    let mut src = absent();
    src.normals_attr = Some(AuthoredNormals {
        values: vec![],
        interpolation: Some(String::from("uniform")),
        indices: Some(vec![0, 1]),
    });
    src.normals_primvar = Some(AuthoredNormals {
        values: vec![],
        interpolation: Some(String::from("vertex")),
        indices: Some(vec![2]),
    });
    let mesh = get_mesh_data(&src);
    assert_eq!(mesh.normals, None);
    assert_eq!(mesh.normal_indices, None);
    assert_eq!(mesh.normal_interpolation, None);
}

#[test]
fn normals_without_token_or_with_empty_indices() {
    let mut src = absent();
    src.normals_attr = Some(AuthoredNormals {
        values: vec![p(0.0, 0.0, 1.0)],
        interpolation: None,
        indices: Some(vec![]),
    });
    let mesh = get_mesh_data(&src);
    assert_eq!(mesh.normals, Some(vec![p(0.0, 0.0, 1.0)]));
    assert_eq!(mesh.normal_indices, None);
    assert_eq!(mesh.normal_interpolation, None);
}

#[test]
fn unrecognised_token_is_unknown() {
    let mut src = absent();
    src.normals_attr = Some(AuthoredNormals {
        values: vec![p(0.0, 0.0, 1.0)],
        interpolation: Some(String::from("perFace")),
        indices: None,
    });
    let mesh = get_mesh_data(&src);
    assert_eq!(mesh.normal_interpolation, Some(PrimvarInterpolation::Unknown));
}

#[test]
fn empty_uvs_are_absent() {
    let mut src = absent();
    src.st = Some(vec![]);
    assert_eq!(get_mesh_data(&src).uvs, None);
}

#[test]
fn stored_integers_are_sign_extended() {
    assert_eq!(widen_index(0), 0usize);
    assert_eq!(widen_index(7), 7usize);
    assert_eq!(widen_index(i32::MAX), i32::MAX as usize);
    assert_eq!(widen_index(-1), usize::MAX);
    assert_eq!(widen_index(-2), usize::MAX - 1);
    assert_eq!(widen_index(i32::MIN), i32::MIN as usize);
    assert_eq!(widen_indices(&vec![3, -1, 0]), vec![3usize, usize::MAX, 0]);
    assert_eq!(widen_indices(&vec![]), Vec::<usize>::new());
}

#[test]
fn negative_counts_and_indices_are_widened_in_the_record() {
    let mut src = absent();
    src.face_vertex_counts = Some(vec![3, -1]);
    src.face_vertex_indices = Some(vec![0, -5, 2]);
    let mesh = get_mesh_data(&src);
    assert_eq!(mesh.face_vertex_counts, vec![3usize, (-1i32) as usize]);
    assert_eq!(mesh.face_vertex_indices, vec![0usize, (-5i32) as usize, 2]);
}

#[test]
fn copy_vec_copies() {
    assert_eq!(copy_vec(&vec![1u8, 2, 3]), vec![1u8, 2, 3]);
    assert_eq!(copy_vec(&Vec::<u32>::new()), Vec::<u32>::new());
}

#[test]
fn default_scene_is_empty() {
    let scene = SceneData::default();
    assert!(scene.meshes.is_empty());
    assert!(scene.instances.is_empty());
}
