use usd_scene::document::{Document, LocalTransform, Node, NodeKind, PointInstancer};
use usd_scene::flatten::traverse;
use usd_scene::frames::{Frame, Occurrence, TransformStep, Traversal};
use usd_scene::matrix::identity;
use usd_scene::mesh::{get_mesh_data, MeshInstance, MeshSource};
use usd_scene::scene::{build_scene, SceneBuilder};

fn b(x: f32) -> u32 {
    x.to_bits()
}

fn source(tag: f32) -> MeshSource {
    MeshSource {
        double_sided: None,
        points: Some(vec![[b(tag), b(0.0), b(0.0)]]),
        face_vertex_counts: None,
        face_vertex_indices: None,
        normals_attr: None,
        normals_primvar: None,
        st: None,
    }
}

fn no_transform() -> LocalTransform {
    LocalTransform { resolved: None, authored: None }
}

fn mesh(path: &str, tag: f32) -> Node {
    Node { path: String::from(path), local: no_transform(), kind: NodeKind::Mesh(source(tag)) }
}

fn group(path: &str, children: Vec<usize>) -> Node {
    Node { path: String::from(path), local: no_transform(), kind: NodeKind::Group(children) }
}

/// A world transform that names its frame.
fn world_of(frame: usize) -> [[u32; 4]; 4] {
    [[frame as u32; 4]; 4]
}

fn worlds(t: &Traversal) -> Vec<[[u32; 4]; 4]> {
    (0..t.frames.len()).map(world_of).collect()
}

#[test]
fn builder_starts_empty() {
    let scene = SceneBuilder::new().into_scene();
    assert!(scene.meshes.is_empty());
    assert!(scene.instances.is_empty());
}

#[test]
fn builder_finds_a_path_again() {
    let mut builder = SceneBuilder::new();
    assert_eq!(builder.get_or_insert_mesh("/a", &source(1.0)), 0);
    assert_eq!(builder.get_or_insert_mesh("/b", &source(2.0)), 1);
    assert_eq!(builder.get_or_insert_mesh("/a", &source(3.0)), 0);
    assert_eq!(builder.get_or_insert_mesh("/c", &source(4.0)), 2);
    assert_eq!(builder.get_or_insert_mesh("/b", &source(5.0)), 1);
    let scene = builder.into_scene();
    assert_eq!(
        scene.meshes,
        vec![get_mesh_data(&source(1.0)), get_mesh_data(&source(2.0)), get_mesh_data(&source(4.0))]
    );
    assert!(scene.instances.is_empty());
}

#[test]
fn builder_appends_instances() {
    let mut builder = SceneBuilder::new();
    builder.push_instance(3, &world_of(7));
    builder.push_instance(0, &world_of(8));
    let scene = builder.into_scene();
    assert!(scene.meshes.is_empty());
    assert_eq!(
        scene.instances,
        vec![
            MeshInstance { mesh_index: 3, transform: world_of(7) },
            MeshInstance { mesh_index: 0, transform: world_of(8) },
        ]
    );
}

#[test]
fn two_instances_of_one_mesh_share_it() {
    // an instancer places the mesh at /proto twice
    let inst = PointInstancer {
        proto_indices: vec![0, 0],
        positions: vec![],
        scales: vec![],
        orientations: vec![],
        prototypes: vec![String::from("/proto")],
    };
    let root = Node {
        path: String::from("/i"),
        local: no_transform(),
        kind: NodeKind::PointInstancer(inst),
    };
    let doc = Document { nodes: vec![root, mesh("/proto", 1.0)], root: 0 };
    let t = traverse(&doc, 8).unwrap();
    let scene = build_scene(&doc, &t, &worlds(&t)).unwrap();
    assert_eq!(scene.meshes, vec![get_mesh_data(&source(1.0))]);
    assert_eq!(scene.instances.len(), 2);
    assert_eq!(scene.instances[0].mesh_index, 0);
    assert_eq!(scene.instances[1].mesh_index, 0);
    assert_eq!(scene.instances[0].transform, world_of(t.occurrences[0].frame));
    assert_eq!(scene.instances[1].transform, world_of(t.occurrences[1].frame));
    assert_ne!(t.occurrences[0].frame, t.occurrences[1].frame);
}

#[test]
fn meshes_are_numbered_in_the_order_of_first_encounter() {
    // 0: root [1, 2, 3, 4]; the instancer at 4 repeats /b then /a
    let inst = PointInstancer {
        proto_indices: vec![0, 1],
        positions: vec![],
        scales: vec![],
        orientations: vec![],
        prototypes: vec![String::from("/b"), String::from("/a")],
    };
    let doc = Document {
        nodes: vec![
            group("/", vec![1, 2, 3, 4]),
            mesh("/a", 1.0),
            mesh("/b", 2.0),
            mesh("/c", 3.0),
            Node {
                path: String::from("/i"),
                local: no_transform(),
                kind: NodeKind::PointInstancer(inst),
            },
        ],
        root: 0,
    };
    let t = traverse(&doc, 8).unwrap();
    let scene = build_scene(&doc, &t, &worlds(&t)).unwrap();
    assert_eq!(
        scene.meshes,
        vec![get_mesh_data(&source(1.0)), get_mesh_data(&source(2.0)), get_mesh_data(&source(3.0))]
    );
    let indices: Vec<usize> = scene.instances.iter().map(|i| i.mesh_index).collect();
    assert_eq!(indices, vec![0, 1, 2, 1, 0]);
}

#[test]
fn nodes_with_one_path_share_the_first_record() {
    let doc = Document {
        nodes: vec![group("/", vec![1, 2]), mesh("/same", 1.0), mesh("/same", 2.0)],
        root: 0,
    };
    let t = traverse(&doc, 8).unwrap();
    let scene = build_scene(&doc, &t, &worlds(&t)).unwrap();
    assert_eq!(scene.meshes, vec![get_mesh_data(&source(1.0))]);
    assert_eq!(scene.instances.len(), 2);
    assert_eq!(scene.instances[1].mesh_index, 0);
}

#[test]
fn a_scene_without_occurrences_is_empty() {
    let doc = Document { nodes: vec![group("/", vec![])], root: 0 };
    let t = traverse(&doc, 8).unwrap();
    let scene = build_scene(&doc, &t, &worlds(&t)).unwrap();
    assert!(scene.meshes.is_empty());
    assert!(scene.instances.is_empty());
}

#[test]
fn a_transform_list_of_the_wrong_length_is_refused() {
    let doc = Document { nodes: vec![mesh("/a", 1.0)], root: 0 };
    let t = traverse(&doc, 8).unwrap();
    assert_eq!(t.frames.len(), 1);
    assert_eq!(build_scene(&doc, &t, &vec![]), None);
    assert_eq!(build_scene(&doc, &t, &vec![world_of(0), world_of(1)]), None);
    assert!(build_scene(&doc, &t, &vec![world_of(0)]).is_some());
}

#[test]
fn an_occurrence_that_is_no_mesh_is_refused() {
    let doc = Document { nodes: vec![group("/", vec![1]), mesh("/a", 1.0)], root: 0 };
    let step = TransformStep::Local(identity());
    let frames = vec![Frame { parent: None, step }];
    let of_group = Traversal {
        frames: frames.clone(),
        occurrences: vec![Occurrence { node: 0, frame: 0 }],
    };
    assert_eq!(build_scene(&doc, &of_group, &vec![world_of(0)]), None);
    let of_nothing = Traversal {
        frames: frames.clone(),
        occurrences: vec![Occurrence { node: 2, frame: 0 }],
    };
    assert_eq!(build_scene(&doc, &of_nothing, &vec![world_of(0)]), None);
    let without_frame = Traversal { frames, occurrences: vec![Occurrence { node: 1, frame: 1 }] };
    assert_eq!(build_scene(&doc, &without_frame, &vec![world_of(0)]), None);
}
