//! Mesh records and their extraction from the attributes of a mesh node.

use crate::interpolation::PrimvarInterpolation;
use vstd::prelude::*;

verus! {

/// A point or a direction in space: three single-precision scalars, `x`, `y`, `z`.
pub type Vec3Bits = [u32; 3];

/// A texture coordinate: two single-precision scalars, `u`, `v`.
pub type Vec2Bits = [u32; 2];

/// One mesh, as a renderer-agnostic record.
///
/// `face_vertex_indices` is the concatenation of the polygons' corners, each an
/// index into `positions`; `face_vertex_counts` gives the number of corners of
/// each polygon.
#[derive(Debug, Clone, PartialEq, Eq)]
pub struct MeshData {
    pub positions: Vec<Vec3Bits>,
    pub face_vertex_counts: Vec<usize>,
    pub face_vertex_indices: Vec<usize>,
    pub normals: Option<Vec<Vec3Bits>>,
    pub normal_indices: Option<Vec<usize>>,
    pub normal_interpolation: Option<PrimvarInterpolation>,
    pub uvs: Option<Vec<Vec2Bits>>,
    pub double_sided: bool,
}

/// The mathematical content of a [`MeshData`].
pub ghost struct MeshView {
    pub positions: Seq<Vec3Bits>,
    pub face_vertex_counts: Seq<usize>,
    pub face_vertex_indices: Seq<usize>,
    pub normals: Option<Seq<Vec3Bits>>,
    pub normal_indices: Option<Seq<usize>>,
    pub normal_interpolation: Option<PrimvarInterpolation>,
    pub uvs: Option<Seq<Vec2Bits>>,
    pub double_sided: bool,
}

/// The content of an optional vector.
pub open spec fn opt_view<T>(v: Option<Vec<T>>) -> Option<Seq<T>> {
    match v {
        Some(items) => Some(items@),
        None => None,
    }
}

impl View for MeshData {
    type V = MeshView;

    open spec fn view(&self) -> MeshView {
        MeshView {
            positions: self.positions@,
            face_vertex_counts: self.face_vertex_counts@,
            face_vertex_indices: self.face_vertex_indices@,
            normals: opt_view(self.normals),
            normal_indices: opt_view(self.normal_indices),
            normal_interpolation: self.normal_interpolation,
            uvs: opt_view(self.uvs),
            double_sided: self.double_sided,
        }
    }
}

/// One occurrence of a mesh in the scene: the index of the mesh in the scene's
/// mesh list and the world transform, a row-major 4x4 single-precision matrix.
#[derive(Debug, Clone, Copy, PartialEq, Eq)]
pub struct MeshInstance {
    pub mesh_index: usize,
    pub transform: [[u32; 4]; 4],
}

/// A flattened scene: the distinct meshes in the order in which the traversal
/// first met them, and one instance per occurrence in traversal order.
#[derive(Debug, Clone, PartialEq, Eq)]
pub struct SceneData {
    pub meshes: Vec<MeshData>,
    pub instances: Vec<MeshInstance>,
}

/// The mathematical content of a [`SceneData`].
pub ghost struct SceneView {
    pub meshes: Seq<MeshView>,
    pub instances: Seq<MeshInstance>,
}

/// The contents of a list of meshes.
pub open spec fn mesh_views(meshes: Seq<MeshData>) -> Seq<MeshView> {
    Seq::new(meshes.len(), |i: int| meshes[i]@)
}

impl View for SceneData {
    type V = SceneView;

    open spec fn view(&self) -> SceneView {
        SceneView { meshes: mesh_views(self.meshes@), instances: self.instances@ }
    }
}

impl Default for SceneData {
    /// The scene without meshes and instances.
    fn default() -> (r: SceneData)
        ensures
            r@.meshes.len() == 0,
            r@.instances.len() == 0,
    {
        SceneData { meshes: Vec::new(), instances: Vec::new() }
    }
}

/// One authored array of normals with what was authored beside it: the raw
/// interpolation token and the index array.
#[derive(Debug, Clone, PartialEq, Eq)]
pub struct AuthoredNormals {
    pub values: Vec<Vec3Bits>,
    pub interpolation: Option<String>,
    pub indices: Option<Vec<i32>>,
}

/// What a reader found on a mesh node. A field is `None` where the attribute
/// is absent or does not hold a value of the expected type.
#[derive(Debug, Clone, PartialEq, Eq)]
pub struct MeshSource {
    /// The `doubleSided` property.
    pub double_sided: Option<bool>,
    /// The `points` attribute.
    pub points: Option<Vec<Vec3Bits>>,
    /// The `faceVertexCounts` attribute.
    pub face_vertex_counts: Option<Vec<i32>>,
    /// The `faceVertexIndices` attribute.
    pub face_vertex_indices: Option<Vec<i32>>,
    /// The `normals` attribute, with `normals:indices`.
    pub normals_attr: Option<AuthoredNormals>,
    /// The `primvars:normals` attribute, with `primvars:normals:indices`.
    pub normals_primvar: Option<AuthoredNormals>,
    /// The `primvars:st` attribute.
    pub st: Option<Vec<Vec2Bits>>,
}

/// A stored 32-bit integer as an index of the platform's width. A negative
/// value is sign-extended and so becomes larger than every valid index.
pub open spec fn widen(i: i32) -> usize {
    if i >= 0 {
        i as usize
    } else {
        (usize::MAX + 1 + i) as usize
    }
}

/// Each entry of an integer array, widened.
pub open spec fn widen_all(s: Seq<i32>) -> Seq<usize> {
    Seq::new(s.len(), |k: int| widen(s[k]))
}

/// Widens one stored integer.
pub fn widen_index(i: i32) -> (r: usize)
    ensures
        r == widen(i),
{
    if i >= 0 {
        i as usize
    } else {
        let below: usize = (-(i + 1)) as usize;
        usize::MAX - below
    }
}

/// Widens every entry of an integer array.
pub fn widen_indices(v: &Vec<i32>) -> (r: Vec<usize>)
    ensures
        r@ == widen_all(v@),
{
    let mut out: Vec<usize> = Vec::new();
    let mut k: usize = 0;
    while k < v.len()
        invariant
            k <= v.len(),
            out@ == widen_all(v@).subrange(0, k as int),
        decreases v.len() - k,
    {
        out.push(widen_index(v[k]));
        k += 1;
    }
    out
}

/// A copy of a vector of plain values.
pub fn copy_vec<T: Copy>(v: &Vec<T>) -> (r: Vec<T>)
    ensures
        r@ == v@,
{
    let mut out: Vec<T> = Vec::new();
    let mut k: usize = 0;
    while k < v.len()
        invariant
            k <= v.len(),
            out@ == v@.subrange(0, k as int),
        decreases v.len() - k,
    {
        out.push(v[k]);
        k += 1;
    }
    out
}

/// Whether an authored array of normals is present and holds at least one value.
pub open spec fn usable(n: Option<AuthoredNormals>) -> bool {
    n is Some && n->0.values@.len() > 0
}

/// The authored normals that a mesh uses: the `normals` attribute where it is
/// present and not empty, else the `primvars:normals` attribute where that is
/// present and not empty, else none.
pub open spec fn selected_normals(src: &MeshSource) -> Option<AuthoredNormals> {
    if usable(src.normals_attr) {
        src.normals_attr
    } else if usable(src.normals_primvar) {
        src.normals_primvar
    } else {
        None
    }
}

/// The index array that belongs to the selected normals: absent where none was
/// authored or the authored one is empty.
pub open spec fn selected_indices(chosen: Option<AuthoredNormals>) -> Option<Seq<usize>> {
    match chosen {
        Some(n) => match n.indices {
            Some(i) => if i@.len() > 0 {
                Some(widen_all(i@))
            } else {
                None
            },
            None => None,
        },
        None => None,
    }
}

/// The interpolation mode that belongs to the selected normals: absent where no
/// token was authored.
pub open spec fn selected_interpolation(chosen: Option<AuthoredNormals>) -> Option<
    PrimvarInterpolation,
> {
    match chosen {
        Some(n) => match n.interpolation {
            Some(t) => Some(PrimvarInterpolation::classify(t@)),
            None => None,
        },
        None => None,
    }
}

/// The mesh record that the attributes of a mesh node describe. Every absent
/// attribute gives its default: an empty array, no normals, no texture
/// coordinates, single-sided.
pub open spec fn mesh_of(src: &MeshSource) -> MeshView {
    let chosen = selected_normals(src);
    MeshView {
        positions: match src.points {
            Some(p) => p@,
            None => Seq::empty(),
        },
        face_vertex_counts: match src.face_vertex_counts {
            Some(c) => widen_all(c@),
            None => Seq::empty(),
        },
        face_vertex_indices: match src.face_vertex_indices {
            Some(i) => widen_all(i@),
            None => Seq::empty(),
        },
        normals: match chosen {
            Some(n) => Some(n.values@),
            None => None,
        },
        normal_indices: selected_indices(chosen),
        normal_interpolation: selected_interpolation(chosen),
        uvs: match src.st {
            Some(u) => if u@.len() > 0 {
                Some(u@)
            } else {
                None
            },
            None => None,
        },
        double_sided: match src.double_sided {
            Some(b) => b,
            None => false,
        },
    }
}

/// Builds the normals part of a mesh record from one authored array.
fn normals_from(n: &AuthoredNormals) -> (r: (
    Option<Vec<Vec3Bits>>,
    Option<Vec<usize>>,
    Option<PrimvarInterpolation>,
))
    requires
        n.values@.len() > 0,
    ensures
        opt_view(r.0) == Some(n.values@),
        opt_view(r.1) == selected_indices(Some(*n)),
        r.2 == selected_interpolation(Some(*n)),
{
    let normals = Some(copy_vec(&n.values));
    let indices = match &n.indices {
        Some(i) => if i.len() > 0 {
            Some(widen_indices(i))
        } else {
            None
        },
        None => None,
    };
    let interpolation = match &n.interpolation {
        Some(t) => Some(PrimvarInterpolation::from_token(t.as_str())),
        None => None,
    };
    (normals, indices, interpolation)
}

/// Whether an authored array of normals is present and not empty.
fn is_usable(n: &Option<AuthoredNormals>) -> (r: bool)
    ensures
        r == usable(*n),
{
    match n {
        Some(a) => a.values.len() > 0,
        None => false,
    }
}

/// Extracts the mesh record of one mesh node from what was read of its
/// attributes. No input is rejected: a missing or unreadable attribute gives
/// the default of its field.
pub fn get_mesh_data(src: &MeshSource) -> (r: MeshData)
    ensures
        r@ == mesh_of(src),
{
    let double_sided = match src.double_sided {
        Some(b) => b,
        None => false,
    };
    let positions = match &src.points {
        Some(p) => copy_vec(p),
        None => Vec::new(),
    };
    let face_vertex_counts = match &src.face_vertex_counts {
        Some(c) => widen_indices(c),
        None => Vec::new(),
    };
    let face_vertex_indices = match &src.face_vertex_indices {
        Some(i) => widen_indices(i),
        None => Vec::new(),
    };
    let (normals, normal_indices, normal_interpolation) = if is_usable(&src.normals_attr) {
        match &src.normals_attr {
            Some(n) => normals_from(n),
            None => (None, None, None),
        }
    } else if is_usable(&src.normals_primvar) {
        match &src.normals_primvar {
            Some(n) => normals_from(n),
            None => (None, None, None),
        }
    } else {
        (None, None, None)
    };
    let uvs = match &src.st {
        Some(u) => if u.len() > 0 {
            Some(copy_vec(u))
        } else {
            None
        },
        None => None,
    };
    MeshData {
        positions,
        face_vertex_counts,
        face_vertex_indices,
        normals,
        normal_indices,
        normal_interpolation,
        uvs,
        double_sided,
    }
}

} // verus!
