//! The scene description as the flattener reads it: an arena of nodes.
//!
//! A reader fills a [`Document`] from a scene-description file. A node names
//! its children by their index in `nodes`, and an instancer names its
//! prototypes by their path. An index or a path without a node in the document
//! stands for a node without content.

use crate::interpolation::same_text;
use crate::matrix::{identity, identity_matrix, transpose, transposed, Matrix4dBits, ONE_F32};
use crate::mesh::{MeshSource, Vec3Bits};
use vstd::hash_map::StringHashMap;
use vstd::prelude::*;

verus! {

/// A rotation quaternion: four single-precision scalars, `x`, `y`, `z`, `w`.
pub type QuatBits = [u32; 4];

/// What the type name of a node says about how the flattener treats it.
#[derive(Debug, Clone, Copy, PartialEq, Eq, Structural)]
pub enum PrimType {
    /// A mesh: it is instanced, and its children are not visited.
    Mesh,
    /// A point instancer: its prototypes are expanded per point.
    PointInstancer,
    /// Any other type: its children are visited.
    Other,
}

impl PrimType {
    /// The treatment that a type name asks for: an exact match of `Mesh` or
    /// `PointInstancer`, and `Other` for every other name.
    pub open spec fn classify(name: Seq<char>) -> PrimType {
        if name == "Mesh"@ {
            PrimType::Mesh
        } else if name == "PointInstancer"@ {
            PrimType::PointInstancer
        } else {
            PrimType::Other
        }
    }

    /// Classifies the type name of a node.
    pub fn from_name(name: &str) -> (r: PrimType)
        ensures
            r == Self::classify(name@),
    {
        if same_text(name, "Mesh") {
            PrimType::Mesh
        } else if same_text(name, "PointInstancer") {
            PrimType::PointInstancer
        } else {
            PrimType::Other
        }
    }
}

/// What a reader found of the local transform of a node.
#[derive(Debug, Clone, Copy, PartialEq, Eq)]
pub struct LocalTransform {
    /// The matrix that the reader resolved from the transform operations of
    /// the node, in the convention in which transforms are composed.
    pub resolved: Option<Matrix4dBits>,
    /// The matrix of the node's single `xformOp:transform` attribute, as the
    /// scene description stores it: with rows and columns exchanged against
    /// the convention in which transforms are composed.
    pub authored: Option<Matrix4dBits>,
}

/// The per-point data of a point instancer and its prototypes.
#[derive(Debug, Clone, PartialEq, Eq)]
pub struct PointInstancer {
    /// For each point, the slot of its prototype, as stored.
    pub proto_indices: Vec<i32>,
    /// For each point, its position.
    pub positions: Vec<Vec3Bits>,
    /// For each point, its scale.
    pub scales: Vec<Vec3Bits>,
    /// For each point, its orientation.
    pub orientations: Vec<QuatBits>,
    /// For each prototype slot, the path of the node at the root of the
    /// prototype.
    pub prototypes: Vec<String>,
}

/// The content of a node, by the treatment of its type.
#[derive(Debug, Clone, PartialEq, Eq)]
pub enum NodeKind {
    /// A mesh, with what was read of its attributes.
    Mesh(MeshSource),
    /// A point instancer.
    PointInstancer(PointInstancer),
    /// A node of any other type, with its children in order.
    Group(Vec<usize>),
}

/// One node of the scene description.
#[derive(Debug, Clone, PartialEq, Eq)]
pub struct Node {
    /// The hierarchy path of the node; meshes are told apart by it.
    pub path: String,
    pub local: LocalTransform,
    pub kind: NodeKind,
}

/// A scene description: its nodes, and the node from which traversal starts.
#[derive(Debug, Clone, PartialEq, Eq)]
pub struct Document {
    pub nodes: Vec<Node>,
    pub root: usize,
}

/// The local transform that was found for a node: the resolved matrix where
/// there is one, else the authored matrix, else none.
pub open spec fn found_transform(local: LocalTransform) -> Option<Matrix4dBits> {
    match local.resolved {
        Some(m) => Some(m),
        None => local.authored,
    }
}

/// The local matrix of a node as the flattener composes it: the resolved
/// matrix as it is; else the authored matrix with rows and columns exchanged;
/// else the identity.
pub open spec fn local_matrix(local: LocalTransform) -> Matrix4dBits {
    match local.resolved {
        Some(m) => m,
        None => match local.authored {
            Some(m) => transposed(m),
            None => identity_matrix(),
        },
    }
}

/// The local transform that was found for a node, as the reader handed it in.
pub fn get_local_transform(local: &LocalTransform) -> (r: Option<Matrix4dBits>)
    ensures
        r == found_transform(*local),
{
    match local.resolved {
        Some(m) => Some(m),
        None => local.authored,
    }
}

/// The local matrix of a node in the convention in which it is composed. Only
/// a matrix read from the raw attribute is exchanged.
pub fn composed_local_matrix(local: &LocalTransform) -> (r: Matrix4dBits)
    ensures
        r == local_matrix(*local),
{
    match local.resolved {
        Some(m) => m,
        None => match local.authored {
            Some(m) => transpose(&m),
            None => identity(),
        },
    }
}

/// The position of a point without a stored position: the origin.
pub open spec fn default_position() -> Vec3Bits {
    [0u32, 0u32, 0u32]
}

/// The scale of a point without a stored scale: one on each axis.
pub open spec fn default_scale() -> Vec3Bits {
    [ONE_F32, ONE_F32, ONE_F32]
}

/// The orientation of a point without a stored orientation: the identity
/// rotation.
pub open spec fn default_orientation() -> QuatBits {
    [0u32, 0u32, 0u32, ONE_F32]
}

/// The entry of a per-point array for a point, or the default where the array
/// is too short.
pub open spec fn entry_or<T>(values: Seq<T>, point: int, default: T) -> T {
    if 0 <= point < values.len() {
        values[point]
    } else {
        default
    }
}

/// Reads the entry of a per-point array, or the default where the array is too
/// short.
pub fn get_or<T: Copy>(values: &Vec<T>, point: usize, default: T) -> (r: T)
    ensures
        r == entry_or(values@, point as int, default),
{
    if point < values.len() {
        values[point]
    } else {
        default
    }
}

/// The place of a path in a list of paths: the first index at which it stands.
pub open spec fn place_of(paths: Seq<Seq<char>>, path: Seq<char>) -> int
    decreases paths.len(),
{
    if paths.len() == 0 {
        0
    } else if paths.first() == path {
        0
    } else {
        1 + place_of(paths.drop_first(), path)
    }
}

/// The place of a path that a list holds is an index of the list, the path
/// stands there, and it stands at no earlier index.
pub proof fn lemma_place_of(paths: Seq<Seq<char>>, path: Seq<char>)
    requires
        paths.contains(path),
    ensures
        0 <= place_of(paths, path) < paths.len(),
        paths[place_of(paths, path)] == path,
        forall|j: int| 0 <= j < place_of(paths, path) ==> paths[j] != path,
    decreases paths.len(),
{
    if paths.first() != path {
        let rest = paths.drop_first();
        let i = choose|i: int| 0 <= i < paths.len() && paths[i] == path;
        assert(rest[i - 1] == path);
        lemma_place_of(rest, path);
        assert forall|j: int| 0 <= j < place_of(paths, path) implies paths[j] != path by {
            if j > 0 {
                assert(rest[j - 1] == paths[j]);
            }
        }
    }
}

/// In a list without repetition, the place of the path at an index is that
/// index.
pub proof fn lemma_place_of_index(paths: Seq<Seq<char>>, i: int)
    requires
        paths.no_duplicates(),
        0 <= i < paths.len(),
    ensures
        place_of(paths, paths[i]) == i,
    decreases paths.len(),
{
    if i > 0 {
        let rest = paths.drop_first();
        assert(rest[i - 1] == paths[i]);
        lemma_place_of_index(rest, i - 1);
    }
}

/// Appending to a list does not move the paths that it holds, and a path that
/// it does not hold gets the place at its end.
pub proof fn lemma_place_of_push(paths: Seq<Seq<char>>, extra: Seq<char>, path: Seq<char>)
    ensures
        paths.contains(path) ==> place_of(paths.push(extra), path) == place_of(paths, path),
        !paths.contains(path) && extra == path ==> place_of(paths.push(extra), path)
            == paths.len(),
    decreases paths.len(),
{
    if paths.len() > 0 {
        let rest = paths.drop_first();
        assert(paths.push(extra).drop_first() =~= rest.push(extra));
        if paths.first() != path {
            if paths.contains(path) {
                let i = choose|i: int| 0 <= i < paths.len() && paths[i] == path;
                assert(rest[i - 1] == path);
            } else {
                assert forall|i: int| 0 <= i < rest.len() implies rest[i] != path by {
                    assert(paths[i + 1] == rest[i]);
                }
            }
            lemma_place_of_push(rest, extra, path);
        }
    } else {
        assert(paths.push(extra).first() == extra);
    }
}

/// The paths of the nodes, in the order of the nodes.
pub open spec fn paths_of(nodes: Seq<Node>) -> Seq<Seq<char>> {
    Seq::new(nodes.len(), |i: int| nodes[i].path@)
}

/// The node that a path names: the first node with that path, or none.
pub open spec fn node_at(doc: &Document, path: Seq<char>) -> Option<int> {
    if paths_of(doc.nodes@).contains(path) {
        Some(place_of(paths_of(doc.nodes@), path))
    } else {
        None
    }
}

/// A table from the paths of a document to its nodes.
pub struct PathIndex {
    by_path: StringHashMap<usize>,
}

impl View for PathIndex {
    type V = Map<Seq<char>, usize>;

    closed spec fn view(&self) -> Map<Seq<char>, usize> {
        self.by_path@
    }
}

/// Whether a table holds, for each path, the node that the path names among the
/// given nodes.
pub open spec fn tabulates(table: Map<Seq<char>, usize>, paths: Seq<Seq<char>>) -> bool {
    forall|path: Seq<char>|
        #![trigger table.contains_key(path)]
        #![trigger paths.contains(path)]
        {
            &&& table.contains_key(path) <==> paths.contains(path)
            &&& table.contains_key(path) ==> table[path] == place_of(paths, path)
        }
}

impl PathIndex {
    /// Whether the table is that of the document.
    pub open spec fn indexes(&self, doc: &Document) -> bool {
        tabulates(self@, paths_of(doc.nodes@))
    }

    /// The table of a document.
    pub fn build(doc: &Document) -> (r: PathIndex)
        ensures
            r.indexes(doc),
    {
        let mut by_path: StringHashMap<usize> = StringHashMap::new();
        let ghost paths = paths_of(doc.nodes@);
        let mut k: usize = 0;
        proof {
            assert(paths.take(0) =~= Seq::<Seq<char>>::empty());
        }
        while k < doc.nodes.len()
            invariant
                k <= doc.nodes.len(),
                paths == paths_of(doc.nodes@),
                tabulates(by_path@, paths.take(k as int)),
            decreases doc.nodes.len() - k,
        {
            let ghost seen = paths.take(k as int);
            let ghost path = doc.nodes@[k as int].path@;
            let ghost before = by_path@;
            proof {
                assert(paths.take(k as int + 1) =~= seen.push(path));
            }
            if !by_path.contains_key(doc.nodes[k].path.as_str()) {
                by_path.insert(doc.nodes[k].path.clone(), k);
            }
            proof {
                let now = seen.push(path);
                assert forall|p: Seq<char>|
                    #![trigger by_path@.contains_key(p)]
                    #![trigger now.contains(p)]
                    {
                        &&& by_path@.contains_key(p) <==> now.contains(p)
                        &&& by_path@.contains_key(p) ==> by_path@[p] == place_of(now, p)
                    } by {
                    lemma_place_of_push(seen, path, p);
                    if seen.contains(p) {
                        let i = choose|i: int| 0 <= i < seen.len() && seen[i] == p;
                        assert(now[i] == p);
                    }
                    if p == path {
                        assert(now[seen.len() as int] == p);
                    }
                    if now.contains(p) && p != path {
                        let i = choose|i: int| 0 <= i < now.len() && now[i] == p;
                        assert(seen[i] == p);
                    }
                }
            }
            k += 1;
        }
        proof {
            assert(paths.take(doc.nodes.len() as int) =~= paths);
        }
        PathIndex { by_path }
    }

    /// The node that a path names, if any.
    pub fn find(&self, path: &str) -> (r: Option<usize>)
        ensures
            match r {
                Some(node) => self@.contains_key(path@) && self@[path@] == node,
                None => !self@.contains_key(path@),
            },
    {
        match self.by_path.get(path) {
            Some(node) => Some(*node),
            None => None,
        }
    }

    /// What a look-up in the table of a document finds is the node that the
    /// path names in the document.
    pub proof fn lemma_find(&self, doc: &Document, path: Seq<char>)
        requires
            self.indexes(doc),
        ensures
            self@.contains_key(path) <==> node_at(doc, path) is Some,
            self@.contains_key(path) ==> node_at(doc, path) == Some(self@[path] as int),
            node_at(doc, path) matches Some(node) ==> 0 <= node < doc.nodes@.len()
                && doc.nodes@[node].path@ == path,
    {
        let paths = paths_of(doc.nodes@);
        assert(self@.contains_key(path) <==> paths.contains(path));
        if paths.contains(path) {
            lemma_place_of(paths, path);
        }
    }
}

} // verus!
