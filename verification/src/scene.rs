//! Assembly of the flattened scene: meshes told apart by path, and one
//! instance per occurrence.

use crate::document::{
    lemma_place_of, lemma_place_of_index, lemma_place_of_push, place_of, Document, NodeKind,
};
use crate::frames::Traversal;
use crate::walk::{lemma_walk_node_meshes, walk_node};
use crate::matrix::Matrix4fBits;
use crate::mesh::{
    get_mesh_data, mesh_of, mesh_views, MeshInstance, MeshSource, MeshView, SceneData, SceneView,
};
use vstd::hash_map::StringHashMap;
use vstd::prelude::*;

verus! {

/// One mesh occurrence as the scene sees it: the path of the mesh node, the
/// mesh record of the node, and the world transform.
pub ghost struct Sighting {
    pub path: Seq<char>,
    pub mesh: MeshView,
    pub transform: Matrix4fBits,
}

/// The paths of the sightings, each once, in the order in which they are
/// first seen.
pub open spec fn first_paths(s: Seq<Sighting>) -> Seq<Seq<char>>
    decreases s.len(),
{
    if s.len() == 0 {
        Seq::empty()
    } else {
        let before = first_paths(s.drop_last());
        if before.contains(s.last().path) {
            before
        } else {
            before.push(s.last().path)
        }
    }
}

/// For each path of [`first_paths`], the mesh record of its first sighting.
pub open spec fn first_meshes(s: Seq<Sighting>) -> Seq<MeshView>
    decreases s.len(),
{
    if s.len() == 0 {
        Seq::empty()
    } else {
        let before = first_meshes(s.drop_last());
        if first_paths(s.drop_last()).contains(s.last().path) {
            before
        } else {
            before.push(s.last().mesh)
        }
    }
}

/// The instance of sighting `k`: it names the place of the sighting's path
/// among the first paths, and carries the sighting's transform.
pub open spec fn instance_of(s: Seq<Sighting>, k: int) -> MeshInstance {
    MeshInstance {
        mesh_index: place_of(first_paths(s), s[k].path) as usize,
        transform: s[k].transform,
    }
}

/// The scene of a sequence of sightings: one mesh per distinct path, in the
/// order of first sighting, and one instance per sighting, in order.
pub open spec fn scene_of(s: Seq<Sighting>) -> SceneView {
    SceneView { meshes: first_meshes(s), instances: Seq::new(s.len(), |k: int| instance_of(s, k)) }
}

/// The first paths hold each path of a sighting, none twice, and there is one
/// mesh for each of them.
pub proof fn lemma_first_paths(s: Seq<Sighting>)
    ensures
        first_paths(s).no_duplicates(),
        first_meshes(s).len() == first_paths(s).len(),
        first_paths(s).len() <= s.len(),
        forall|k: int| 0 <= k < s.len() ==> first_paths(s).contains(#[trigger] s[k].path),
        forall|i: int|
            0 <= i < first_paths(s).len() ==> exists|k: int|
                0 <= k < s.len() && s[k].path == #[trigger] first_paths(s)[i],
    decreases s.len(),
{
    if s.len() > 0 {
        let init = s.drop_last();
        let before = first_paths(init);
        lemma_first_paths(init);
        let now = first_paths(s);
        assert forall|k: int| 0 <= k < s.len() implies now.contains(#[trigger] s[k].path) by {
            if k < s.len() - 1 {
                let i = choose|i: int| 0 <= i < before.len() && before[i] == init[k].path;
                assert(now[i] == s[k].path);
            } else if !before.contains(s.last().path) {
                assert(now[now.len() - 1] == s[k].path);
            }
        }
        assert forall|i: int| 0 <= i < now.len() implies exists|k: int|
            0 <= k < s.len() && s[k].path == #[trigger] now[i] by {
            if i < before.len() {
                let k = choose|k: int| 0 <= k < init.len() && init[k].path == before[i];
                assert(s[k].path == now[i]);
            } else {
                assert(s[s.len() - 1].path == now[i]);
            }
        }
    }
}

/// Collects the meshes and instances of a scene. Meshes are told apart by the
/// path of their node: a path is extracted when it is first seen and found
/// again afterwards.
pub struct SceneBuilder {
    data: SceneData,
    mesh_lookup: StringHashMap<usize>,
    seen: Ghost<Seq<Seq<char>>>,
}

impl View for SceneBuilder {
    type V = SceneView;

    /// The scene collected so far.
    closed spec fn view(&self) -> SceneView {
        self.data@
    }
}

impl SceneBuilder {
    /// The path of each mesh collected so far, in the order of the meshes.
    pub closed spec fn paths(&self) -> Seq<Seq<char>> {
        self.seen@
    }

    /// Whether the lookup table agrees with the meshes collected so far.
    pub closed spec fn wf(&self) -> bool {
        &&& self.seen@.len() == self.data.meshes@.len()
        &&& forall|path: Seq<char>|
            #![trigger self.mesh_lookup@.contains_key(path)]
            #![trigger self.seen@.contains(path)]
            self.mesh_lookup@.contains_key(path) <==> self.seen@.contains(path)
        &&& forall|i: int|
            0 <= i < self.seen@.len() ==> self.mesh_lookup@[#[trigger] self.seen@[i]] == i
    }

    /// A well-formed builder holds one mesh per path and no path twice.
    pub proof fn lemma_paths(&self)
        requires
            self.wf(),
        ensures
            self.paths().no_duplicates(),
            self@.meshes.len() == self.paths().len(),
    {
        assert forall|i: int, j: int|
            0 <= i < self.seen@.len() && 0 <= j < self.seen@.len() && i != j implies self.seen@[i]
            != self.seen@[j] by {
            assert(self.mesh_lookup@[self.seen@[j]] == j);
        }
    }

    /// The builder of the empty scene.
    pub fn new() -> (r: Self)
        ensures
            r.wf(),
            r.paths().len() == 0,
            r@.meshes.len() == 0,
            r@.instances.len() == 0,
    {
        Self {
            data: SceneData { meshes: Vec::new(), instances: Vec::new() },
            mesh_lookup: StringHashMap::new(),
            seen: Ghost(Seq::empty()),
        }
    }

    /// The index of the mesh with the given path. A path that was not seen
    /// before gets the next index, and the mesh record extracted from `source`
    /// is appended to the scene; for a path that was seen, nothing changes and
    /// `source` is not read.
    pub fn get_or_insert_mesh(&mut self, path: &str, source: &MeshSource) -> (index: usize)
        requires
            old(self).wf(),
        ensures
            final(self).wf(),
            final(self)@.instances == old(self)@.instances,
            index < final(self).paths().len(),
            final(self).paths()[index as int] == path@,
            old(self).paths().contains(path@) ==> final(self).paths() == old(self).paths()
                && final(self)@.meshes == old(self)@.meshes,
            !old(self).paths().contains(path@) ==> final(self).paths() == old(self).paths().push(
                path@,
            ) && final(self)@.meshes == old(self)@.meshes.push(mesh_of(source)),
    {
        match self.mesh_lookup.get(path) {
            Some(found) => {
                let index: usize = *found;
                proof {
                    let i = choose|i: int| 0 <= i < self.seen@.len() && self.seen@[i] == path@;
                    assert(self.mesh_lookup@[self.seen@[i]] == i);
                }
                return index;
            },
            None => {},
        }
        let mesh_data = get_mesh_data(source);
        let index: usize = self.data.meshes.len();
        self.data.meshes.push(mesh_data);
        self.mesh_lookup.insert(path.to_owned(), index);
        proof {
            let before = old(self).seen@;
            let after = before.push(path@);
            self.seen = Ghost(after);
            assert(mesh_views(self.data.meshes@) =~= mesh_views(old(self).data.meshes@).push(
                mesh_of(source),
            ));
            assert forall|p: Seq<char>| self.mesh_lookup@.contains_key(p) <==> after.contains(
                p,
            ) by {
                if p == path@ {
                    assert(after[before.len() as int] == p);
                } else if before.contains(p) {
                    let i = choose|i: int| 0 <= i < before.len() && before[i] == p;
                    assert(after[i] == p);
                } else if after.contains(p) {
                    let i = choose|i: int| 0 <= i < after.len() && after[i] == p;
                    assert(before[i] == p);
                }
            }
            assert forall|i: int| 0 <= i < after.len() implies self.mesh_lookup@[#[trigger] after[i]]
                == i by {
                if i < before.len() {
                    assert(before.contains(before[i]));
                }
            }
        }
        index
    }

    /// Appends one instance: an occurrence of the mesh with the given index
    /// under the given world transform.
    pub fn push_instance(&mut self, mesh_index: usize, xf: &Matrix4fBits)
        requires
            old(self).wf(),
        ensures
            final(self).wf(),
            final(self).paths() == old(self).paths(),
            final(self)@.meshes == old(self)@.meshes,
            final(self)@.instances == old(self)@.instances.push(
                MeshInstance { mesh_index, transform: *xf },
            ),
    {
        self.data.instances.push(MeshInstance { mesh_index, transform: *xf });
    }

    /// The scene collected.
    pub fn into_scene(self) -> (r: SceneData)
        ensures
            r@ == self@,
    {
        self.data
    }
}

/// Occurrence `k` of a traversal as a sighting, where it names a mesh node of
/// the document and a frame that has a world transform.
pub open spec fn sighting_at(
    doc: &Document,
    traversal: &Traversal,
    world: Seq<Matrix4fBits>,
    k: int,
) -> Option<Sighting> {
    let occurrence = traversal.occurrences@[k];
    if occurrence.node < doc.nodes@.len() && occurrence.frame < world.len() {
        match doc.nodes@[occurrence.node as int].kind {
            NodeKind::Mesh(source) => Some(
                Sighting {
                    path: doc.nodes@[occurrence.node as int].path@,
                    mesh: mesh_of(&source),
                    transform: world[occurrence.frame as int],
                },
            ),
            _ => None,
        }
    } else {
        None
    }
}

/// The occurrences of a traversal as sightings, where there is one world
/// transform per frame and every occurrence is a sighting.
pub open spec fn sightings(doc: &Document, traversal: &Traversal, world: Seq<Matrix4fBits>)
    -> Option<Seq<Sighting>> {
    if world.len() == traversal.frames@.len() && forall|k: int|
        0 <= k < traversal.occurrences@.len() ==> (#[trigger] sighting_at(
            doc,
            traversal,
            world,
            k,
        )) is Some {
        Some(
            Seq::new(
                traversal.occurrences@.len(),
                |k: int| sighting_at(doc, traversal, world, k)->0,
            ),
        )
    } else {
        None
    }
}

/// One more sighting keeps the instances of the earlier ones.
pub proof fn lemma_instance_stable(s: Seq<Sighting>, k: int, j: int)
    requires
        0 <= j < k <= s.len(),
    ensures
        instance_of(s.take(k), j) == instance_of(s, j),
    decreases s.len() - k,
{
    if k < s.len() {
        let shorter = s.take(k);
        let longer = s.take(k + 1);
        assert(longer.drop_last() == shorter);
        lemma_first_paths(shorter);
        lemma_place_of_push(first_paths(shorter), longer.last().path, s[j].path);
        lemma_instance_stable(s, k + 1, j);
    } else {
        assert(s.take(k) == s);
    }
}

/// Assembles the scene of a traversal.
///
/// `world[f]` is the world transform of frame `f`, which the caller composes
/// from the chain of the frame. Each occurrence gives one instance, in order;
/// the mesh of a path is extracted at the first occurrence with that path.
/// Nothing is returned where `world` does not hold one transform per frame,
/// or an occurrence does not name a mesh node of the document and a frame.
pub fn build_scene(doc: &Document, traversal: &Traversal, world: &Vec<Matrix4fBits>) -> (r: Option<
    SceneData,
>)
    ensures
        match sightings(doc, traversal, world@) {
            Some(s) => r is Some && r->0@ == scene_of(s),
            None => r is None,
        },
        r matches Some(scene) ==> forall|k: int|
            0 <= k < scene.instances@.len() ==> (#[trigger] scene.instances@[k]).mesh_index
                < scene.meshes@.len(),
{
    if world.len() != traversal.frames.len() {
        return None;
    }
    let mut builder = SceneBuilder::new();
    let ghost mut seen: Seq<Sighting> = Seq::empty();
    let mut k: usize = 0;
    while k < traversal.occurrences.len()
        invariant
            k <= traversal.occurrences.len(),
            world.len() == traversal.frames.len(),
            builder.wf(),
            seen.len() == k,
            forall|j: int|
                0 <= j < k ==> (#[trigger] sighting_at(doc, traversal, world@, j)) == Some(seen[j]),
            builder.paths() == first_paths(seen),
            builder@.meshes == first_meshes(seen),
            builder@.instances == Seq::new(k as nat, |j: int| instance_of(seen, j)),
        decreases traversal.occurrences.len() - k,
    {
        let occurrence = traversal.occurrences[k];
        if occurrence.node >= doc.nodes.len() || occurrence.frame >= world.len() {
            proof {
                assert(sighting_at(doc, traversal, world@, k as int) is None);
            }
            return None;
        }
        let node = &doc.nodes[occurrence.node];
        match &node.kind {
            NodeKind::Mesh(source) => {
                let ghost sighting = sighting_at(doc, traversal, world@, k as int)->0;
                let ghost next = seen.push(sighting);
                let index = builder.get_or_insert_mesh(node.path.as_str(), source);
                builder.push_instance(index, &world[occurrence.frame]);
                proof {
                    assert(next.drop_last() == seen);
                    lemma_first_paths(next);
                    builder.lemma_paths();
                    lemma_place_of_index(first_paths(next), index as int);
                    assert forall|j: int| 0 <= j < k + 1 implies builder@.instances[j]
                        == instance_of(next, j) by {
                        if j < k {
                            lemma_instance_stable(next, k as int, j);
                        }
                    }
                    assert(builder@.instances =~= Seq::new(
                        (k + 1) as nat,
                        |j: int| instance_of(next, j),
                    ));
                    seen = next;
                }
            },
            _ => {
                proof {
                    assert(sighting_at(doc, traversal, world@, k as int) is None);
                }
                return None;
            },
        }
        k += 1;
    }
    proof {
        assert(seen =~= sightings(doc, traversal, world@)->0);
        assert forall|j: int| 0 <= j < k implies (#[trigger] builder@.instances[j]).mesh_index
            < builder@.meshes.len() by {
            lemma_meshes_shared_by_path(seen, j, j);
        }
    }
    Some(builder.into_scene())
}

/// Two occurrences of meshes share a mesh of the scene exactly where their
/// nodes have the same path, and the scene holds one mesh for each distinct
/// path: the mesh record of the first occurrence with that path.
pub proof fn lemma_meshes_shared_by_path(s: Seq<Sighting>, k: int, l: int)
    requires
        s.len() <= usize::MAX,
        0 <= k < s.len(),
        0 <= l < s.len(),
    ensures
        scene_of(s).meshes.len() == first_paths(s).len(),
        first_paths(s).no_duplicates(),
        0 <= scene_of(s).instances[k].mesh_index < scene_of(s).meshes.len(),
        first_paths(s)[scene_of(s).instances[k].mesh_index as int] == s[k].path,
        scene_of(s).instances[k].mesh_index == scene_of(s).instances[l].mesh_index <==> s[k].path
            == s[l].path,
{
    lemma_first_paths(s);
    lemma_place_of(first_paths(s), s[k].path);
    lemma_place_of(first_paths(s), s[l].path);
}

/// The mesh that an instance names is the mesh record of the first occurrence
/// with the path of the instance.
pub proof fn lemma_mesh_of_first_sighting(s: Seq<Sighting>, first: int, k: int)
    requires
        s.len() <= usize::MAX,
        0 <= first <= k < s.len(),
        s[first].path == s[k].path,
        forall|j: int| 0 <= j < first ==> (#[trigger] s[j]).path != s[k].path,
    ensures
        0 <= scene_of(s).instances[k].mesh_index < scene_of(s).meshes.len(),
        scene_of(s).meshes[scene_of(s).instances[k].mesh_index as int] == s[first].mesh,
    decreases s.len(),
{
    let init = s.drop_last();
    lemma_first_paths(s);
    lemma_first_paths(init);
    lemma_place_of(first_paths(s), s[k].path);
    if first < s.len() - 1 {
        // the path was seen before the last sighting: nothing about it changes
        assert(init[first] == s[first]);
        assert(first_paths(init).contains(init[first].path));
        assert forall|j: int| 0 <= j < first implies (#[trigger] init[j]).path
            != init[first].path by {
            assert(init[j] == s[j]);
        }
        lemma_mesh_of_first_sighting(init, first, first);
        lemma_place_of(first_paths(init), s[k].path);
        lemma_place_of_push(first_paths(init), s.last().path, s[k].path);
    } else {
        // the last sighting is the first with its path: it adds path and mesh
        assert forall|i: int| 0 <= i < first_paths(init).len() implies first_paths(init)[i]
            != s[k].path by {
            let j = choose|j: int| 0 <= j < init.len() && init[j].path == first_paths(init)[i];
            assert(s[j] == init[j]);
        }
        lemma_place_of_index(first_paths(s), first_paths(init).len() as int);
    }
}

/// Where every occurrence has the same path, the scene holds exactly one mesh,
/// that of the first occurrence, and every instance names it.
pub proof fn lemma_one_path_one_mesh(s: Seq<Sighting>)
    requires
        0 < s.len() <= usize::MAX,
        forall|k: int| 0 <= k < s.len() ==> (#[trigger] s[k]).path == s[0].path,
    ensures
        scene_of(s).meshes == seq![s[0].mesh],
        scene_of(s).instances.len() == s.len(),
        forall|k: int| 0 <= k < s.len() ==> (#[trigger] scene_of(s).instances[k]).mesh_index == 0,
    decreases s.len(),
{
    if s.len() == 1 {
        assert(first_paths(s.drop_last()) =~= Seq::<Seq<char>>::empty());
        assert(first_meshes(s.drop_last()) =~= Seq::<MeshView>::empty());
    } else {
        let init = s.drop_last();
        assert(init[0] == s[0]);
        assert forall|k: int| 0 <= k < init.len() implies (#[trigger] init[k]).path
            == init[0].path by {
            assert(init[k] == s[k]);
        }
        lemma_one_path_one_mesh(init);
        lemma_first_paths(init);
        lemma_first_paths(s);
    }
    assert forall|k: int| 0 <= k < s.len() implies (#[trigger] scene_of(s).instances[k]).mesh_index
        == 0 by {
        lemma_first_paths(s);
        lemma_place_of(first_paths(s), s[k].path);
    }
}

/// The occurrences that a traversal of a document finds can always be
/// assembled into a scene, given one world transform per frame.
pub proof fn lemma_walk_builds(
    doc: &Document,
    max_depth: nat,
    traversal: &Traversal,
    world: Seq<Matrix4fBits>,
)
    requires
        traversal.wf(),
        walk_node(doc, doc.root as int, Seq::empty(), max_depth) == Some(traversal.placed()),
        world.len() == traversal.frames@.len(),
    ensures
        sightings(doc, traversal, world) is Some,
{
    lemma_walk_node_meshes(doc, doc.root as int, Seq::empty(), max_depth);
    let found = traversal.placed();
    assert forall|k: int| 0 <= k < traversal.occurrences@.len() implies (#[trigger] sighting_at(
        doc,
        traversal,
        world,
        k,
    )) is Some by {
        assert(found[k].node == traversal.occurrences@[k].node);
    }
}

} // verus!
