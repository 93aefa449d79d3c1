//! What a traversal of a scene description finds, as a mathematical
//! function of the document, and what holds of it.

use crate::document::{
    default_orientation, default_position, default_scale, entry_or, local_matrix, node_at,
    Document, NodeKind, PointInstancer,
};
use crate::frames::{Placed, TransformStep};
use crate::mesh::widen;
use vstd::prelude::*;

verus! {

/// The transform step of one instancer point. A point beyond the end of a
/// per-point array takes the default: the origin, the identity rotation, unit
/// scale.
pub open spec fn point_step(inst: PointInstancer, point: int) -> TransformStep {
    TransformStep::Point {
        translation: entry_or(inst.positions@, point, default_position()),
        rotation: entry_or(inst.orientations@, point, default_orientation()),
        scale: entry_or(inst.scales@, point, default_scale()),
    }
}

/// Whether a point of an instancer selects a prototype slot.
pub open spec fn selects(inst: PointInstancer, point: int, slot: int) -> bool {
    &&& 0 <= point < inst.proto_indices@.len()
    &&& 0 <= slot < inst.prototypes@.len()
    &&& widen(inst.proto_indices@[point]) == slot
}

/// Two results in sequence; nothing where either is nothing.
pub open spec fn join(a: Option<Seq<Placed>>, b: Option<Seq<Placed>>) -> Option<Seq<Placed>> {
    match (a, b) {
        (Some(x), Some(y)) => Some(x + y),
        _ => None,
    }
}

/// The mesh occurrences under a node, in traversal order, each with its chain;
/// nothing where a node is reached with no depth left.
///
/// A node adds its local matrix to the chain. A mesh occurs once. A point
/// instancer expands its prototypes, and any other node its children, with one
/// level of depth less. An index that the document does not hold is a node
/// without content.
pub open spec fn walk_node(doc: &Document, node: int, parent: Seq<TransformStep>, depth: nat)
    -> Option<Seq<Placed>>
    decreases depth, 0nat, 0nat,
{
    if depth == 0 {
        None
    } else if !(0 <= node < doc.nodes@.len()) {
        Some(Seq::empty())
    } else {
        let chain = parent.push(TransformStep::Local(local_matrix(doc.nodes@[node].local)));
        match doc.nodes@[node].kind {
            NodeKind::Mesh(_) => Some(seq![Placed { node, chain }]),
            NodeKind::PointInstancer(inst) => walk_slots(
                doc,
                inst,
                inst.prototypes@.len(),
                chain,
                (depth - 1) as nat,
            ),
            NodeKind::Group(children) => walk_children(doc, children@, chain, (depth - 1) as nat),
        }
    }
}

/// The mesh occurrences under the given children, child after child.
pub open spec fn walk_children(
    doc: &Document,
    children: Seq<usize>,
    chain: Seq<TransformStep>,
    depth: nat,
) -> Option<Seq<Placed>>
    decreases depth, 1nat, children.len(),
{
    if children.len() == 0 {
        Some(Seq::empty())
    } else {
        join(
            walk_children(doc, children.drop_last(), chain, depth),
            walk_node(doc, children.last() as int, chain, depth),
        )
    }
}

/// The mesh occurrences under the first `slots` prototype slots of an
/// instancer, slot after slot.
pub open spec fn walk_slots(
    doc: &Document,
    inst: PointInstancer,
    slots: nat,
    chain: Seq<TransformStep>,
    depth: nat,
) -> Option<Seq<Placed>>
    decreases depth, 2nat, slots,
{
    if slots == 0 {
        Some(Seq::empty())
    } else {
        join(
            walk_slots(doc, inst, (slots - 1) as nat, chain, depth),
            walk_points(doc, inst, slots - 1, inst.proto_indices@.len(), chain, depth),
        )
    }
}

/// The mesh occurrences under one prototype slot for the first `points` points
/// of an instancer: the prototype is expanded once for each point whose
/// prototype index is the slot, under the point's transform step. A prototype
/// path that names no node gives nothing.
pub open spec fn walk_points(
    doc: &Document,
    inst: PointInstancer,
    slot: int,
    points: nat,
    chain: Seq<TransformStep>,
    depth: nat,
) -> Option<Seq<Placed>>
    decreases depth, 1nat, points,
{
    if points == 0 {
        Some(Seq::empty())
    } else {
        let point = points - 1;
        let before = walk_points(doc, inst, slot, point as nat, chain, depth);
        if selects(inst, point, slot) {
            match node_at(doc, inst.prototypes@[slot]@) {
                Some(target) => join(
                    before,
                    walk_node(doc, target, chain.push(point_step(inst, point)), depth),
                ),
                None => before,
            }
        } else {
            before
        }
    }
}

/// A result that is nothing for some of the children is nothing for all.
pub proof fn lemma_children_none(
    doc: &Document,
    children: Seq<usize>,
    k: int,
    chain: Seq<TransformStep>,
    depth: nat,
)
    requires
        0 <= k <= children.len(),
        walk_children(doc, children.take(k), chain, depth) is None,
    ensures
        walk_children(doc, children, chain, depth) is None,
    decreases children.len() - k,
{
    if k == children.len() {
        assert(children.take(k) == children);
    } else {
        assert(children.take(k + 1).drop_last() == children.take(k));
        lemma_children_none(doc, children, k + 1, chain, depth);
    }
}

/// A result that is nothing for some of the points is nothing for all.
pub proof fn lemma_points_none(
    doc: &Document,
    inst: PointInstancer,
    slot: int,
    k: nat,
    points: nat,
    chain: Seq<TransformStep>,
    depth: nat,
)
    requires
        k <= points,
        walk_points(doc, inst, slot, k, chain, depth) is None,
    ensures
        walk_points(doc, inst, slot, points, chain, depth) is None,
    decreases points - k,
{
    if k < points {
        lemma_points_none(doc, inst, slot, k + 1, points, chain, depth);
    }
}

/// A result that is nothing for some of the slots is nothing for all.
pub proof fn lemma_slots_none(
    doc: &Document,
    inst: PointInstancer,
    k: nat,
    slots: nat,
    chain: Seq<TransformStep>,
    depth: nat,
)
    requires
        k <= slots,
        walk_slots(doc, inst, k, chain, depth) is None,
    ensures
        walk_slots(doc, inst, slots, chain, depth) is None,
    decreases slots - k,
{
    if k < slots {
        lemma_slots_none(doc, inst, k + 1, slots, chain, depth);
    }
}

/// Whether a node of the document is a mesh.
pub open spec fn is_mesh_node(doc: &Document, node: int) -> bool {
    0 <= node < doc.nodes@.len() && doc.nodes@[node].kind is Mesh
}

/// Whether every occurrence names a mesh node of the document.
pub open spec fn all_meshes(doc: &Document, found: Seq<Placed>) -> bool {
    forall|k: int| 0 <= k < found.len() ==> is_mesh_node(doc, (#[trigger] found[k]).node)
}

/// Every occurrence that a traversal finds under a node is a mesh node of the
/// document.
pub proof fn lemma_walk_node_meshes(
    doc: &Document,
    node: int,
    parent: Seq<TransformStep>,
    depth: nat,
)
    ensures
        walk_node(doc, node, parent, depth) matches Some(found) ==> all_meshes(doc, found),
    decreases depth, 0nat, 0nat,
{
    if depth > 0 && 0 <= node < doc.nodes@.len() {
        let chain = parent.push(TransformStep::Local(local_matrix(doc.nodes@[node].local)));
        match doc.nodes@[node].kind {
            NodeKind::Mesh(_) => {},
            NodeKind::PointInstancer(inst) => {
                lemma_walk_slots_meshes(
                    doc,
                    inst,
                    inst.prototypes@.len(),
                    chain,
                    (depth - 1) as nat,
                );
            },
            NodeKind::Group(children) => {
                lemma_walk_children_meshes(doc, children@, chain, (depth - 1) as nat);
            },
        }
    }
}

/// Every occurrence found under the children of a node is a mesh node.
pub proof fn lemma_walk_children_meshes(
    doc: &Document,
    children: Seq<usize>,
    chain: Seq<TransformStep>,
    depth: nat,
)
    ensures
        walk_children(doc, children, chain, depth) matches Some(found) ==> all_meshes(doc, found),
    decreases depth, 1nat, children.len(),
{
    if children.len() > 0 {
        lemma_walk_children_meshes(doc, children.drop_last(), chain, depth);
        lemma_walk_node_meshes(doc, children.last() as int, chain, depth);
    }
}

/// Every occurrence found under the prototype slots of an instancer is a mesh
/// node.
pub proof fn lemma_walk_slots_meshes(
    doc: &Document,
    inst: PointInstancer,
    slots: nat,
    chain: Seq<TransformStep>,
    depth: nat,
)
    ensures
        walk_slots(doc, inst, slots, chain, depth) matches Some(found) ==> all_meshes(doc, found),
    decreases depth, 2nat, slots,
{
    if slots > 0 {
        lemma_walk_slots_meshes(doc, inst, (slots - 1) as nat, chain, depth);
        lemma_walk_points_meshes(doc, inst, slots - 1, inst.proto_indices@.len(), chain, depth);
    }
}

/// Every occurrence found under one prototype slot is a mesh node.
pub proof fn lemma_walk_points_meshes(
    doc: &Document,
    inst: PointInstancer,
    slot: int,
    points: nat,
    chain: Seq<TransformStep>,
    depth: nat,
)
    ensures
        walk_points(doc, inst, slot, points, chain, depth) matches Some(found) ==> all_meshes(
            doc,
            found,
        ),
    decreases depth, 1nat, points,
{
    if points > 0 {
        let point = points - 1;
        lemma_walk_points_meshes(doc, inst, slot, point as nat, chain, depth);
        if selects(inst, point, slot) {
            match node_at(doc, inst.prototypes@[slot]@) {
                Some(target) => {
                    lemma_walk_node_meshes(
                        doc,
                        target,
                        chain.push(point_step(inst, point)),
                        depth,
                    );
                },
                None => {},
            }
        }
    }
}

/// The number of the first `points` points of an instancer that select a
/// prototype slot.
pub open spec fn selecting(inst: PointInstancer, slot: int, points: nat) -> nat
    decreases points,
{
    if points == 0 {
        0
    } else if selects(inst, points - 1, slot) {
        selecting(inst, slot, (points - 1) as nat) + 1
    } else {
        selecting(inst, slot, (points - 1) as nat)
    }
}

/// A prototype slot whose target is a mesh is expanded once for each point
/// that selects the slot: the mesh occurs that many times, and the chain of
/// each occurrence ends with the transform step of its point and the local
/// matrix of the mesh.
pub proof fn lemma_mesh_prototype(
    doc: &Document,
    inst: PointInstancer,
    slot: int,
    points: nat,
    chain: Seq<TransformStep>,
    depth: nat,
)
    requires
        depth > 0,
        0 <= slot < inst.prototypes@.len(),
        node_at(doc, inst.prototypes@[slot]@) is Some,
        is_mesh_node(doc, node_at(doc, inst.prototypes@[slot]@)->0),
    ensures
        walk_points(doc, inst, slot, points, chain, depth) is Some,
        walk_points(doc, inst, slot, points, chain, depth)->0.len() == selecting(
            inst,
            slot,
            points,
        ),
        forall|k: int|
            0 <= k < selecting(inst, slot, points) ==> {
                let found = (#[trigger] walk_points(doc, inst, slot, points, chain, depth)->0[k]);
                let target = node_at(doc, inst.prototypes@[slot]@)->0;
                &&& found.node == target
                &&& found.chain.len() == chain.len() + 2
                &&& found.chain.take(chain.len() as int) == chain
                &&& exists|point: int|
                    selects(inst, point, slot) && point < points && found.chain[chain.len() as int]
                        == point_step(inst, point)
                &&& found.chain[chain.len() as int + 1] == TransformStep::Local(
                    local_matrix(doc.nodes@[target].local),
                )
            },
    decreases points,
{
    if points > 0 {
        let point = points - 1;
        lemma_mesh_prototype(doc, inst, slot, point as nat, chain, depth);
        let before = walk_points(doc, inst, slot, point as nat, chain, depth)->0;
        let now = walk_points(doc, inst, slot, points, chain, depth)->0;
        let target = node_at(doc, inst.prototypes@[slot]@)->0;
        let last = Placed {
            node: target,
            chain: chain.push(point_step(inst, point)).push(
                TransformStep::Local(local_matrix(doc.nodes@[target].local)),
            ),
        };
        assert(walk_node(doc, target, chain.push(point_step(inst, point)), depth) == Some(
            seq![last],
        ));
        if selects(inst, point, slot) {
            assert(now =~= before + seq![last]);
        } else {
            assert(now == before);
        }
        assert forall|k: int| 0 <= k < selecting(inst, slot, points) implies {
            let found = (#[trigger] walk_points(doc, inst, slot, points, chain, depth)->0[k]);
            &&& found.node == target
            &&& found.chain.len() == chain.len() + 2
            &&& found.chain.take(chain.len() as int) == chain
            &&& exists|point: int|
                selects(inst, point, slot) && point < points && found.chain[chain.len() as int]
                    == point_step(inst, point)
            &&& found.chain[chain.len() as int + 1] == TransformStep::Local(
                local_matrix(doc.nodes@[target].local),
            )
        } by {
            if k < before.len() {
                let earlier = choose|p: int|
                    selects(inst, p, slot) && p < point && before[k].chain[chain.len() as int]
                        == point_step(inst, p);
                assert(selects(inst, earlier, slot) && earlier < points);
            } else {
                assert(selects(inst, point, slot) && point < points);
            }
        }
    }
}

/// Whether a chain begins with the steps of `start`.
pub open spec fn continues(chain: Seq<TransformStep>, start: Seq<TransformStep>) -> bool {
    start.len() <= chain.len() && chain.take(start.len() as int) == start
}

/// Whether every occurrence has a chain that begins with the steps of `start`.
pub open spec fn all_continue(found: Seq<Placed>, start: Seq<TransformStep>) -> bool {
    forall|k: int| 0 <= k < found.len() ==> continues((#[trigger] found[k]).chain, start)
}

/// A chain that continues a longer start continues the shorter one too.
pub proof fn lemma_continues_push(
    found: Seq<Placed>,
    start: Seq<TransformStep>,
    step: TransformStep,
)
    requires
        all_continue(found, start.push(step)),
    ensures
        all_continue(found, start),
{
    assert forall|k: int| 0 <= k < found.len() implies continues(
        (#[trigger] found[k]).chain,
        start,
    ) by {
        let chain = found[k].chain;
        assert(chain.take(start.len() as int) =~= chain.take(start.len() as int + 1).take(
            start.len() as int,
        ));
        assert(start.push(step).take(start.len() as int) =~= start);
    }
}

/// The world transform of everything under a node is the transform above the
/// node, then the local matrix of the node, then what lies below: each chain
/// found under the node begins with the chain above it and the node's own
/// step.
pub proof fn lemma_walk_node_chains(
    doc: &Document,
    node: int,
    parent: Seq<TransformStep>,
    depth: nat,
)
    ensures
        walk_node(doc, node, parent, depth) matches Some(found) ==> all_continue(found, parent)
            && (0 <= node < doc.nodes@.len() ==> all_continue(
            found,
            parent.push(TransformStep::Local(local_matrix(doc.nodes@[node].local))),
        )),
    decreases depth, 0nat, 0nat,
{
    if depth > 0 && 0 <= node < doc.nodes@.len() {
        let step = TransformStep::Local(local_matrix(doc.nodes@[node].local));
        let chain = parent.push(step);
        match doc.nodes@[node].kind {
            NodeKind::Mesh(_) => {
                assert(chain.take(chain.len() as int) =~= chain);
            },
            NodeKind::PointInstancer(inst) => {
                lemma_walk_slots_chains(
                    doc,
                    inst,
                    inst.prototypes@.len(),
                    chain,
                    (depth - 1) as nat,
                );
            },
            NodeKind::Group(children) => {
                lemma_walk_children_chains(doc, children@, chain, (depth - 1) as nat);
            },
        }
        if walk_node(doc, node, parent, depth) is Some {
            lemma_continues_push(walk_node(doc, node, parent, depth)->0, parent, step);
        }
    }
}

/// Each chain found under the children of a node begins with the chain of the
/// node.
pub proof fn lemma_walk_children_chains(
    doc: &Document,
    children: Seq<usize>,
    chain: Seq<TransformStep>,
    depth: nat,
)
    ensures
        walk_children(doc, children, chain, depth) matches Some(found) ==> all_continue(
            found,
            chain,
        ),
    decreases depth, 1nat, children.len(),
{
    if children.len() > 0 {
        lemma_walk_children_chains(doc, children.drop_last(), chain, depth);
        lemma_walk_node_chains(doc, children.last() as int, chain, depth);
    }
}

/// Each chain found under the prototype slots of an instancer begins with the
/// chain of the instancer.
pub proof fn lemma_walk_slots_chains(
    doc: &Document,
    inst: PointInstancer,
    slots: nat,
    chain: Seq<TransformStep>,
    depth: nat,
)
    ensures
        walk_slots(doc, inst, slots, chain, depth) matches Some(found) ==> all_continue(
            found,
            chain,
        ),
    decreases depth, 2nat, slots,
{
    if slots > 0 {
        lemma_walk_slots_chains(doc, inst, (slots - 1) as nat, chain, depth);
        lemma_walk_points_chains(doc, inst, slots - 1, inst.proto_indices@.len(), chain, depth);
    }
}

/// Each chain found under one prototype slot begins with the chain of the
/// instancer.
pub proof fn lemma_walk_points_chains(
    doc: &Document,
    inst: PointInstancer,
    slot: int,
    points: nat,
    chain: Seq<TransformStep>,
    depth: nat,
)
    ensures
        walk_points(doc, inst, slot, points, chain, depth) matches Some(found) ==> all_continue(
            found,
            chain,
        ),
    decreases depth, 1nat, points,
{
    if points > 0 {
        let point = points - 1;
        lemma_walk_points_chains(doc, inst, slot, point as nat, chain, depth);
        if selects(inst, point, slot) {
            match node_at(doc, inst.prototypes@[slot]@) {
                Some(target) => {
                    let step = point_step(inst, point);
                    lemma_walk_node_chains(doc, target, chain.push(step), depth);
                    let under = walk_node(doc, target, chain.push(step), depth);
                    if under is Some {
                        lemma_continues_push(under->0, chain, step);
                    }
                },
                None => {},
            }
        }
    }
}

/// The depth limit does not change what a traversal finds: a traversal that
/// succeeds within some depth finds the same within every greater depth.
pub proof fn lemma_walk_node_deeper(
    doc: &Document,
    node: int,
    parent: Seq<TransformStep>,
    depth: nat,
    deeper: nat,
)
    requires
        depth <= deeper,
        walk_node(doc, node, parent, depth) is Some,
    ensures
        walk_node(doc, node, parent, deeper) == walk_node(doc, node, parent, depth),
    decreases depth, 0nat, 0nat,
{
    if 0 <= node < doc.nodes@.len() {
        let chain = parent.push(TransformStep::Local(local_matrix(doc.nodes@[node].local)));
        match doc.nodes@[node].kind {
            NodeKind::Mesh(_) => {},
            NodeKind::PointInstancer(inst) => {
                lemma_walk_slots_deeper(
                    doc,
                    inst,
                    inst.prototypes@.len(),
                    chain,
                    (depth - 1) as nat,
                    (deeper - 1) as nat,
                );
            },
            NodeKind::Group(children) => {
                lemma_walk_children_deeper(
                    doc,
                    children@,
                    chain,
                    (depth - 1) as nat,
                    (deeper - 1) as nat,
                );
            },
        }
    }
}

/// What is found under the children of a node within some depth is found
/// within every greater depth.
pub proof fn lemma_walk_children_deeper(
    doc: &Document,
    children: Seq<usize>,
    chain: Seq<TransformStep>,
    depth: nat,
    deeper: nat,
)
    requires
        depth <= deeper,
        walk_children(doc, children, chain, depth) is Some,
    ensures
        walk_children(doc, children, chain, deeper) == walk_children(doc, children, chain, depth),
    decreases depth, 1nat, children.len(),
{
    if children.len() > 0 {
        lemma_walk_children_deeper(doc, children.drop_last(), chain, depth, deeper);
        lemma_walk_node_deeper(doc, children.last() as int, chain, depth, deeper);
    }
}

/// What is found under the prototype slots of an instancer within some depth
/// is found within every greater depth.
pub proof fn lemma_walk_slots_deeper(
    doc: &Document,
    inst: PointInstancer,
    slots: nat,
    chain: Seq<TransformStep>,
    depth: nat,
    deeper: nat,
)
    requires
        depth <= deeper,
        walk_slots(doc, inst, slots, chain, depth) is Some,
    ensures
        walk_slots(doc, inst, slots, chain, deeper) == walk_slots(doc, inst, slots, chain, depth),
    decreases depth, 2nat, slots,
{
    if slots > 0 {
        lemma_walk_slots_deeper(doc, inst, (slots - 1) as nat, chain, depth, deeper);
        lemma_walk_points_deeper(
            doc,
            inst,
            slots - 1,
            inst.proto_indices@.len(),
            chain,
            depth,
            deeper,
        );
    }
}

/// What is found under one prototype slot within some depth is found within
/// every greater depth.
pub proof fn lemma_walk_points_deeper(
    doc: &Document,
    inst: PointInstancer,
    slot: int,
    points: nat,
    chain: Seq<TransformStep>,
    depth: nat,
    deeper: nat,
)
    requires
        depth <= deeper,
        walk_points(doc, inst, slot, points, chain, depth) is Some,
    ensures
        walk_points(doc, inst, slot, points, chain, deeper) == walk_points(
            doc,
            inst,
            slot,
            points,
            chain,
            depth,
        ),
    decreases depth, 1nat, points,
{
    if points > 0 {
        let point = points - 1;
        lemma_walk_points_deeper(doc, inst, slot, point as nat, chain, depth, deeper);
        if selects(inst, point, slot) {
            match node_at(doc, inst.prototypes@[slot]@) {
                Some(target) => {
                    lemma_walk_node_deeper(
                        doc,
                        target,
                        chain.push(point_step(inst, point)),
                        depth,
                        deeper,
                    );
                },
                None => {},
            }
        }
    }
}

} // verus!
