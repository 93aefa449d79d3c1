//! Traversal of a scene description: which meshes occur, and under which
//! transforms.

use crate::document::{
    composed_local_matrix, get_or, node_at, Document, NodeKind, PathIndex, PointInstancer,
};
use crate::frames::{
    chain_of, lemma_chain_stable, lemma_placed_stable, parent_chain, Frame, Occurrence, Placed,
    TransformStep, Traversal,
};
use crate::matrix::ONE_F32;
use crate::mesh::widen_index;
use crate::walk::{
    lemma_children_none, lemma_points_none, lemma_slots_none, point_step, walk_children,
    walk_node, walk_points, walk_slots,
};
use vstd::prelude::*;

verus! {

/// Why a traversal was given up.
#[derive(Debug, Clone, Copy, PartialEq, Eq)]
pub enum FlattenError {
    /// A node lies deeper than the depth limit, as in a scene in which an
    /// instancer reaches itself through its prototypes, which has no finite
    /// flattening.
    DepthExceeded,
}

/// Enters a frame under `parent`.
fn push_frame(out: &mut Traversal, parent: Option<usize>, step: TransformStep) -> (frame: usize)
    requires
        old(out).wf(),
        old(out).holds(parent),
    ensures
        final(out).wf(),
        final(out).extends(old(out)),
        final(out).occurrences@ == old(out).occurrences@,
        final(out).placed() == old(out).placed(),
        frame == old(out).frames@.len(),
        final(out).frames@.len() == frame + 1,
        chain_of(final(out).frames@, frame as int) == parent_chain(old(out).frames@, parent).push(
            step,
        ),
{
    let frame: usize = out.frames.len();
    out.frames.push(Frame { parent, step });
    proof {
        lemma_placed_stable(old(out).frames@, out.frames@, out.occurrences@);
        match parent {
            Some(p) => {
                lemma_chain_stable(old(out).frames@, out.frames@, p as int);
            },
            None => {
                assert(seq![step] =~= Seq::<TransformStep>::empty().push(step));
            },
        }
    }
    frame
}

/// Traverses the scene under one node.
///
/// The node is entered under the frame `parent`, or under the identity where
/// `parent` is `None`, with `depth` levels left. Each mesh found is appended to
/// the occurrences of `out`, in traversal order, under a frame whose chain
/// continues that of `parent`. The traversal is given up where a node is
/// reached with no level left; `out` then holds what was found until then.
pub fn expand_prim(
    doc: &Document,
    index: &PathIndex,
    node: usize,
    parent: Option<usize>,
    depth: usize,
    out: &mut Traversal,
) -> (r: Result<(), FlattenError>)
    requires
        index.indexes(doc),
        old(out).wf(),
        old(out).holds(parent),
    ensures
        final(out).wf(),
        final(out).extends(old(out)),
        match walk_node(doc, node as int, parent_chain(old(out).frames@, parent), depth as nat) {
            Some(found) => r is Ok && final(out).placed() == old(out).placed() + found,
            None => r is Err,
        },
    decreases depth, 0nat, 0nat,
{
    if depth == 0 {
        return Err(FlattenError::DepthExceeded);
    }
    if node >= doc.nodes.len() {
        proof {
            assert(out.placed() =~= old(out).placed() + Seq::<Placed>::empty());
        }
        return Ok(());
    }
    let local = composed_local_matrix(&doc.nodes[node].local);
    let frame = push_frame(out, parent, TransformStep::Local(local));
    let ghost chain = chain_of(out.frames@, frame as int);
    match &doc.nodes[node].kind {
        NodeKind::Mesh(_) => {
            out.occurrences.push(Occurrence { node, frame });
            proof {
                assert(out.placed() =~= old(out).placed() + seq![
                    Placed { node: node as int, chain },
                ]);
            }
            Ok(())
        },
        NodeKind::PointInstancer(inst) => expand_instancer(doc, index, inst, frame, depth - 1, out),
        NodeKind::Group(children) => expand_children(doc, index, children, frame, depth - 1, out),
    }
}

/// Traverses the scene under the children of a node that was entered as
/// `frame`, child after child.
pub fn expand_children(
    doc: &Document,
    index: &PathIndex,
    children: &Vec<usize>,
    frame: usize,
    depth: usize,
    out: &mut Traversal,
) -> (r: Result<(), FlattenError>)
    requires
        index.indexes(doc),
        old(out).wf(),
        frame < old(out).frames@.len(),
    ensures
        final(out).wf(),
        final(out).extends(old(out)),
        match walk_children(
            doc,
            children@,
            chain_of(old(out).frames@, frame as int),
            depth as nat,
        ) {
            Some(found) => r is Ok && final(out).placed() == old(out).placed() + found,
            None => r is Err,
        },
    decreases depth, 1nat, children@.len(),
{
    let ghost chain = chain_of(out.frames@, frame as int);
    let ghost mut found: Seq<Placed> = Seq::empty();
    let mut i: usize = 0;
    proof {
        assert(children@.take(0) =~= Seq::<usize>::empty());
    }
    while i < children.len()
        invariant
            i <= children.len(),
            index.indexes(doc),
            out.wf(),
            out.extends(old(out)),
            frame < old(out).frames@.len(),
            chain == chain_of(old(out).frames@, frame as int),
            walk_children(doc, children@.take(i as int), chain, depth as nat) == Some(found),
            out.placed() == old(out).placed() + found,
        decreases children.len() - i,
    {
        proof {
            lemma_chain_stable(old(out).frames@, out.frames@, frame as int);
            assert(children@.take(i as int + 1).drop_last() == children@.take(i as int));
        }
        match expand_prim(doc, index, children[i], Some(frame), depth, out) {
            Ok(()) => {
                proof {
                    let more = walk_node(doc, children@[i as int] as int, chain, depth as nat)->0;
                    assert(out.placed() =~= old(out).placed() + (found + more));
                    found = found + more;
                }
            },
            Err(e) => {
                proof {
                    lemma_children_none(doc, children@, i as int + 1, chain, depth as nat);
                }
                return Err(e);
            },
        }
        i += 1;
    }
    proof {
        assert(children@.take(children.len() as int) == children@);
    }
    Ok(())
}

/// Expands the prototypes of a point instancer that was entered as `frame`:
/// slot after slot, and within a slot each point that selects it, in the order
/// of the points.
pub fn expand_instancer(
    doc: &Document,
    index: &PathIndex,
    inst: &PointInstancer,
    frame: usize,
    depth: usize,
    out: &mut Traversal,
) -> (r: Result<(), FlattenError>)
    requires
        index.indexes(doc),
        old(out).wf(),
        frame < old(out).frames@.len(),
    ensures
        final(out).wf(),
        final(out).extends(old(out)),
        match walk_slots(
            doc,
            *inst,
            inst.prototypes@.len(),
            chain_of(old(out).frames@, frame as int),
            depth as nat,
        ) {
            Some(found) => r is Ok && final(out).placed() == old(out).placed() + found,
            None => r is Err,
        },
    decreases depth, 3nat, 0nat,
{
    let ghost chain = chain_of(out.frames@, frame as int);
    let ghost mut found: Seq<Placed> = Seq::empty();
    let slots: usize = inst.prototypes.len();
    let points: usize = inst.proto_indices.len();
    let mut slot: usize = 0;
    proof {
        assert(out.placed() =~= old(out).placed() + found);
    }
    while slot < slots
        invariant
            slot <= slots,
            index.indexes(doc),
            slots == inst.prototypes@.len(),
            points == inst.proto_indices@.len(),
            out.wf(),
            out.extends(old(out)),
            frame < old(out).frames@.len(),
            chain == chain_of(old(out).frames@, frame as int),
            walk_slots(doc, *inst, slot as nat, chain, depth as nat) == Some(found),
            out.placed() == old(out).placed() + found,
        decreases slots - slot,
    {
        let ghost slot_start = found;
        let ghost mut here: Seq<Placed> = Seq::empty();
        let prototype = index.find(inst.prototypes[slot].as_str());
        let mut point: usize = 0;
        proof {
            index.lemma_find(doc, inst.prototypes@[slot as int]@);
            assert(out.placed() =~= old(out).placed() + (slot_start + here));
        }
        while point < points
            invariant
                point <= points,
                slot < slots,
                index.indexes(doc),
                match prototype {
                    Some(target) => node_at(doc, inst.prototypes@[slot as int]@) == Some(
                        target as int,
                    ),
                    None => node_at(doc, inst.prototypes@[slot as int]@) is None,
                },
                slots == inst.prototypes@.len(),
                points == inst.proto_indices@.len(),
                out.wf(),
                out.extends(old(out)),
                frame < old(out).frames@.len(),
                chain == chain_of(old(out).frames@, frame as int),
                walk_slots(doc, *inst, slot as nat, chain, depth as nat) == Some(slot_start),
                walk_points(doc, *inst, slot as int, point as nat, chain, depth as nat) == Some(
                    here,
                ),
                out.placed() == old(out).placed() + (slot_start + here),
            decreases points - point,
        {
            if widen_index(inst.proto_indices[point]) == slot {
                match prototype {
                    Some(target) => {
                        let step = TransformStep::Point {
                            translation: get_or(&inst.positions, point, [0u32, 0u32, 0u32]),
                            rotation: get_or(
                                &inst.orientations,
                                point,
                                [0u32, 0u32, 0u32, ONE_F32],
                            ),
                            scale: get_or(&inst.scales, point, [ONE_F32, ONE_F32, ONE_F32]),
                        };
                        proof {
                            lemma_chain_stable(old(out).frames@, out.frames@, frame as int);
                        }
                        let at_point = push_frame(out, Some(frame), step);
                        match expand_prim(doc, index, target, Some(at_point), depth, out) {
                            Ok(()) => {
                                proof {
                                    let more = walk_node(
                                        doc,
                                        target as int,
                                        chain.push(point_step(*inst, point as int)),
                                        depth as nat,
                                    )->0;
                                    assert(out.placed() =~= old(out).placed() + (slot_start + (here
                                        + more)));
                                    here = here + more;
                                }
                            },
                            Err(e) => {
                                proof {
                                    lemma_points_none(
                                        doc,
                                        *inst,
                                        slot as int,
                                        (point + 1) as nat,
                                        points as nat,
                                        chain,
                                        depth as nat,
                                    );
                                    lemma_slots_none(
                                        doc,
                                        *inst,
                                        (slot + 1) as nat,
                                        slots as nat,
                                        chain,
                                        depth as nat,
                                    );
                                }
                                return Err(e);
                            },
                        }
                    },
                    None => {},
                }
            }
            point += 1;
        }
        proof {
            found = slot_start + here;
        }
        slot += 1;
    }
    Ok(())
}

/// Traverses a scene description from its root, under the identity, to at
/// most `max_depth` levels of nesting.
///
/// The result holds every mesh occurrence in traversal order. The traversal is
/// refused where a node lies deeper than `max_depth` levels, the root being on
/// level one.
pub fn traverse(doc: &Document, max_depth: usize) -> (r: Result<Traversal, FlattenError>)
    ensures
        match walk_node(doc, doc.root as int, Seq::empty(), max_depth as nat) {
            Some(found) => r is Ok && r->Ok_0.wf() && r->Ok_0.placed() == found,
            None => r == Err::<Traversal, FlattenError>(FlattenError::DepthExceeded),
        },
{
    let index = PathIndex::build(doc);
    let mut out = Traversal::new();
    match expand_prim(doc, &index, doc.root, None, max_depth, &mut out) {
        Ok(()) => {
            proof {
                let found = walk_node(doc, doc.root as int, Seq::empty(), max_depth as nat)->0;
                assert(out.placed() =~= found);
            }
            Ok(out)
        },
        Err(e) => Err(e),
    }
}

} // verus!
