//! What a traversal records: transform steps, frames and mesh occurrences.
//!
//! The traversal does not multiply matrices. It records one [`Frame`] per
//! visited node and per expanded instancer point: the transform step taken
//! there and the frame under which it is taken. The world transform of a frame
//! is the product of the steps on its chain, composed by the caller in the
//! order of the frames.

use crate::document::QuatBits;
use crate::matrix::Matrix4dBits;
use crate::mesh::Vec3Bits;
use vstd::prelude::*;

verus! {

/// One step of a transform chain.
#[derive(Debug, Clone, Copy, PartialEq, Eq)]
pub enum TransformStep {
    /// The local matrix of a node, in the convention in which it is composed.
    Local(Matrix4dBits),
    /// The transform of one instancer point: scale, then rotation, then
    /// translation.
    Point { translation: Vec3Bits, rotation: QuatBits, scale: Vec3Bits },
}

/// One transform step and the frame under which it is taken; `None` for a step
/// taken from the identity.
#[derive(Debug, Clone, Copy, PartialEq, Eq)]
pub struct Frame {
    pub parent: Option<usize>,
    pub step: TransformStep,
}

/// One occurrence of a mesh: the mesh node and the frame of its world
/// transform.
#[derive(Debug, Clone, Copy, PartialEq, Eq)]
pub struct Occurrence {
    pub node: usize,
    pub frame: usize,
}

/// What a traversal found: the frames in the order in which they were entered,
/// and the mesh occurrences in traversal order.
#[derive(Debug, Clone, PartialEq, Eq)]
pub struct Traversal {
    pub frames: Vec<Frame>,
    pub occurrences: Vec<Occurrence>,
}

impl Traversal {
    /// Whether the frames are ordered and each occurrence names a frame.
    pub open spec fn wf(&self) -> bool {
        &&& frames_ordered(self.frames@)
        &&& forall|k: int|
            0 <= k < self.occurrences@.len() ==> (#[trigger] self.occurrences@[k]).frame
                < self.frames@.len()
    }

    /// The mesh occurrences with their chains.
    pub open spec fn placed(&self) -> Seq<Placed> {
        placed(self.frames@, self.occurrences@)
    }

    /// Whether this traversal continues an earlier one: nothing recorded
    /// earlier has changed.
    pub open spec fn extends(&self, earlier: &Traversal) -> bool {
        &&& starts(earlier.frames@, self.frames@)
        &&& starts(earlier.occurrences@, self.occurrences@)
    }

    /// Whether `parent` can be the parent of the next frame.
    pub open spec fn holds(&self, parent: Option<usize>) -> bool {
        match parent {
            Some(p) => p < self.frames@.len(),
            None => true,
        }
    }

    /// The traversal that has found nothing yet.
    pub fn new() -> (r: Traversal)
        ensures
            r.wf(),
            r.frames@.len() == 0,
            r.occurrences@.len() == 0,
    {
        Traversal { frames: Vec::new(), occurrences: Vec::new() }
    }
}

/// A mesh occurrence with the steps of its world transform, from the root down.
pub ghost struct Placed {
    pub node: int,
    pub chain: Seq<TransformStep>,
}

/// Whether each frame comes after the frame it is taken from.
pub open spec fn frames_ordered(frames: Seq<Frame>) -> bool {
    forall|i: int|
        0 <= i < frames.len() ==> match (#[trigger] frames[i]).parent {
            Some(p) => p < i,
            None => true,
        }
}

/// The steps of a frame from the root down: those of its parent, then its own.
pub open spec fn chain_of(frames: Seq<Frame>, frame: int) -> Seq<TransformStep>
    decreases frame,
{
    if 0 <= frame < frames.len() {
        match frames[frame].parent {
            Some(p) => if p < frame {
                chain_of(frames, p as int).push(frames[frame].step)
            } else {
                seq![frames[frame].step]
            },
            None => seq![frames[frame].step],
        }
    } else {
        Seq::empty()
    }
}

/// The steps above a node that is entered under `parent`.
pub open spec fn parent_chain(frames: Seq<Frame>, parent: Option<usize>) -> Seq<TransformStep> {
    match parent {
        Some(p) => chain_of(frames, p as int),
        None => Seq::empty(),
    }
}

/// The mesh occurrences of a traversal, each with the chain of its frame.
pub open spec fn placed(frames: Seq<Frame>, occurrences: Seq<Occurrence>) -> Seq<Placed> {
    Seq::new(
        occurrences.len(),
        |k: int|
            Placed {
                node: occurrences[k].node as int,
                chain: chain_of(frames, occurrences[k].frame as int),
            },
    )
}

/// Whether `a` is the start of `b`.
pub open spec fn starts<T>(a: Seq<T>, b: Seq<T>) -> bool {
    &&& a.len() <= b.len()
    &&& forall|i: int| 0 <= i < a.len() ==> a[i] == b[i]
}

/// The chain of a frame does not change when frames are added.
pub proof fn lemma_chain_stable(a: Seq<Frame>, b: Seq<Frame>, frame: int)
    requires
        starts(a, b),
        0 <= frame < a.len(),
    ensures
        chain_of(b, frame) == chain_of(a, frame),
    decreases frame,
{
    match a[frame].parent {
        Some(p) => {
            if p < frame {
                lemma_chain_stable(a, b, p as int);
            }
        },
        None => {},
    }
}

/// The recorded occurrences keep their chains when frames are added.
pub proof fn lemma_placed_stable(a: Seq<Frame>, b: Seq<Frame>, occurrences: Seq<Occurrence>)
    requires
        starts(a, b),
        forall|k: int| 0 <= k < occurrences.len() ==> (#[trigger] occurrences[k]).frame < a.len(),
    ensures
        placed(b, occurrences) == placed(a, occurrences),
{
    assert forall|k: int| 0 <= k < occurrences.len() implies placed(b, occurrences)[k] == placed(
        a,
        occurrences,
    )[k] by {
        lemma_chain_stable(a, b, occurrences[k].frame as int);
    }
}

} // verus!
