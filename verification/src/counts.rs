//! Corner counts of polygons: sums, starts and triangle counts.

use crate::mesh::MeshView;
use vstd::prelude::*;

verus! {

/// The sum of the corner counts.
pub open spec fn total(counts: Seq<usize>) -> nat
    decreases counts.len(),
{
    if counts.len() == 0 {
        0
    } else {
        total(counts.drop_last()) + counts.last() as nat
    }
}

/// The wedge at which polygon `f` starts: the sum of the counts before it.
pub open spec fn face_start(counts: Seq<usize>, f: int) -> nat
    recommends
        0 <= f <= counts.len(),
{
    total(counts.take(f))
}

/// The sum of a prefix grows with the prefix.
pub proof fn lemma_total_take(counts: Seq<usize>, f: int)
    requires
        0 <= f < counts.len(),
    ensures
        total(counts.take(f + 1)) == total(counts.take(f)) + counts[f],
        total(counts.take(f + 1)) <= total(counts),
    decreases counts.len() - f,
{
    assert(counts.take(f + 1).drop_last() == counts.take(f));
    if f + 1 < counts.len() {
        lemma_total_take(counts, f + 1);
    } else {
        assert(counts.take(f + 1) == counts);
    }
}

/// The corner counts cut down to a stream of `wedges` wedges: each polygon
/// keeps the corners that the stream still holds when its turn comes. Counts
/// whose sum is at most `wedges` stay as they are.
pub open spec fn clipped_counts(counts: Seq<usize>, wedges: nat) -> Seq<usize>
    decreases counts.len(),
{
    if counts.len() == 0 {
        Seq::empty()
    } else {
        let head = clipped_counts(counts.drop_last(), wedges);
        let room = wedges - total(head);
        head.push(
            if counts.last() <= room {
                counts.last()
            } else {
                room as usize
            },
        )
    }
}

/// Clipped counts never ask for more wedges than the stream holds.
pub proof fn lemma_clipped_counts(counts: Seq<usize>, wedges: nat)
    ensures
        clipped_counts(counts, wedges).len() == counts.len(),
        total(clipped_counts(counts, wedges)) <= wedges,
        forall|f: int|
            0 <= f < counts.len() ==> #[trigger] clipped_counts(counts, wedges)[f] <= counts[f],
        total(counts) <= wedges ==> clipped_counts(counts, wedges) == counts,
    decreases counts.len(),
{
    if counts.len() > 0 {
        let init = counts.drop_last();
        lemma_clipped_counts(init, wedges);
        let head = clipped_counts(init, wedges);
        let clipped = clipped_counts(counts, wedges);
        assert(clipped.drop_last() == head);
        if total(counts) <= wedges {
            assert(clipped == counts);
        }
    }
}

/// The corner counts that the resolver works with: those of the mesh, cut down
/// to its wedge stream.
pub open spec fn counts_in_use(m: MeshView) -> Seq<usize> {
    clipped_counts(m.face_vertex_counts, m.face_vertex_indices.len())
}

/// Cuts the corner counts of a mesh down to its wedge stream.
pub fn clip_face_counts(counts: &Vec<usize>, wedges: usize) -> (r: Vec<usize>)
    ensures
        r@ == clipped_counts(counts@, wedges as nat),
{
    let mut out: Vec<usize> = Vec::new();
    let mut used: usize = 0;
    let mut f: usize = 0;
    while f < counts.len()
        invariant
            f <= counts.len(),
            used <= wedges,
            out@ == clipped_counts(counts@.take(f as int), wedges as nat),
            used == total(out@),
        decreases counts.len() - f,
    {
        let room: usize = wedges - used;
        let c: usize = if counts[f] <= room {
            counts[f]
        } else {
            room
        };
        proof {
            assert(counts@.take(f as int + 1).drop_last() == counts@.take(f as int));
            assert(out@.push(c).drop_last() == out@);
        }
        out.push(c);
        used = used + c;
        f += 1;
    }
    proof {
        assert(counts@.take(counts.len() as int) == counts@);
    }
    out
}

/// The number of triangles that a polygon of `count` corners gives: `count - 2`,
/// and none for fewer than three corners.
pub open spec fn triangles_of(count: usize) -> nat {
    if count >= 3 {
        (count - 2) as nat
    } else {
        0
    }
}

/// The number of triangles that the polygons give together.
pub open spec fn triangle_total(counts: Seq<usize>) -> nat
    decreases counts.len(),
{
    if counts.len() == 0 {
        0
    } else {
        triangle_total(counts.drop_last()) + triangles_of(counts.last())
    }
}

/// A prefix of the polygons gives no more triangles than all of them.
pub proof fn lemma_triangle_total_take(counts: Seq<usize>, f: int)
    requires
        0 <= f < counts.len(),
    ensures
        triangle_total(counts.take(f + 1)) == triangle_total(counts.take(f)) + triangles_of(
            counts[f],
        ),
        triangle_total(counts.take(f + 1)) <= triangle_total(counts),
    decreases counts.len() - f,
{
    assert(counts.take(f + 1).drop_last() == counts.take(f));
    if f + 1 < counts.len() {
        lemma_triangle_total_take(counts, f + 1);
    } else {
        assert(counts.take(f + 1) == counts);
    }
}

/// The number of triangles that the polygons give together, or nothing where
/// three times that number does not fit in 32 bits.
pub fn count_triangles(counts: &Vec<usize>) -> (r: Option<usize>)
    ensures
        match r {
            Some(n) => n == triangle_total(counts@) && 3 * n <= u32::MAX,
            None => 3 * triangle_total(counts@) > u32::MAX,
        },
{
    let limit: usize = 0x5555_5555;
    let mut sum: usize = 0;
    let mut f: usize = 0;
    while f < counts.len()
        invariant
            f <= counts.len(),
            limit == 0x5555_5555,
            sum <= limit,
            sum == triangle_total(counts@.take(f as int)),
        decreases counts.len() - f,
    {
        proof {
            lemma_triangle_total_take(counts@, f as int);
        }
        let n: usize = counts[f];
        let triangles: usize = if n >= 3 {
            n - 2
        } else {
            0
        };
        if triangles > limit - sum {
            return None;
        }
        sum = sum + triangles;
        f += 1;
    }
    proof {
        assert(counts@.take(counts.len() as int) == counts@);
    }
    Some(sum)
}

} // verus!
