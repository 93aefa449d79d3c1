//! Fan triangulation of polygons.

use crate::counts::{
    face_start, lemma_total_take, lemma_triangle_total_take, total, triangle_total, triangles_of,
};
use crate::mesh::{Vec2Bits, Vec3Bits};
use vstd::prelude::*;

verus! {

/// The wedges of the first `triangles` triangles of a fan over the polygon that
/// starts at wedge `start`, three per triangle. Triangle `i` takes the corners
/// `0`, `i + 2`, `i + 1` of the polygon, in that order.
pub open spec fn fan(start: int, triangles: nat) -> Seq<int>
    decreases triangles,
{
    if triangles == 0 {
        Seq::empty()
    } else {
        fan(start, (triangles - 1) as nat) + seq![start, start + triangles + 1, start + triangles]
    }
}

/// The wedges of all triangle corners, in the order in which they are emitted:
/// polygon after polygon, each as a fan from its first corner.
pub open spec fn corner_wedges(counts: Seq<usize>) -> Seq<int>
    decreases counts.len(),
{
    if counts.len() == 0 {
        Seq::empty()
    } else {
        corner_wedges(counts.drop_last()) + fan(
            total(counts.drop_last()) as int,
            triangles_of(counts.last()),
        )
    }
}

/// A fan of `triangles` triangles has three corners per triangle, all among the
/// first `triangles + 2` corners of its polygon.
pub proof fn lemma_fan(start: int, triangles: nat)
    ensures
        fan(start, triangles).len() == 3 * triangles,
        forall|j: int|
            0 <= j < 3 * triangles ==> start <= #[trigger] fan(start, triangles)[j] < start
                + triangles + 2,
    decreases triangles,
{
    if triangles > 0 {
        lemma_fan(start, (triangles - 1) as nat);
    }
}

/// Triangle `i` of a fan takes the corners `0`, `i + 2`, `i + 1` of its polygon.
pub proof fn lemma_fan_at(start: int, triangles: nat, i: int)
    requires
        0 <= i < triangles,
    ensures
        fan(start, triangles).len() == 3 * triangles,
        fan(start, triangles)[3 * i] == start,
        fan(start, triangles)[3 * i + 1] == start + i + 2,
        fan(start, triangles)[3 * i + 2] == start + i + 1,
    decreases triangles,
{
    lemma_fan(start, triangles);
    lemma_fan(start, (triangles - 1) as nat);
    if i < triangles - 1 {
        lemma_fan_at(start, (triangles - 1) as nat, i);
    }
}

/// The triangle corners are three per triangle, and each is a wedge of a polygon.
pub proof fn lemma_corner_wedges(counts: Seq<usize>)
    ensures
        corner_wedges(counts).len() == 3 * triangle_total(counts),
        forall|j: int|
            0 <= j < corner_wedges(counts).len() ==> 0 <= #[trigger] corner_wedges(counts)[j]
                < total(counts),
    decreases counts.len(),
{
    if counts.len() > 0 {
        let init = counts.drop_last();
        lemma_corner_wedges(init);
        lemma_fan(total(init) as int, triangles_of(counts.last()));
    }
}

/// Triangle `i` of polygon `f` stands in the triangle list after the triangles
/// of the polygons before `f` and the triangles before `i` of `f`, and takes
/// the corners `0`, `i + 2`, `i + 1` of polygon `f`, in that order.
pub proof fn lemma_triangle_corners(counts: Seq<usize>, f: int, i: int)
    requires
        0 <= f < counts.len(),
        0 <= i < triangles_of(counts[f]),
    ensures
        3 * (triangle_total(counts.take(f)) + i) + 2 < corner_wedges(counts).len(),
        corner_wedges(counts)[3 * (triangle_total(counts.take(f)) + i)] == face_start(counts, f),
        corner_wedges(counts)[3 * (triangle_total(counts.take(f)) + i) + 1] == face_start(
            counts,
            f,
        ) + i + 2,
        corner_wedges(counts)[3 * (triangle_total(counts.take(f)) + i) + 2] == face_start(
            counts,
            f,
        ) + i + 1,
    decreases counts.len(),
{
    let init = counts.drop_last();
    let last = counts.len() - 1;
    lemma_corner_wedges(init);
    lemma_fan(total(init) as int, triangles_of(counts.last()));
    if f < last {
        lemma_triangle_corners(init, f, i);
        assert(counts.take(f) == init.take(f));
    } else {
        lemma_fan_at(total(init) as int, triangles_of(counts.last()), i);
    }
}

/// The values of a stream at the wedges of the triangle corners, through the
/// index stream.
pub open spec fn selected<T>(values: Seq<T>, indices: Seq<u32>, order: Seq<int>) -> Seq<T> {
    Seq::new(order.len(), |j: int| values[indices[order[j]] as int])
}

/// The numbers `0, 1, ..., n - 1`.
pub open spec fn sequential(n: nat) -> Seq<u32> {
    Seq::new(n, |j: int| j as u32)
}

/// The numbers `0, 1, ..., n - 1`.
pub fn sequential_ids(n: usize) -> (r: Vec<u32>)
    requires
        n <= u32::MAX,
    ensures
        r@ == sequential(n as nat),
{
    let mut out: Vec<u32> = Vec::new();
    let mut i: usize = 0;
    while i < n
        invariant
            i <= n,
            n <= u32::MAX,
            out@ == sequential(n as nat).subrange(0, i as int),
        decreases n - i,
    {
        out.push(i as u32);
        i += 1;
    }
    out
}

/// Whether the index stream covers the wedges of all polygons and leads each of
/// them to an entry that the three attribute streams hold.
pub open spec fn refs_in_range(
    counts: Seq<usize>,
    indices: Seq<u32>,
    positions: nat,
    normals: nat,
    uvs: nat,
) -> bool {
    &&& total(counts) <= indices.len()
    &&& forall|w: int|
        0 <= w < total(counts) ==> {
            &&& (#[trigger] indices[w]) < positions
            &&& indices[w] < normals
            &&& indices[w] < uvs
        }
}

/// The flat streams while they are filled: the three attribute streams and the
/// triangle-index stream, all of one length.
struct Corners {
    positions: Vec<Vec3Bits>,
    normals: Vec<Vec3Bits>,
    uvs: Vec<Vec2Bits>,
    numbers: Vec<u32>,
}

impl Corners {
    /// Whether the streams hold the corners at the wedges of `order`.
    spec fn holds(
        &self,
        indices: Seq<u32>,
        positions_ref: Seq<Vec3Bits>,
        normals_ref: Seq<Vec3Bits>,
        uvs_ref: Seq<Vec2Bits>,
        order: Seq<int>,
    ) -> bool {
        &&& self.positions@ == selected(positions_ref, indices, order)
        &&& self.normals@ == selected(normals_ref, indices, order)
        &&& self.uvs@ == selected(uvs_ref, indices, order)
        &&& self.numbers@ == sequential(order.len())
    }

    /// Appends the corner at one wedge.
    fn push(
        &mut self,
        wedge: usize,
        indices: &Vec<u32>,
        positions_ref: &Vec<Vec3Bits>,
        normals_ref: &Vec<Vec3Bits>,
        uvs_ref: &Vec<Vec2Bits>,
        Ghost(order): Ghost<Seq<int>>,
    )
        requires
            old(self).holds(indices@, positions_ref@, normals_ref@, uvs_ref@, order),
            order.len() < u32::MAX,
            wedge < indices.len(),
            indices[wedge as int] < positions_ref.len(),
            indices[wedge as int] < normals_ref.len(),
            indices[wedge as int] < uvs_ref.len(),
        ensures
            final(self).holds(
                indices@,
                positions_ref@,
                normals_ref@,
                uvs_ref@,
                order.push(wedge as int),
            ),
    {
        let idx: usize = indices[wedge] as usize;
        let number: u32 = self.positions.len() as u32;
        self.numbers.push(number);
        self.positions.push(positions_ref[idx]);
        self.normals.push(normals_ref[idx]);
        self.uvs.push(uvs_ref[idx]);
        proof {
            let next = order.push(wedge as int);
            assert(self.positions@ =~= selected(positions_ref@, indices@, next));
            assert(self.normals@ =~= selected(normals_ref@, indices@, next));
            assert(self.uvs@ =~= selected(uvs_ref@, indices@, next));
            assert(self.numbers@ =~= sequential(next.len()));
        }
    }
}

/// Fan-triangulates the polygons of a mesh.
///
/// `indices[w]` is the entry of the three attribute streams that belongs to
/// wedge `w`. Each polygon of `n` corners gives `n - 2` triangles, triangle `i`
/// over its corners `0`, `i + 2`, `i + 1`; each triangle corner becomes a new
/// entry of the three flat streams, and the triangle-index stream numbers the
/// entries in order. The four streams have one length: three entries for each
/// triangle, and none for a polygon of fewer than three corners.
#[verifier::loop_isolation(false)]
pub fn triangulate(
    counts: &Vec<usize>,
    indices: &Vec<u32>,
    positions_ref: &Vec<Vec3Bits>,
    normals_ref: &Vec<Vec3Bits>,
    uvs_ref: &Vec<Vec2Bits>,
) -> (r: (Vec<Vec3Bits>, Vec<Vec3Bits>, Vec<Vec2Bits>, Vec<u32>))
    requires
        refs_in_range(
            counts@,
            indices@,
            positions_ref@.len(),
            normals_ref@.len(),
            uvs_ref@.len(),
        ),
        3 * triangle_total(counts@) <= u32::MAX,
    ensures
        r.0@ == selected(positions_ref@, indices@, corner_wedges(counts@)),
        r.1@ == selected(normals_ref@, indices@, corner_wedges(counts@)),
        r.2@ == selected(uvs_ref@, indices@, corner_wedges(counts@)),
        r.3@ == sequential(corner_wedges(counts@).len()),
        r.0@.len() == 3 * triangle_total(counts@),
        r.1@.len() == 3 * triangle_total(counts@),
        r.2@.len() == 3 * triangle_total(counts@),
        r.3@.len() == 3 * triangle_total(counts@),
{
    let mut out = Corners {
        positions: Vec::new(),
        normals: Vec::new(),
        uvs: Vec::new(),
        numbers: Vec::new(),
    };
    let ghost mut order: Seq<int> = Seq::empty();
    let mut wedge_idx: usize = 0;
    let mut f: usize = 0;
    assert(total(counts@) <= indices.len());
    proof {
        assert(out.positions@ =~= selected(positions_ref@, indices@, order));
        assert(out.normals@ =~= selected(normals_ref@, indices@, order));
        assert(out.uvs@ =~= selected(uvs_ref@, indices@, order));
        assert(out.numbers@ =~= sequential(order.len()));
    }
    while f < counts.len()
        invariant
            f <= counts.len(),
            wedge_idx == total(counts@.take(f as int)),
            order == corner_wedges(counts@.take(f as int)),
            order.len() == 3 * triangle_total(counts@.take(f as int)),
            out.holds(indices@, positions_ref@, normals_ref@, uvs_ref@, order),
        decreases counts.len() - f,
    {
        let n: usize = counts[f];
        let ghost before = order;
        proof {
            lemma_total_take(counts@, f as int);
            lemma_triangle_total_take(counts@, f as int);
            assert(counts@.take(f as int + 1).drop_last() == counts@.take(f as int));
        }
        let triangles: usize = if n >= 3 {
            n - 2
        } else {
            0
        };
        let mut i: usize = 0;
        while i < triangles
            invariant
                i <= triangles,
                order == before + fan(wedge_idx as int, i as nat),
                order.len() == before.len() + 3 * i,
                out.holds(indices@, positions_ref@, normals_ref@, uvs_ref@, order),
            decreases triangles - i,
        {
            let ghost start = order;
            out.push(wedge_idx, indices, positions_ref, normals_ref, uvs_ref, Ghost(order));
            proof {
                order = order.push(wedge_idx as int);
            }
            out.push(wedge_idx + i + 2, indices, positions_ref, normals_ref, uvs_ref, Ghost(order));
            proof {
                order = order.push(wedge_idx + i + 2);
            }
            out.push(wedge_idx + i + 1, indices, positions_ref, normals_ref, uvs_ref, Ghost(order));
            proof {
                order = order.push(wedge_idx + i + 1);
                assert(order =~= start + seq![
                    wedge_idx as int,
                    wedge_idx + i + 2,
                    wedge_idx + i + 1,
                ]);
            }
            i += 1;
        }
        wedge_idx = wedge_idx + n;
        f += 1;
    }
    proof {
        assert(counts@.take(counts.len() as int) == counts@);
        lemma_corner_wedges(counts@);
    }
    (out.positions, out.normals, out.uvs, out.numbers)
}

} // verus!
