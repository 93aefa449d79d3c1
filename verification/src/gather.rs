//! Selecting, repeating and spreading the values of attribute arrays.

use crate::counts::{face_start, total};
use crate::mesh::opt_view;
use vstd::prelude::*;

verus! {

/// Whether every index is below `bound`.
pub open spec fn all_below(indices: Seq<usize>, bound: nat) -> bool {
    forall|i: int| 0 <= i < indices.len() ==> indices[i] < bound
}

/// Whether `at` is the first place of an index that is not below `bound`.
pub open spec fn first_out_of_range(indices: Seq<usize>, bound: nat, at: int) -> bool {
    &&& 0 <= at < indices.len()
    &&& indices[at] >= bound
    &&& forall|i: int| 0 <= i < at ==> indices[i] < bound
}

/// Finds the first index that is not below `bound`.
pub fn find_out_of_range(indices: &Vec<usize>, bound: usize) -> (r: Option<usize>)
    ensures
        match r {
            Some(at) => first_out_of_range(indices@, bound as nat, at as int),
            None => all_below(indices@, bound as nat),
        },
{
    let mut i: usize = 0;
    while i < indices.len()
        invariant
            i <= indices.len(),
            forall|k: int| 0 <= k < i ==> indices[k] < bound,
        decreases indices.len() - i,
    {
        if indices[i] >= bound {
            return Some(i);
        }
        i += 1;
    }
    None
}

/// The values that the indices select, one per index; it is meant for indices
/// that are all in range.
pub open spec fn picked<T>(values: Seq<T>, indices: Seq<usize>) -> Seq<T> {
    Seq::new(indices.len(), |i: int| values[indices[i] as int])
}

/// The values that the indices select, one per index, where every index is in
/// range; nothing where one is not.
pub open spec fn sampled<T>(values: Seq<T>, indices: Seq<usize>) -> Option<Seq<T>> {
    if all_below(indices, values.len()) {
        Some(picked(values, indices))
    } else {
        None
    }
}

/// The values that the indices select, one per index, with `default` in the
/// place of every index that is out of range.
pub open spec fn gathered<T>(values: Seq<T>, indices: Seq<usize>, default: T) -> Seq<T> {
    Seq::new(
        indices.len(),
        |i: int|
            if indices[i] < values.len() {
                values[indices[i] as int]
            } else {
                default
            },
    )
}

/// `n` copies of one value.
pub open spec fn repeated<T>(value: T, n: nat) -> Seq<T> {
    Seq::new(n, |k: int| value)
}

/// One value per wedge from one value per polygon: the value of polygon `f`
/// stands `counts[f]` times, in the order of the polygons.
pub open spec fn spread<T>(counts: Seq<usize>, per_face: Seq<T>) -> Seq<T>
    decreases counts.len(),
{
    if counts.len() == 0 {
        Seq::empty()
    } else {
        spread(counts.drop_last(), per_face) + repeated(
            per_face[counts.len() - 1],
            counts.last() as nat,
        )
    }
}

/// A spread holds one value per wedge.
pub proof fn lemma_spread_len<T>(counts: Seq<usize>, per_face: Seq<T>)
    ensures
        spread(counts, per_face).len() == total(counts),
    decreases counts.len(),
{
    if counts.len() > 0 {
        lemma_spread_len(counts.drop_last(), per_face);
    }
}

/// In a spread, corner `k` of polygon `f` holds the value of polygon `f`.
pub proof fn lemma_spread_at<T>(counts: Seq<usize>, per_face: Seq<T>, f: int, k: int)
    requires
        0 <= f < counts.len(),
        0 <= k < counts[f],
    ensures
        face_start(counts, f) + k < total(counts),
        spread(counts, per_face)[face_start(counts, f) + k] == per_face[f],
    decreases counts.len(),
{
    let init = counts.drop_last();
    let last = counts.len() - 1;
    lemma_spread_len(init, per_face);
    if f < last {
        lemma_spread_at(init, per_face, f, k);
        assert(counts.take(f) == init.take(f));
    }
}

/// The values that the indices select, or nothing where an index is out of
/// range.
pub fn sample_normals<T: Copy>(values: &Vec<T>, indices: &Vec<usize>) -> (r: Option<Vec<T>>)
    ensures
        opt_view(r) == sampled(values@, indices@),
{
    let mut out: Vec<T> = Vec::new();
    let mut i: usize = 0;
    while i < indices.len()
        invariant
            i <= indices.len(),
            out@.len() == i,
            forall|k: int| 0 <= k < i ==> indices[k] < values.len(),
            forall|k: int| 0 <= k < i ==> out@[k] == values@[indices@[k] as int],
        decreases indices.len() - i,
    {
        let idx: usize = indices[i];
        if idx >= values.len() {
            return None;
        }
        out.push(values[idx]);
        i += 1;
    }
    proof {
        assert(out@ =~= sampled(values@, indices@)->0);
    }
    Some(out)
}

/// The values that the indices select, with `default` for every index that is
/// out of range.
pub fn gather_or<T: Copy>(values: &Vec<T>, indices: &Vec<usize>, default: T) -> (r: Vec<T>)
    ensures
        r@ == gathered(values@, indices@, default),
{
    let mut out: Vec<T> = Vec::new();
    let mut i: usize = 0;
    while i < indices.len()
        invariant
            i <= indices.len(),
            out@ == gathered(values@, indices@, default).subrange(0, i as int),
        decreases indices.len() - i,
    {
        let idx: usize = indices[i];
        if idx < values.len() {
            out.push(values[idx]);
        } else {
            out.push(default);
        }
        i += 1;
    }
    out
}

/// Appends `n` copies of a value.
pub fn push_copies<T: Copy>(out: &mut Vec<T>, value: T, n: usize)
    ensures
        final(out)@ == old(out)@ + repeated(value, n as nat),
{
    let mut k: usize = 0;
    while k < n
        invariant
            k <= n,
            out@ == old(out)@ + repeated(value, k as nat),
        decreases n - k,
    {
        out.push(value);
        k += 1;
        proof {
            assert(out@ =~= old(out)@ + repeated(value, k as nat));
        }
    }
}

/// `n` copies of a value.
pub fn repeat<T: Copy>(value: T, n: usize) -> (r: Vec<T>)
    ensures
        r@ == repeated(value, n as nat),
{
    let mut out: Vec<T> = Vec::new();
    push_copies(&mut out, value, n);
    proof {
        assert(out@ =~= repeated(value, n as nat));
    }
    out
}

/// Gives each wedge the value of its polygon.
pub fn spread_per_face<T: Copy>(counts: &Vec<usize>, per_face: &Vec<T>) -> (r: Vec<T>)
    requires
        per_face.len() == counts.len(),
    ensures
        r@ == spread(counts@, per_face@),
{
    let mut out: Vec<T> = Vec::new();
    let mut f: usize = 0;
    while f < counts.len()
        invariant
            f <= counts.len(),
            per_face.len() == counts.len(),
            out@ == spread(counts@.take(f as int), per_face@),
        decreases counts.len() - f,
    {
        proof {
            assert(counts@.take(f as int + 1).drop_last() == counts@.take(f as int));
        }
        push_copies(&mut out, per_face[f], counts[f]);
        f += 1;
    }
    proof {
        assert(counts@.take(counts.len() as int) == counts@);
    }
    out
}

} // verus!
