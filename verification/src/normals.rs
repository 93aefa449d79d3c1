//! Wedge normals: authored normals by interpolation mode, and synthesized
//! normals where the authored ones are missing or do not fit.

use crate::counts::{
    clip_face_counts, counts_in_use, face_start, lemma_clipped_counts, total,
};
use crate::gather::{
    gather_or, gathered, lemma_spread_at, lemma_spread_len, repeat, repeated, sample_normals,
    sampled, spread, spread_per_face,
};
use crate::interpolation::PrimvarInterpolation;
use crate::mesh::{copy_vec, opt_view, MeshData, MeshView, Vec3Bits};
use vstd::prelude::*;

verus! {

/// The unit vector of the up axis, `(0, 1, 0)`.
pub open spec fn up_axis() -> Vec3Bits {
    [0u32, 0x3F80_0000u32, 0u32]
}

/// The unit vector of the up axis.
pub fn up_axis_value() -> (r: Vec3Bits)
    ensures
        r == up_axis(),
{
    [0u32, 0x3F80_0000u32, 0u32]
}

/// The normal that synthesis gives each polygon: the face normal that the
/// caller computed for it where the polygon has at least three corners, and the
/// up axis where it has fewer. It is meant for one face normal per polygon.
pub open spec fn synthesized_per_face(counts: Seq<usize>, face_normals: Seq<Vec3Bits>) -> Seq<
    Vec3Bits,
> {
    Seq::new(
        counts.len(),
        |f: int|
            if counts[f] >= 3 {
                face_normals[f]
            } else {
                up_axis()
            },
    )
}

/// The synthesized wedge normals: every corner of a polygon holds the normal
/// that synthesis gives the polygon.
pub open spec fn synthesized_normals(counts: Seq<usize>, face_normals: Seq<Vec3Bits>) -> Seq<
    Vec3Bits,
> {
    spread(counts, synthesized_per_face(counts, face_normals))
}

/// Synthesizes wedge normals for a mesh without usable authored normals.
///
/// `face_normals` holds one entry per polygon: the geometric normal of the
/// polygon, which the caller computes from the corners that
/// [`crate::wedge::face_corner_positions`] hands out. A polygon with fewer than
/// three corners gets the up axis on each corner, whatever `face_normals` holds
/// for it.
pub fn generate_wedge_normals(face_vertex_counts: &Vec<usize>, face_normals: &Vec<Vec3Bits>) -> (r:
    Vec<Vec3Bits>)
    requires
        face_normals.len() == face_vertex_counts.len(),
    ensures
        r@ == synthesized_normals(face_vertex_counts@, face_normals@),
{
    let mut per_face: Vec<Vec3Bits> = Vec::new();
    let mut f: usize = 0;
    while f < face_vertex_counts.len()
        invariant
            f <= face_vertex_counts.len(),
            face_normals.len() == face_vertex_counts.len(),
            per_face@ == synthesized_per_face(face_vertex_counts@, face_normals@).subrange(
                0,
                f as int,
            ),
        decreases face_vertex_counts.len() - f,
    {
        if face_vertex_counts[f] >= 3 {
            per_face.push(face_normals[f]);
        } else {
            per_face.push(up_axis_value());
        }
        f += 1;
    }
    proof {
        assert(per_face@ =~= synthesized_per_face(face_vertex_counts@, face_normals@));
    }
    spread_per_face(face_vertex_counts, &per_face)
}

/// Face-varying normals on the wedges: with indices, one index per wedge; without,
/// one value per wedge.
pub open spec fn face_varying_normals(m: MeshView, values: Seq<Vec3Bits>) -> Option<Seq<Vec3Bits>> {
    let wedges = m.face_vertex_indices.len();
    match m.normal_indices {
        Some(indices) => if indices.len() == wedges {
            sampled(values, indices)
        } else {
            None
        },
        None => if values.len() == wedges {
            Some(values)
        } else {
            None
        },
    }
}

/// Per-vertex normals on the wedges. With indices: one index per vertex, whose
/// normals then go to the wedges by the vertex of each wedge, or else one index
/// per wedge. Without: one value per vertex, or else one value per wedge. A
/// wedge whose vertex has no normal gets the up axis.
pub open spec fn vertex_normals(m: MeshView, values: Seq<Vec3Bits>) -> Option<Seq<Vec3Bits>> {
    let wedges = m.face_vertex_indices.len();
    let vertices = m.positions.len();
    match m.normal_indices {
        Some(indices) => if indices.len() == vertices {
            match sampled(values, indices) {
                Some(per_vertex) => Some(gathered(per_vertex, m.face_vertex_indices, up_axis())),
                None => None,
            }
        } else if indices.len() == wedges {
            sampled(values, indices)
        } else {
            None
        },
        None => if values.len() == vertices {
            Some(gathered(values, m.face_vertex_indices, up_axis()))
        } else if values.len() == wedges {
            Some(values)
        } else {
            None
        },
    }
}

/// The per-polygon normals of a mesh with uniform interpolation: with indices,
/// one index per polygon; without, one value per polygon.
pub open spec fn uniform_per_face(m: MeshView, values: Seq<Vec3Bits>) -> Option<Seq<Vec3Bits>> {
    let faces = m.face_vertex_counts.len();
    match m.normal_indices {
        Some(indices) => if indices.len() == faces {
            sampled(values, indices)
        } else {
            None
        },
        None => if values.len() == faces {
            Some(values)
        } else {
            None
        },
    }
}

/// The one normal of a mesh with constant interpolation: with indices, the value
/// that the first index selects; without, the first value.
pub open spec fn constant_normal(m: MeshView, values: Seq<Vec3Bits>) -> Option<Vec3Bits> {
    match m.normal_indices {
        Some(indices) => if indices.len() > 0 && indices[0] < values.len() {
            Some(values[indices[0] as int])
        } else {
            None
        },
        None => if values.len() > 0 {
            Some(values[0])
        } else {
            None
        },
    }
}

/// The wedge normals that the authored normals of a mesh give, by interpolation
/// mode; nothing where the mesh has no normals, the mode is absent or unknown,
/// a size fits no scheme of the mode, or an index selects no value.
///
/// `counts` are the corner counts in use, one per polygon.
pub open spec fn authored_normals(m: MeshView, counts: Seq<usize>) -> Option<Seq<Vec3Bits>> {
    match (m.normals, m.normal_interpolation) {
        (Some(values), Some(mode)) => match mode {
            PrimvarInterpolation::FaceVarying => face_varying_normals(m, values),
            PrimvarInterpolation::Vertex | PrimvarInterpolation::Varying => vertex_normals(
                m,
                values,
            ),
            PrimvarInterpolation::Uniform => match uniform_per_face(m, values) {
                Some(per_face) => Some(spread(counts, per_face)),
                None => None,
            },
            PrimvarInterpolation::Constant => match constant_normal(m, values) {
                Some(normal) => Some(repeated(normal, m.face_vertex_indices.len())),
                None => None,
            },
            PrimvarInterpolation::Unknown => None,
        },
        _ => None,
    }
}

/// The wedge normals of a mesh: the authored ones where they resolve, the
/// synthesized ones where they do not.
pub open spec fn wedge_normals(m: MeshView, face_normals: Seq<Vec3Bits>) -> Seq<Vec3Bits> {
    match authored_normals(m, counts_in_use(m)) {
        Some(normals) => normals,
        None => synthesized_normals(counts_in_use(m), face_normals),
    }
}

/// Whether the sizes of the authored normals and their indices fit a scheme of
/// the interpolation mode.
pub open spec fn sizes_fit(m: MeshView) -> bool {
    let wedges = m.face_vertex_indices.len();
    let vertices = m.positions.len();
    let faces = m.face_vertex_counts.len();
    let given = match m.normal_indices {
        Some(indices) => indices.len(),
        None => match m.normals {
            Some(values) => values.len(),
            None => 0,
        },
    };
    match m.normal_interpolation {
        Some(PrimvarInterpolation::FaceVarying) => given == wedges,
        Some(PrimvarInterpolation::Vertex) | Some(PrimvarInterpolation::Varying) => given
            == vertices || given == wedges,
        Some(PrimvarInterpolation::Uniform) => given == faces,
        Some(PrimvarInterpolation::Constant) => given > 0,
        Some(PrimvarInterpolation::Unknown) | None => false,
    }
}

/// Resolves the authored normals of a mesh to its wedges, for the given corner
/// counts; `None` where they do not resolve.
pub fn resolve_authored_normals(mesh: &MeshData, counts: &Vec<usize>) -> (r: Option<Vec<Vec3Bits>>)
    requires
        counts.len() == mesh.face_vertex_counts.len(),
    ensures
        opt_view(r) == authored_normals(mesh@, counts@),
{
    let wedge_count: usize = mesh.face_vertex_indices.len();
    let vertex_count: usize = mesh.positions.len();
    let face_count: usize = mesh.face_vertex_counts.len();
    let values = match &mesh.normals {
        Some(values) => values,
        None => {
            return None;
        },
    };
    let mode = match mesh.normal_interpolation {
        Some(mode) => mode,
        None => {
            return None;
        },
    };
    match mode {
        PrimvarInterpolation::FaceVarying => match &mesh.normal_indices {
            Some(indices) => if indices.len() == wedge_count {
                sample_normals(values, indices)
            } else {
                None
            },
            None => if values.len() == wedge_count {
                Some(copy_vec(values))
            } else {
                None
            },
        },
        PrimvarInterpolation::Vertex | PrimvarInterpolation::Varying => match &mesh.normal_indices {
            Some(indices) => if indices.len() == vertex_count {
                match sample_normals(values, indices) {
                    Some(per_vertex) => Some(
                        gather_or(&per_vertex, &mesh.face_vertex_indices, up_axis_value()),
                    ),
                    None => None,
                }
            } else if indices.len() == wedge_count {
                sample_normals(values, indices)
            } else {
                None
            },
            None => if values.len() == vertex_count {
                Some(gather_or(values, &mesh.face_vertex_indices, up_axis_value()))
            } else if values.len() == wedge_count {
                Some(copy_vec(values))
            } else {
                None
            },
        },
        PrimvarInterpolation::Uniform => {
            let per_face = match &mesh.normal_indices {
                Some(indices) => if indices.len() == face_count {
                    sample_normals(values, indices)
                } else {
                    None
                },
                None => if values.len() == face_count {
                    Some(copy_vec(values))
                } else {
                    None
                },
            };
            match per_face {
                Some(per_face) => Some(spread_per_face(counts, &per_face)),
                None => None,
            }
        },
        PrimvarInterpolation::Constant => match &mesh.normal_indices {
            Some(indices) => if indices.len() > 0 && indices[0] < values.len() {
                Some(repeat(values[indices[0]], wedge_count))
            } else {
                None
            },
            None => if values.len() > 0 {
                Some(repeat(values[0], wedge_count))
            } else {
                None
            },
        },
        PrimvarInterpolation::Unknown => None,
    }
}

/// Resolves the normals of a mesh to its wedges: the authored normals by their
/// interpolation mode, and synthesized normals where the authored ones are
/// missing or do not fit.
///
/// `face_normals` holds one entry per polygon, the geometric normal of the
/// polygon; it is used only where normals are synthesized (see
/// [`generate_wedge_normals`]).
pub fn expand_normals_to_wedges(mesh: &MeshData, face_normals: &Vec<Vec3Bits>) -> (r: Vec<Vec3Bits>)
    requires
        face_normals.len() == mesh.face_vertex_counts.len(),
    ensures
        r@ == wedge_normals(mesh@, face_normals@),
{
    let counts = clip_face_counts(&mesh.face_vertex_counts, mesh.face_vertex_indices.len());
    proof {
        lemma_clipped_counts(mesh@.face_vertex_counts, mesh@.face_vertex_indices.len());
    }
    match resolve_authored_normals(mesh, &counts) {
        Some(normals) => normals,
        None => generate_wedge_normals(&counts, face_normals),
    }
}

/// The wedge normals of a mesh cover the wedges of all polygons in use.
pub proof fn lemma_wedge_normals_len(m: MeshView, face_normals: Seq<Vec3Bits>)
    ensures
        total(counts_in_use(m)) <= wedge_normals(m, face_normals).len(),
        total(counts_in_use(m)) <= m.face_vertex_indices.len(),
        counts_in_use(m).len() == m.face_vertex_counts.len(),
{
    let counts = counts_in_use(m);
    lemma_clipped_counts(m.face_vertex_counts, m.face_vertex_indices.len());
    lemma_spread_len(counts, synthesized_per_face(counts, face_normals));
    match authored_normals(m, counts) {
        Some(normals) => {
            let values = m.normals->0;
            match m.normal_interpolation->0 {
                PrimvarInterpolation::Uniform => {
                    lemma_spread_len(counts, uniform_per_face(m, values)->0);
                },
                _ => {},
            }
        },
        None => {},
    }
}

/// A mesh without authored normals, without a known interpolation mode, or
/// with sizes that fit no scheme of its mode gets the synthesized normals.
pub proof fn lemma_fallback_to_synthesis(m: MeshView, face_normals: Seq<Vec3Bits>)
    requires
        m.normals is None || !sizes_fit(m),
    ensures
        wedge_normals(m, face_normals) == synthesized_normals(counts_in_use(m), face_normals),
{
}

/// Where normals are synthesized, corner `k` of polygon `f` holds the face
/// normal handed in for `f` if the polygon has at least three corners in use,
/// and the up axis if it has fewer.
pub proof fn lemma_synthesized_normal_at(
    m: MeshView,
    face_normals: Seq<Vec3Bits>,
    f: int,
    k: int,
)
    requires
        authored_normals(m, counts_in_use(m)) is None,
        0 <= f < m.face_vertex_counts.len(),
        0 <= k < counts_in_use(m)[f],
    ensures
        face_start(counts_in_use(m), f) + k < wedge_normals(m, face_normals).len(),
        wedge_normals(m, face_normals)[face_start(counts_in_use(m), f) + k] == (if counts_in_use(
            m,
        )[f] >= 3 {
            face_normals[f]
        } else {
            up_axis()
        }),
{
    let counts = counts_in_use(m);
    lemma_clipped_counts(m.face_vertex_counts, m.face_vertex_indices.len());
    lemma_spread_len(counts, synthesized_per_face(counts, face_normals));
    lemma_spread_at(counts, synthesized_per_face(counts, face_normals), f, k);
}

} // verus!
