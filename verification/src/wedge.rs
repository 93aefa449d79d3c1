//! Conversion of a mesh record to a triangle list.
//!
//! A wedge is one corner of one polygon. The wedges of a mesh are numbered in
//! the order of `face_vertex_indices`: the corners of the first polygon, then
//! those of the second, and so on. Positions, normals and texture coordinates
//! are first resolved to the wedges; the polygons are then fan-triangulated,
//! and every triangle corner gets its own entry in each stream.

use crate::counts::{
    clip_face_counts, count_triangles, counts_in_use, face_start, lemma_clipped_counts,
    lemma_total_take, total, triangle_total,
};
use crate::gather::{
    all_below, find_out_of_range, first_out_of_range, gather_or, gathered, picked, repeat,
    repeated,
};
use crate::mesh::{copy_vec, MeshData, MeshView, Vec2Bits, Vec3Bits};
use crate::normals::{expand_normals_to_wedges, lemma_wedge_normals_len, wedge_normals};
use crate::triangulate::{
    corner_wedges, lemma_corner_wedges, sequential, sequential_ids, triangulate,
};
use vstd::prelude::*;

verus! {

/// The zero texture coordinate, `(0, 0)`.
pub open spec fn zero_uv() -> Vec2Bits {
    [0u32, 0u32]
}

/// The wedge texture coordinates of a mesh: the authored ones where there is one
/// per wedge; those of each wedge's vertex where there is one per vertex; zero
/// on every wedge otherwise.
pub open spec fn wedge_uvs(m: MeshView) -> Seq<Vec2Bits> {
    let wedges = m.face_vertex_indices.len();
    match m.uvs {
        Some(uvs) => if uvs.len() == wedges {
            uvs
        } else if uvs.len() == m.positions.len() {
            gathered(uvs, m.face_vertex_indices, zero_uv())
        } else {
            repeated(zero_uv(), wedges)
        },
        None => repeated(zero_uv(), wedges),
    }
}

/// Resolves the texture coordinates of a mesh to its wedges.
pub fn expand_uvs_to_wedges(mesh: &MeshData) -> (r: Vec<Vec2Bits>)
    ensures
        r@ == wedge_uvs(mesh@),
{
    let wedge_count: usize = mesh.face_vertex_indices.len();
    let zero: Vec2Bits = [0u32, 0u32];
    match &mesh.uvs {
        Some(uvs) => if uvs.len() == wedge_count {
            copy_vec(uvs)
        } else if uvs.len() == mesh.positions.len() {
            gather_or(uvs, &mesh.face_vertex_indices, zero)
        } else {
            repeat(zero, wedge_count)
        },
        None => repeat(zero, wedge_count),
    }
}

/// Why a mesh cannot be converted.
#[derive(Debug, Clone, Copy, PartialEq, Eq)]
pub enum MeshError {
    /// Wedge `wedge` is the first whose vertex index is not below the number of
    /// positions.
    IndexOutOfRange { wedge: usize, vertex: usize, vertex_count: usize },
    /// The caller handed in `face_normals` face normals for a mesh of `polygons`
    /// polygons; there has to be one for each.
    FaceNormalCount { polygons: usize, face_normals: usize },
    /// The mesh has more wedges, or gives more triangle corners, than a 32-bit
    /// index can number.
    TooManyCorners,
}

/// The four flat streams of a triangle list. Entry `j` of each of the first
/// three belongs to triangle corner `j`; `indices` numbers the corners.
#[derive(Debug, Clone, PartialEq, Eq)]
pub struct TriangleStreams {
    pub positions: Vec<Vec3Bits>,
    pub normals: Vec<Vec3Bits>,
    pub uvs: Vec<Vec2Bits>,
    pub indices: Vec<u32>,
}

/// The mathematical content of [`TriangleStreams`].
pub ghost struct StreamsView {
    pub positions: Seq<Vec3Bits>,
    pub normals: Seq<Vec3Bits>,
    pub uvs: Seq<Vec2Bits>,
    pub indices: Seq<u32>,
}

impl View for TriangleStreams {
    type V = StreamsView;

    open spec fn view(&self) -> StreamsView {
        StreamsView {
            positions: self.positions@,
            normals: self.normals@,
            uvs: self.uvs@,
            indices: self.indices@,
        }
    }
}

/// Whether every wedge of a mesh names a vertex that the mesh has.
pub open spec fn indices_valid(m: MeshView) -> bool {
    all_below(m.face_vertex_indices, m.positions.len())
}

/// Whether 32-bit indices can number the wedges of a mesh and the corners of
/// its triangles.
pub open spec fn fits_index_width(m: MeshView) -> bool {
    &&& m.face_vertex_indices.len() <= u32::MAX
    &&& 3 * triangle_total(counts_in_use(m)) <= u32::MAX
}

/// The error that a mesh with an invalid wedge gives: it names the first such
/// wedge, the vertex index found there, and the number of vertices.
pub open spec fn is_index_error(m: MeshView, e: MeshError) -> bool {
    match e {
        MeshError::IndexOutOfRange { wedge, vertex, vertex_count } => {
            &&& first_out_of_range(m.face_vertex_indices, m.positions.len(), wedge as int)
            &&& vertex == m.face_vertex_indices[wedge as int]
            &&& vertex_count == m.positions.len()
        },
        _ => false,
    }
}

/// Whether there is one face normal for each polygon of a mesh.
pub open spec fn one_per_polygon(m: MeshView, face_normals: Seq<Vec3Bits>) -> bool {
    face_normals.len() == m.face_vertex_counts.len()
}

/// The values of a wedge stream at the triangle corners.
pub open spec fn at_corners<T>(stream: Seq<T>, order: Seq<int>) -> Seq<T> {
    Seq::new(order.len(), |j: int| stream[order[j]])
}

/// The triangle list of a mesh: the wedge positions, wedge normals and wedge
/// texture coordinates at the triangle corners of the fan triangulation, and
/// the corner numbers.
pub open spec fn streams_of(m: MeshView, face_normals: Seq<Vec3Bits>) -> StreamsView {
    let order = corner_wedges(counts_in_use(m));
    StreamsView {
        positions: at_corners(picked(m.positions, m.face_vertex_indices), order),
        normals: at_corners(wedge_normals(m, face_normals), order),
        uvs: at_corners(wedge_uvs(m), order),
        indices: sequential(order.len()),
    }
}

/// The corner positions of polygon `f` where it has at least three corners in
/// use, in the order of its corners; nothing for a polygon with fewer.
pub open spec fn polygon_corners(m: MeshView, f: int) -> Seq<Vec3Bits> {
    let counts = counts_in_use(m);
    if counts[f] >= 3 {
        Seq::new(
            counts[f] as nat,
            |k: int| m.positions[m.face_vertex_indices[face_start(counts, f) + k] as int],
        )
    } else {
        Seq::empty()
    }
}

/// Converts a mesh to a triangle list: validates the vertex indices, resolves
/// positions, normals and texture coordinates to the wedges, and
/// fan-triangulates the polygons.
///
/// `face_normals` holds one entry per polygon, the geometric normal of the
/// polygon, used where normals are synthesized. The conversion is refused where
/// a wedge names a vertex that the mesh does not have, where there is not one
/// face normal per polygon, and where 32-bit indices cannot number the result,
/// in this order. Corner counts whose sum differs from the number of wedges are
/// cut down to the wedge stream.
pub fn meshdata_to_streams(mesh: &MeshData, face_normals: &Vec<Vec3Bits>) -> (r: Result<
    TriangleStreams,
    MeshError,
>)
    ensures
        !indices_valid(mesh@) ==> r is Err && is_index_error(mesh@, r->Err_0),
        indices_valid(mesh@) && !one_per_polygon(mesh@, face_normals@) ==> r == Err::<
            TriangleStreams,
            MeshError,
        >(
            MeshError::FaceNormalCount {
                polygons: mesh.face_vertex_counts.len(),
                face_normals: face_normals.len(),
            },
        ),
        indices_valid(mesh@) && one_per_polygon(mesh@, face_normals@) && !fits_index_width(mesh@)
            ==> r == Err::<TriangleStreams, MeshError>(MeshError::TooManyCorners),
        indices_valid(mesh@) && one_per_polygon(mesh@, face_normals@) && fits_index_width(mesh@)
            ==> r is Ok && r->Ok_0@ == streams_of(mesh@, face_normals@),
        r matches Ok(streams) ==> {
            let corners = 3 * triangle_total(counts_in_use(mesh@));
            &&& streams.positions@.len() == corners
            &&& streams.normals@.len() == corners
            &&& streams.uvs@.len() == corners
            &&& streams.indices@.len() == corners
        },
{
    let vertex_count: usize = mesh.positions.len();
    let wedge_count: usize = mesh.face_vertex_indices.len();
    match find_out_of_range(&mesh.face_vertex_indices, vertex_count) {
        Some(wedge) => {
            return Err(
                MeshError::IndexOutOfRange {
                    wedge,
                    vertex: mesh.face_vertex_indices[wedge],
                    vertex_count,
                },
            );
        },
        None => {},
    }
    if face_normals.len() != mesh.face_vertex_counts.len() {
        return Err(
            MeshError::FaceNormalCount {
                polygons: mesh.face_vertex_counts.len(),
                face_normals: face_normals.len(),
            },
        );
    }
    if wedge_count > 0xFFFF_FFFF {
        return Err(MeshError::TooManyCorners);
    }
    let counts = clip_face_counts(&mesh.face_vertex_counts, wedge_count);
    if count_triangles(&counts).is_none() {
        return Err(MeshError::TooManyCorners);
    }
    let wedge_positions = gather_or(&mesh.positions, &mesh.face_vertex_indices, [0u32, 0u32, 0u32]);
    let wedge_normals = expand_normals_to_wedges(mesh, face_normals);
    let wedge_uvs = expand_uvs_to_wedges(mesh);
    let wedge_ids = sequential_ids(wedge_count);
    proof {
        lemma_wedge_normals_len(mesh@, face_normals@);
        assert(wedge_positions@ =~= picked(mesh@.positions, mesh@.face_vertex_indices));
    }
    let (positions, normals, uvs, indices) = triangulate(
        &counts,
        &wedge_ids,
        &wedge_positions,
        &wedge_normals,
        &wedge_uvs,
    );
    proof {
        let order = corner_wedges(counts@);
        lemma_corner_wedges(counts@);
        lemma_streams_aligned(mesh@, face_normals@);
        assert(positions@ =~= at_corners(wedge_positions@, order));
        assert(normals@ =~= at_corners(wedge_normals@, order));
        assert(uvs@ =~= at_corners(wedge_uvs@, order));
    }
    Ok(TriangleStreams { positions, normals, uvs, indices })
}

/// Hands out, for each polygon, what a face normal is computed from: the
/// positions of its corners, or nothing where the polygon has fewer than three.
///
/// It is refused where a wedge names a vertex that the mesh does not have.
pub fn face_corner_positions(mesh: &MeshData) -> (r: Result<Vec<Vec<Vec3Bits>>, MeshError>)
    ensures
        indices_valid(mesh@) ==> r is Ok && r->Ok_0@.len() == mesh@.face_vertex_counts.len()
            && forall|f: int|
            0 <= f < mesh@.face_vertex_counts.len() ==> (#[trigger] r->Ok_0@[f])@
                == polygon_corners(mesh@, f),
        !indices_valid(mesh@) ==> r is Err && is_index_error(mesh@, r->Err_0),
{
    let vertex_count: usize = mesh.positions.len();
    let wedge_count: usize = mesh.face_vertex_indices.len();
    match find_out_of_range(&mesh.face_vertex_indices, vertex_count) {
        Some(wedge) => {
            return Err(
                MeshError::IndexOutOfRange {
                    wedge,
                    vertex: mesh.face_vertex_indices[wedge],
                    vertex_count,
                },
            );
        },
        None => {},
    }
    let counts = clip_face_counts(&mesh.face_vertex_counts, wedge_count);
    proof {
        lemma_clipped_counts(mesh@.face_vertex_counts, wedge_count as nat);
    }
    let mut fans: Vec<Vec<Vec3Bits>> = Vec::new();
    let mut cursor: usize = 0;
    let mut f: usize = 0;
    while f < counts.len()
        invariant
            f <= counts.len(),
            counts@ == counts_in_use(mesh@),
            indices_valid(mesh@),
            total(counts@) <= mesh.face_vertex_indices.len(),
            cursor == face_start(counts@, f as int),
            cursor <= total(counts@),
            fans@.len() == f,
            forall|g: int| 0 <= g < f ==> (#[trigger] fans@[g])@ == polygon_corners(mesh@, g),
        decreases counts.len() - f,
    {
        let n: usize = counts[f];
        proof {
            lemma_total_take(counts@, f as int);
        }
        let mut corners: Vec<Vec3Bits> = Vec::new();
        if n >= 3 {
            let mut k: usize = 0;
            while k < n
                invariant
                    k <= n,
                    n >= 3,
                    f < counts.len(),
                    n == counts@[f as int],
                    counts@ == counts_in_use(mesh@),
                    indices_valid(mesh@),
                    total(counts@) <= mesh.face_vertex_indices.len(),
                    cursor == face_start(counts@, f as int),
                    cursor + n <= total(counts@),
                    corners@ == polygon_corners(mesh@, f as int).subrange(0, k as int),
                decreases n - k,
            {
                let vertex: usize = mesh.face_vertex_indices[cursor + k];
                corners.push(mesh.positions[vertex]);
                k += 1;
            }
        }
        proof {
            assert(corners@ =~= polygon_corners(mesh@, f as int));
        }
        fans.push(corners);
        cursor = cursor + n;
        f += 1;
    }
    Ok(fans)
}

/// The flat streams of a triangle list have one entry per triangle corner:
/// three for each triangle of each polygon in use.
pub proof fn lemma_streams_aligned(m: MeshView, face_normals: Seq<Vec3Bits>)
    ensures
        streams_of(m, face_normals).positions.len() == 3 * triangle_total(counts_in_use(m)),
        streams_of(m, face_normals).normals.len() == 3 * triangle_total(counts_in_use(m)),
        streams_of(m, face_normals).uvs.len() == 3 * triangle_total(counts_in_use(m)),
        streams_of(m, face_normals).indices.len() == 3 * triangle_total(counts_in_use(m)),
{
    lemma_corner_wedges(counts_in_use(m));
}

/// For a mesh whose corner counts add up to its number of wedges, the flat
/// position, normal and texture-coordinate streams have the same length, and
/// that length is three times the sum of `max(count - 2, 0)` over its polygons.
pub proof fn lemma_stream_lengths(m: MeshView, face_normals: Seq<Vec3Bits>)
    requires
        total(m.face_vertex_counts) == m.face_vertex_indices.len(),
    ensures
        streams_of(m, face_normals).positions.len() == 3 * triangle_total(m.face_vertex_counts),
        streams_of(m, face_normals).normals.len() == 3 * triangle_total(m.face_vertex_counts),
        streams_of(m, face_normals).uvs.len() == 3 * triangle_total(m.face_vertex_counts),
        streams_of(m, face_normals).indices.len() == 3 * triangle_total(m.face_vertex_counts),
{
    lemma_clipped_counts(m.face_vertex_counts, m.face_vertex_indices.len());
    lemma_streams_aligned(m, face_normals);
}

} // verus!
