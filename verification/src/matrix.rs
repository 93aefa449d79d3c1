//! 4x4 matrices of scalar bit patterns: layouts and rearrangements.

use vstd::prelude::*;

verus! {

/// A row-major 4x4 matrix of double-precision scalars: `m[row][col]`.
pub type Matrix4dBits = [[u64; 4]; 4];

/// A row-major 4x4 matrix of single-precision scalars: `m[row][col]`.
pub type Matrix4fBits = [[u32; 4]; 4];

/// The bit pattern of the double-precision scalar `1.0`.
pub const ONE_F64: u64 = 0x3FF0_0000_0000_0000u64;

/// The bit pattern of the single-precision scalar `1.0`.
pub const ONE_F32: u32 = 0x3F80_0000u32;

/// The double-precision identity matrix.
pub open spec fn identity_matrix() -> Matrix4dBits {
    [
        [ONE_F64, 0u64, 0u64, 0u64],
        [0u64, ONE_F64, 0u64, 0u64],
        [0u64, 0u64, ONE_F64, 0u64],
        [0u64, 0u64, 0u64, ONE_F64],
    ]
}

/// The matrix with rows and columns exchanged.
pub open spec fn transposed<T>(m: [[T; 4]; 4]) -> [[T; 4]; 4] {
    [
        [m[0][0], m[1][0], m[2][0], m[3][0]],
        [m[0][1], m[1][1], m[2][1], m[3][1]],
        [m[0][2], m[1][2], m[2][2], m[3][2]],
        [m[0][3], m[1][3], m[2][3], m[3][3]],
    ]
}

/// The entries of a row-major matrix as one array in column-major order:
/// entry `col * 4 + row` is `m[row][col]`.
pub open spec fn cols_array<T>(m: [[T; 4]; 4]) -> [T; 16] {
    [
        m[0][0],
        m[1][0],
        m[2][0],
        m[3][0],
        m[0][1],
        m[1][1],
        m[2][1],
        m[3][1],
        m[0][2],
        m[1][2],
        m[2][2],
        m[3][2],
        m[0][3],
        m[1][3],
        m[2][3],
        m[3][3],
    ]
}

/// The row-major matrix of an array in column-major order: `m[row][col]` is
/// entry `col * 4 + row`.
pub open spec fn rows_of_cols<T>(cols: [T; 16]) -> [[T; 4]; 4] {
    [
        [cols[0], cols[4], cols[8], cols[12]],
        [cols[1], cols[5], cols[9], cols[13]],
        [cols[2], cols[6], cols[10], cols[14]],
        [cols[3], cols[7], cols[11], cols[15]],
    ]
}

/// The double-precision identity matrix.
pub fn identity() -> (r: Matrix4dBits)
    ensures
        r == identity_matrix(),
{
    [
        [ONE_F64, 0u64, 0u64, 0u64],
        [0u64, ONE_F64, 0u64, 0u64],
        [0u64, 0u64, ONE_F64, 0u64],
        [0u64, 0u64, 0u64, ONE_F64],
    ]
}

/// Exchanges rows and columns.
pub fn transpose<T: Copy>(m: &[[T; 4]; 4]) -> (r: [[T; 4]; 4])
    ensures
        r == transposed(*m),
        forall|row: int, col: int|
            0 <= row < 4 && 0 <= col < 4 ==> #[trigger] r[row][col] == m[col][row],
{
    [
        [m[0][0], m[1][0], m[2][0], m[3][0]],
        [m[0][1], m[1][1], m[2][1], m[3][1]],
        [m[0][2], m[1][2], m[2][2], m[3][2]],
        [m[0][3], m[1][3], m[2][3], m[3][3]],
    ]
}

/// Lays a row-major matrix out as one array in column-major order.
pub fn to_cols_array<T: Copy>(m: &[[T; 4]; 4]) -> (r: [T; 16])
    ensures
        r == cols_array(*m),
        forall|row: int, col: int|
            0 <= row < 4 && 0 <= col < 4 ==> r[col * 4 + row] == #[trigger] m[row][col],
{
    [
        m[0][0],
        m[1][0],
        m[2][0],
        m[3][0],
        m[0][1],
        m[1][1],
        m[2][1],
        m[3][1],
        m[0][2],
        m[1][2],
        m[2][2],
        m[3][2],
        m[0][3],
        m[1][3],
        m[2][3],
        m[3][3],
    ]
}

/// Reads an array in column-major order as a row-major matrix.
pub fn from_cols_array<T: Copy>(cols: &[T; 16]) -> (r: [[T; 4]; 4])
    ensures
        r == rows_of_cols(*cols),
        forall|row: int, col: int|
            0 <= row < 4 && 0 <= col < 4 ==> #[trigger] r[row][col] == cols[col * 4 + row],
{
    [
        [cols[0], cols[4], cols[8], cols[12]],
        [cols[1], cols[5], cols[9], cols[13]],
        [cols[2], cols[6], cols[10], cols[14]],
        [cols[3], cols[7], cols[11], cols[15]],
    ]
}

/// Transposing twice gives the matrix back.
pub proof fn lemma_transpose_involution<T>(m: [[T; 4]; 4])
    ensures
        transposed(transposed(m)) == m,
{
    let t = transposed(transposed(m));
    assert forall|row: int| 0 <= row < 4 implies t[row] == m[row] by {
        assert(t[row]@ =~= m[row]@);
    }
}

/// A matrix laid out in column-major order and read back is the same matrix.
pub proof fn lemma_cols_round_trip<T>(m: [[T; 4]; 4])
    ensures
        rows_of_cols(cols_array(m)) == m,
{
    let t = rows_of_cols(cols_array(m));
    assert forall|row: int| 0 <= row < 4 implies t[row] == m[row] by {
        assert(t[row]@ =~= m[row]@);
    }
}

} // verus!
