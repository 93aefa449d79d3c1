//! Classification of interpolation tokens.

use vstd::prelude::*;
use vstd::utf8::{encode_utf8, encode_utf8_decode_utf8};

verus! {

/// How the entries of an attribute array are assigned to the elements of a mesh.
#[derive(Debug, Clone, Copy, PartialEq, Eq, Structural)]
pub enum PrimvarInterpolation {
    /// One entry per vertex.
    Vertex,
    /// One entry per vertex; treated like `Vertex`.
    Varying,
    /// One entry per polygon corner.
    FaceVarying,
    /// One entry per polygon.
    Uniform,
    /// One entry for the whole mesh.
    Constant,
    /// The token names none of the known modes.
    Unknown,
}

/// Two strings with the same UTF-8 encoding hold the same characters.
pub proof fn lemma_utf8_injective(a: Seq<char>, b: Seq<char>)
    requires
        encode_utf8(a) == encode_utf8(b),
    ensures
        a == b,
{
    encode_utf8_decode_utf8(a);
    encode_utf8_decode_utf8(b);
}

/// Whether two strings hold the same characters.
pub fn same_text(a: &str, b: &str) -> (r: bool)
    ensures
        r == (a@ == b@),
{
    let x = a.as_bytes();
    let y = b.as_bytes();
    if x.len() != y.len() {
        return false;
    }
    let mut i: usize = 0;
    while i < x.len()
        invariant
            i <= x.len(),
            x@.len() == y@.len(),
            x@ == encode_utf8(a@),
            y@ == encode_utf8(b@),
            forall|k: int| 0 <= k < i ==> x@[k] == y@[k],
        decreases x.len() - i,
    {
        if x[i] != y[i] {
            return false;
        }
        i += 1;
    }
    proof {
        assert(x@ =~= y@);
        lemma_utf8_injective(a@, b@);
    }
    true
}

impl PrimvarInterpolation {
    /// The mode that a token names: an exact match of one of the five known
    /// tokens, and `Unknown` for every other string.
    pub open spec fn classify(token: Seq<char>) -> PrimvarInterpolation {
        if token == "vertex"@ {
            PrimvarInterpolation::Vertex
        } else if token == "varying"@ {
            PrimvarInterpolation::Varying
        } else if token == "faceVarying"@ {
            PrimvarInterpolation::FaceVarying
        } else if token == "uniform"@ {
            PrimvarInterpolation::Uniform
        } else if token == "constant"@ {
            PrimvarInterpolation::Constant
        } else {
            PrimvarInterpolation::Unknown
        }
    }

    /// Classifies a raw interpolation token.
    pub fn from_token(token: &str) -> (r: Self)
        ensures
            r == Self::classify(token@),
    {
        if same_text(token, "vertex") {
            PrimvarInterpolation::Vertex
        } else if same_text(token, "varying") {
            PrimvarInterpolation::Varying
        } else if same_text(token, "faceVarying") {
            PrimvarInterpolation::FaceVarying
        } else if same_text(token, "uniform") {
            PrimvarInterpolation::Uniform
        } else if same_text(token, "constant") {
            PrimvarInterpolation::Constant
        } else {
            PrimvarInterpolation::Unknown
        }
    }
}

} // verus!
