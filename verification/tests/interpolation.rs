use usd_scene::document::PrimType;
use usd_scene::interpolation::{same_text, PrimvarInterpolation};

#[test]
fn known_tokens_are_classified() {
    assert_eq!(PrimvarInterpolation::from_token("vertex"), PrimvarInterpolation::Vertex);
    assert_eq!(PrimvarInterpolation::from_token("varying"), PrimvarInterpolation::Varying);
    assert_eq!(PrimvarInterpolation::from_token("faceVarying"), PrimvarInterpolation::FaceVarying);
    assert_eq!(PrimvarInterpolation::from_token("uniform"), PrimvarInterpolation::Uniform);
    assert_eq!(PrimvarInterpolation::from_token("constant"), PrimvarInterpolation::Constant);
}

#[test]
fn other_tokens_are_unknown() {
    assert_eq!(PrimvarInterpolation::from_token(""), PrimvarInterpolation::Unknown);
    assert_eq!(PrimvarInterpolation::from_token("Vertex"), PrimvarInterpolation::Unknown);
    assert_eq!(PrimvarInterpolation::from_token("vertex "), PrimvarInterpolation::Unknown);
    assert_eq!(PrimvarInterpolation::from_token("facevarying"), PrimvarInterpolation::Unknown);
    assert_eq!(PrimvarInterpolation::from_token("vertexx"), PrimvarInterpolation::Unknown);
    assert_eq!(PrimvarInterpolation::from_token("verte"), PrimvarInterpolation::Unknown);
    assert_eq!(PrimvarInterpolation::from_token("instance"), PrimvarInterpolation::Unknown);
    assert_eq!(PrimvarInterpolation::from_token("uniförm"), PrimvarInterpolation::Unknown);
}

#[test]
fn same_text_compares_contents() {
    assert!(same_text("", ""));
    assert!(same_text("faceVarying", "faceVarying"));
    assert!(!same_text("faceVarying", "faceVaryinG"));
    assert!(!same_text("abc", "abcd"));
    assert!(!same_text("abcd", "abc"));
    assert!(same_text("é/ü", "é/ü"));
    assert!(!same_text("é", "e"));
}

#[test]
fn type_names_are_classified() {
    assert_eq!(PrimType::from_name("Mesh"), PrimType::Mesh);
    assert_eq!(PrimType::from_name("PointInstancer"), PrimType::PointInstancer);
    assert_eq!(PrimType::from_name("Xform"), PrimType::Other);
    assert_eq!(PrimType::from_name("Scope"), PrimType::Other);
    assert_eq!(PrimType::from_name(""), PrimType::Other);
    assert_eq!(PrimType::from_name("mesh"), PrimType::Other);
    assert_eq!(PrimType::from_name("Meshes"), PrimType::Other);
}
