//! Scene flattening and mesh tessellation for hierarchical scene descriptions.
//!
//! A scene description is a tree of nodes with local transforms, meshes and
//! point instancers. The library turns it into a flat scene, a list of distinct
//! meshes and one instance per occurrence of a mesh, and turns each mesh into
//! a triangle list with one position, normal and texture coordinate per
//! triangle corner.
//!
//! Every scalar of the scene (a coordinate, a matrix entry) is carried as the
//! bit pattern of its IEEE-754 encoding: `u32` for single precision, `u64` for
//! double precision. The library moves, selects and duplicates those values; it
//! never computes with them. Where a number has to be computed, the caller
//! does it: it multiplies the transform steps that [`flatten::traverse`] records
//! into world transforms for [`scene::build_scene`], and it hands the geometric
//! normal of each polygon to [`wedge::meshdata_to_streams`].

pub mod counts;
pub mod document;
pub mod flatten;
pub mod frames;
pub mod gather;
pub mod interpolation;
pub mod matrix;
pub mod mesh;
pub mod normals;
pub mod scene;
pub mod triangulate;
pub mod walk;
pub mod wedge;
