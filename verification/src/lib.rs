//! A streaming parser for the Wavefront OBJ geometry format and its companion
//! MTL material format.
//!
//! OBJ text is consumed line by line through [`Parser`], which accumulates
//! vertex data, rebases face indices into per-group index spaces, and drops
//! empty groups and objects.  Material libraries are parsed from MTL text into
//! a table of named [`Material`] records.  All numeric scalar values are kept
//! as their source tokens, so nothing is rounded away; callers convert tokens
//! to their preferred float type.

pub mod classify;
pub mod error;
pub mod laws;
pub mod mtl;
pub mod numbers;
pub mod obj;
pub mod parser;
pub mod text;
pub mod vr;

pub use error::Error;
pub use mtl::{Material, MaterialProperty};
pub use obj::{
    FaceIndexPair, FaceVertexPair, FaceVertices, Group, GroupFaces, Object, Vec2, Vec3,
    WavefrontObj,
};
pub use parser::{parse_mtl, FeedEvent, Parser};
pub use vr::{
    ApplicationType, Context, DeviceClass, DeviceDescription, TrackedControllerRole, Universe,
};
