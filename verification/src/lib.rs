//! Decoder for the Cast binary scene format and projection of the decoded
//! node tree into a typed model (skeleton, materials, meshes).
//!
//! A file is a little-endian, length-prefixed tree of typed nodes, each
//! carrying named, homogeneously typed property lists. Decoding either yields
//! the whole tree or fails with a single [`format::FormatError`]; the
//! projection then turns a `modl`-tagged node into a typed model, resolving
//! cross references by per-node 64-bit hashes. Float data is carried
//! throughout as IEEE-754 bit patterns, never as native floats.

pub mod bytes;
pub mod decode;
pub mod format;
pub mod model;
pub mod node;
pub mod project;
pub mod resolve;
pub mod value;
