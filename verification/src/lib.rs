//! Parser for the Warcraft III MDX binary model format.
//!
//! An MDX file is a chunked, length-prefixed container: after the four-byte
//! magic `MDLX`, the body is a concatenation of `<tag><u32 size><body>`
//! records holding geometry, node hierarchies, materials, textures and
//! animation sequences.  The parser consumes a fully buffered byte vector and
//! produces a typed in-memory model document.
//!
//! IEEE-754 single-precision scalars from the wire are carried as their raw
//! little-endian bit patterns (`u32`); callers that need numeric values
//! reinterpret the bits outside this crate.

pub mod model;
pub mod blp;
pub mod cache;
pub mod chunks;
pub mod geosets;
pub mod grammar;
pub mod laws;
pub mod reader;
pub mod nodes;
pub mod parser;
pub mod records;
pub mod wire;
