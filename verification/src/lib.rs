//! Turns a triangulated icosphere mesh (a flat list of triangle vertex
//! indices plus a vertex count) into a per-vertex ordered adjacency list,
//! so that every vertex can be treated as a hexagonal (or, at the twelve
//! icosahedron corners, pentagonal) tile.

pub mod accumulator;
pub mod arcbuf;
pub mod batch;
pub mod laws;

pub use batch::rehexed;
pub use batch::RehexError;
