//! Integer core of a streamed, procedurally generated terrain: chunk grid
//! geometry, heightmap sample placement, texture texel addressing, mesh
//! triangulation and the chunk streaming state machine.

pub mod grid;
pub mod streaming;
pub mod mesh;
pub mod texture;
