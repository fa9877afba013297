//! Streaming terrain on a lattice of equilateral triangles: the chunk
//! addressing algebra, the mesh layout of one chunk, and the bookkeeping that
//! decides which chunks are built and when.
//!
//! Everything here is integer arithmetic. World positions are fixed-point
//! numbers with nine decimal places (see [`tricoord::WORLD_UNIT`]).

pub mod debug_tools;
pub mod error;
pub mod height_field;
pub mod mesh;
pub mod radius;
pub mod registry;
pub mod tribool;
pub mod tricoord;
