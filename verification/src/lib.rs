//! 2D polygon visibility for a point light with a falloff radius.
//!
//! The geometry kernel decides segment-segment intersection exactly, on
//! integer coordinates. A `Collider2D` owns a polygon's vertex list and the
//! precomputed set of internal occlusion segments (diagonals between
//! non-adjacent vertices); `get_exposed_verticies` answers, for a light
//! position and falloff, which vertices are exposed to the light.

pub mod collider;
pub mod geometry;
pub mod laws;
pub mod system;
