//! An isometric tile-world core: a dense 3D grid of tiles with
//! bounds-checked addressing, a fixed isometric projection into 2D pixel
//! space, and a deterministic traversal that turns the grid into an ordered
//! sequence of draw commands for a painter's-algorithm renderer.

pub mod render;
pub mod tile;
pub mod world;
