//! Integer raycasting: exact ray/segment intersection, nearest-hit resolution
//! over a fan of rays, fish-eye correction, column layout and the per-frame
//! control state of a 2D raycasting visualizer.
pub mod arith;
pub mod control;
pub mod geometry;
pub mod render;
pub mod root;
pub mod visibility;
