//! Collision detection, hit resolution and spawn placement for a small
//! 2D space shooter, on an integer world grid whose y axis grows upward.
pub mod geometry;
pub mod sprite;
pub mod spawn;
pub mod combat;
pub mod timer;
pub mod motion;
pub mod starfield;
