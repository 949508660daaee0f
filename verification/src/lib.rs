//! A software 3D renderer for character-cell terminals.
//!
//! Meshes of quad faces are transformed through a camera, projected onto a
//! grid of character cells, culled and depth-sorted back to front, and
//! rasterized with Bresenham lines and barycentric triangle fill. All
//! geometry is carried in fixed-point integers (see [`num::FP_ONE`]), so the
//! whole pipeline is exact; a terminal front end supplies trigonometric
//! values, input events and the screen itself.

pub mod frame;
pub mod log;
pub mod num;
pub mod order;
pub mod project;
pub mod raster;
pub mod scene;
pub mod surface;
pub mod vec;
