//! A software renderer for small indoor worlds built from flat sectors.
//!
//! A level is a set of straight walls, grouped into sectors that each have
//! one floor and one ceiling. A frame is the list of pixel writes that
//! paints the level as a camera sees it: the walls are taken to camera
//! space, cut at the near plane, projected, and filled column by column,
//! sector by sector from the farthest to the nearest.
//!
//! Everything is computed on integers: angles are whole degrees, the sine
//! and cosine table holds 16.16 fixed-point values, and every division is
//! stated explicitly as rounding toward zero or toward minus infinity.
//!
//! - `arith`: division with explicit rounding
//! - `trig`: the sine and cosine table
//! - `world`: walls, sectors, levels and the level loader
//! - `camera`: the camera, the transform to camera space and back, the
//!   cut at the near plane, the projection
//! - `depth`: sector depth and the drawing order
//! - `raster`: the column rasterizer
//! - `render`: walls, passes, sectors and whole frames
//! - `screen`, `palette`: the frame's size, pixel writes, colours
//! - `controls`, `timing`, `game`: the keys, the frame gate, and one round
//!   of the main loop
pub mod arith;
pub mod camera;
pub mod controls;
pub mod depth;
pub mod game;
pub mod palette;
pub mod raster;
pub mod render;
pub mod screen;
pub mod timing;
pub mod trig;
pub mod world;
