//! The discrete core of a small software 3D renderer.
//!
//! Everything here works on integers: canvas coordinates, pixel indices,
//! depth ranks, vertex indices and the shape of clipped triangles. The
//! floating-point geometry that feeds it, and the display that shows its
//! output, live with the caller.

pub mod canvas;
pub mod clip;
pub mod line;
pub mod raster;
pub mod scene;
