//! Procedural mesh generation for a tiled grid-world of unit cubes.
//!
//! The library produces three kinds of buffers: the fixed cube primitive
//! (8 vertices, 36 indices), a wireframe overlay for one cube (grid lines on
//! each face plus the 12 cube edges, consumed as a line list), and a flat
//! world that tiles both across a `width x depth` grid.
//!
//! Coordinates are exact rationals (an integer numerator over a positive
//! integer denominator), so every buffer is reproducible bit for bit; a
//! renderer converts them to floating point when it uploads the buffers.

pub mod geometry;
pub mod cube;
pub mod wireframe;
pub mod world;
