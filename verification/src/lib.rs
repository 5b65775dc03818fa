//! A Wavefront-style OBJ mesh loader with exact, deterministic arithmetic.
//!
//! The library ingests OBJ text and produces a GPU-ready indexed mesh: a
//! deduplicated vertex buffer, a triangle index buffer, and derived bounding
//! extents used to frame an orbiting camera.  A companion camera component
//! turns spherical coordinates into a view matrix, an input aggregator and
//! per-frame driver turn raw window events into camera and light changes,
//! and a small texture decoder parses ASCII PPM images.
//!
//! Every scalar quantity (coordinates, colors, angles, matrix entries) is a
//! fixed-point number: an `i64` counting millionths of a unit, saturating at
//! `fixed::FIXED_MAX`.  Vertex deduplication, the key property of the mesh
//! builder, demands that two equal coordinates be *identical* as stored
//! values; exact fixed-point scalars give that determinism directly, and
//! every arithmetic operation on them is specified and verified down to the
//! bit.  The laws module states and proves the global properties of the
//! mesh builder: deduplication, index validity, triangulation shape,
//! relative-index resolution, determinism, and the bounding-box guarantee.

pub mod camera;
pub mod fixed;
pub mod input;
pub mod laws;
pub mod matrix;
pub mod numparse;
pub mod obj;
pub mod texture;
pub mod trig;
pub mod vector;
