//! Integer core of a path tracer: bounding-volume-hierarchy topology, the
//! axis layout of axis-aligned rectangles, image texel lookup, Perlin lattice
//! tables, PPM encoding and mesh face indexing.
pub mod bvh;
pub mod camera;
pub mod mesh;
pub mod perlin;
pub mod plane;
pub mod ppm;
pub mod texture;
