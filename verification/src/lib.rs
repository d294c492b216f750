//! Verified core of a real-time light-path visualiser: a fixed-capacity entity
//! pool, a bounding-volume-hierarchy builder over triangle meshes, and the
//! schedule of the render stage chain.

pub mod geometry;
pub mod triangle;
pub mod bvh;
pub mod model;
pub mod mesh;
pub mod array_buffer;
pub mod material;
pub mod pipelines;
pub mod screen;
pub mod quad;
pub mod fxaa;
pub mod renderer;
pub mod surface;
pub mod ui;
