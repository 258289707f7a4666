//! A software rasterizer over fixed-point arithmetic.
//!
//! Triangles with per-vertex attributes are transformed through
//! model/view/projection/viewport stages and filled into a caller-owned
//! BGRA color buffer under a depth test, with Phong lighting and
//! nearest-neighbor texture sampling.  Every scalar is a 16.16
//! fixed-point number, so each stage has an exact contract.

pub mod edge_equation;
pub mod edge_walking;
pub mod fixed;
pub mod light;
pub mod matrix;
pub mod rasterizer;
pub mod texture;
pub mod triangle;
pub mod utils;
pub mod vector;

pub use fixed::Fx;
