//! Core of an offline Monte-Carlo path tracer over fixed-point arithmetic.
//!
//! Every scalar quantity (coordinate, color channel, ray parameter) is an
//! integer count of 1/65536 units, so the whole rendering pipeline is exact
//! integer arithmetic: each executable function carries a contract stating
//! precisely which number it computes.

pub mod camera;
pub mod canvas;
pub mod fixed;
pub mod materials;
pub mod objects;
pub mod primitive_types;
pub mod ray;
pub mod renderer;
pub mod rng;
pub mod vec3;
