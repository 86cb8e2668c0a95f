//! Geometry pipeline for framing a triangulated surface in a still render:
//! a mesh data model with its construction and transform rules, axis-aligned
//! bounding volumes, automatic camera and light placement, and content-based
//! cropping of a rendered RGBA image.
//!
//! All scalar geometry is carried in signed 64-bit fixed-point numbers with
//! `num::SCALE` fractional steps per unit, so every computation here has an
//! exact integer meaning that the contracts state in full.

pub mod bounding_box;
pub mod crop;
pub mod error;
pub mod framing;
pub mod matrix;
pub mod mesh;
pub mod num;
pub mod triangle;
pub mod vec3;
