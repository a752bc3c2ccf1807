//! A software triangle rasterizer over 16.16 fixed-point arithmetic.
//!
//! Every quantity that a renderer usually keeps in floating point (positions,
//! matrix entries, colour channels, depths, texture coordinates) is held here as
//! an `i32` counting 1/65536ths, so that coverage, depth tests and filtering are
//! exact integer computations with machine-checked contracts.
//!
//! Screen space has its origin at the bottom left, with y growing upward; the
//! sample buffers and the visible frame are stored row by row from the top.
//! A frame with `s` × `s` samples per pixel places the centre of sample column
//! `i` at `(2 i + 1) / (2 s)` pixels, and likewise for rows.

pub mod fixed;
pub mod vector;
pub mod coverage;
pub mod triangle;
pub mod transform;
pub mod texture;
pub mod shader;
pub mod fragment;
pub mod line;
pub mod downsample;
pub mod rasterizer;
pub mod loader;
pub mod shader_types;
pub mod image;
pub mod render;
pub mod controls;
