//! Pixel-buffer core of a small ray-tracing renderer.
//!
//! The renderer produces RGBA frames: a flat byte buffer of
//! `width * height` four-channel pixels with linear indexing
//! `index = y * width + x`. This crate holds that image store together
//! with its coordinate arithmetic, the image comparison used by the
//! render test harness, and the shading-mode switch shared by all
//! materials. The floating-point geometry and light transport live in
//! the surrounding application.

pub mod image;
pub mod material;
