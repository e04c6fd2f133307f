//! What the renderer computes before it uploads textures: decoded pictures and
//! palettes in RGBA.

pub mod palette;
pub mod texture;
