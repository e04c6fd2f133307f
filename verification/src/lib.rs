//! Loading and decoding of DOOM WAD archives and their lumps, MUS music
//! decoding, picture decoding and the window event decisions of the viewer.

pub mod bytes;
pub mod midi;
pub mod wad;
pub mod audio;
pub mod fixed;
pub mod renderer;
pub mod app;
