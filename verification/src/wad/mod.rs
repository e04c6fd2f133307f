//! The WAD archive and the lumps it holds.

pub mod mus;
pub mod map;
pub mod demo;
pub mod patch;
pub mod sound;
pub mod wad;

pub use demo::Demo;
pub use map::GameMap;
pub use mus::parse_mus_event;
pub use patch::Patch;
pub use sound::Sound;
pub use wad::{Lump, LumpInfo, Wad};
