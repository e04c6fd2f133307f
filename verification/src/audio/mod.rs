//! Streaming playback of MUS music.

pub mod dmx;
