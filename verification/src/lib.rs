//! Decoder for the tile-map files of a vintage strategy game, and a cache of
//! the tile images that go with them.

pub mod classify;
pub mod dispatch;
pub mod error;
pub mod loader;
pub mod panel;
pub mod text;
pub mod tiles;
pub mod types;
