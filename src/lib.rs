//! Decoder for the lump archive format of a classic map file, and the
//! binary space partition index built from a decoded map.

pub mod error;
pub mod bytes;
pub mod data;
pub mod reader;
pub mod map_data;
pub mod bsp;
pub mod layout;
pub mod player;
pub mod color;
pub mod map;
pub mod renderer;
pub mod map_renderer;
pub mod loader;
pub mod game_context;
