//! Wallpaper vault indexing and terminal colour palettes.
pub mod color;
pub mod text;
pub mod vault;
pub mod utils;
pub mod commands;
