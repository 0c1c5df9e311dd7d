//! The wallpaper vault.
pub mod index;
