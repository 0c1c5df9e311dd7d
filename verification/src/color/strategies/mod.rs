//! Palette extraction engines.
pub mod native;
