//! Colour palettes: hex notation, palette layout and the native extractor.
pub mod extractor;
pub mod hex;
pub mod strategies;
