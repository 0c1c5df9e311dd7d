//! Finding the image files of a vault.
pub mod image_indexer;
pub mod strategies;
pub mod strategy;
pub mod utils;
