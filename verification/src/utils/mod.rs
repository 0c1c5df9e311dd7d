//! Image loading helpers.
pub mod image_utils;
