//! Index everything below the target directory.
use vstd::prelude::*;

use crate::vault::index::strategy::{select_images, FileEntry, IndexingStrategy, WalkRequest};

verus! {

/// Walks the target directory and all of its sub-directories.
pub struct RecursiveDirectoryStrategy;

impl IndexingStrategy for RecursiveDirectoryStrategy {
    open spec fn spec_walk_request(&self, target_path: Seq<char>, home: Option<Seq<char>>) -> Option<(Seq<char>, bool)> {
        Some((target_path, true))
    }

    fn walk_request(&self, target_path: &str, home: Option<&str>) -> (r: Option<WalkRequest>) {
        Some(WalkRequest { root: target_path.to_owned(), recursive: true })
    }

    fn index(&self, listing: &[FileEntry], extensions: &[String]) -> (r: Vec<String>) {
        select_images(listing, extensions)
    }
}

} // verus!
