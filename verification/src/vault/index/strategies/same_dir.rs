//! Index the target directory's own entries.
use vstd::prelude::*;

use crate::vault::index::strategy::{select_images, FileEntry, IndexingStrategy, WalkRequest};

verus! {

/// Lists the target directory itself, without descending into sub-directories.
pub struct SameDirectoryStrategy;

impl IndexingStrategy for SameDirectoryStrategy {
    open spec fn spec_walk_request(&self, target_path: Seq<char>, home: Option<Seq<char>>) -> Option<(Seq<char>, bool)> {
        Some((target_path, false))
    }

    fn walk_request(&self, target_path: &str, home: Option<&str>) -> (r: Option<WalkRequest>) {
        Some(WalkRequest { root: target_path.to_owned(), recursive: false })
    }

    fn index(&self, listing: &[FileEntry], extensions: &[String]) -> (r: Vec<String>) {
        select_images(listing, extensions)
    }
}

} // verus!
