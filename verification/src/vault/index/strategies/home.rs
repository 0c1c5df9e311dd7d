//! Index everything below the user's home directory.
use vstd::prelude::*;

use crate::vault::index::strategy::{select_images, FileEntry, IndexingStrategy, WalkRequest};

verus! {

/// Walks the user's home directory and all of its sub-directories, whatever
/// the target path; there is nothing to walk when the home directory is unknown.
pub struct HomeDirectoryStrategy;

impl IndexingStrategy for HomeDirectoryStrategy {
    open spec fn spec_walk_request(&self, target_path: Seq<char>, home: Option<Seq<char>>) -> Option<(Seq<char>, bool)> {
        match home {
            Some(h) => Some((h, true)),
            None => None,
        }
    }

    fn walk_request(&self, target_path: &str, home: Option<&str>) -> (r: Option<WalkRequest>) {
        match home {
            Some(h) => Some(WalkRequest { root: h.to_owned(), recursive: true }),
            None => None,
        }
    }

    fn index(&self, listing: &[FileEntry], extensions: &[String]) -> (r: Vec<String>) {
        select_images(listing, extensions)
    }
}

} // verus!
