//! An indexer: a strategy together with an extension filter.
use vstd::prelude::*;

use crate::vault::index::strategy::{opt_view, selected, walk_view, FileEntry, IndexingStrategy, WalkRequest};
use crate::vault::index::utils::string_views;

verus! {

/// Finds image files with a strategy and an extension filter.
pub struct ImageIndexer<S: IndexingStrategy> {
    strategy: S,
    allowed_extensions: Vec<String>,
}

impl<S: IndexingStrategy> ImageIndexer<S> {
    /// The strategy in use.
    pub closed spec fn strategy(&self) -> S {
        self.strategy
    }

    /// The extension filter in use (empty: every file passes).
    pub closed spec fn filters(&self) -> Seq<Seq<char>> {
        string_views(self.allowed_extensions@)
    }

    /// An indexer with the given strategy and no extension filter.
    pub fn new(strategy: S) -> (r: Self)
        ensures
            r.strategy() == strategy,
            r.filters() == Seq::<Seq<char>>::empty(),
    {
        let r = ImageIndexer { strategy, allowed_extensions: Vec::new() };
        assert(r.filters() =~= Seq::<Seq<char>>::empty());
        r
    }

    /// Replaces the strategy; the filter stays.
    pub fn set_strategy(&mut self, strategy: S)
        ensures
            final(self).strategy() == strategy,
            final(self).filters() == old(self).filters(),
    {
        self.strategy = strategy;
    }

    /// Replaces the extension filter; the strategy stays.
    pub fn set_filters(&mut self, extensions: Vec<String>)
        ensures
            final(self).filters() == string_views(extensions@),
            final(self).strategy() == old(self).strategy(),
    {
        self.allowed_extensions = extensions;
    }

    /// The walk that the strategy asks for on this target.
    pub fn walk_request(&self, target_path: &str, home: Option<&str>) -> (r: Option<WalkRequest>)
        ensures
            walk_view(r) == self.strategy().spec_walk_request(target_path@, opt_view(home)),
    {
        self.strategy.walk_request(target_path, home)
    }

    /// The image files among what the walk found: the files that pass the
    /// filter, in the order of the walk.
    pub fn execute(&self, listing: &[FileEntry]) -> (r: Vec<String>)
        ensures
            string_views(r@) == selected(listing@, self.filters()),
    {
        self.strategy.index(listing, &self.allowed_extensions)
    }
}

} // verus!
