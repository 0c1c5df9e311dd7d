//! Any one of the indexing strategies, chosen at run time.
use vstd::prelude::*;

use crate::commands::index::StrategyChoice;
use crate::vault::index::strategies::home::HomeDirectoryStrategy;
use crate::vault::index::strategies::recursive::RecursiveDirectoryStrategy;
use crate::vault::index::strategies::same_dir::SameDirectoryStrategy;
use crate::vault::index::strategy::{opt_view, select_images, walk_view, FileEntry, IndexingStrategy, WalkRequest};

verus! {

/// One of the three strategies; an indexer over it can switch between them.
pub enum AnyStrategy {
    SameDirectory(SameDirectoryStrategy),
    Recursive(RecursiveDirectoryStrategy),
    Home(HomeDirectoryStrategy),
}

impl AnyStrategy {
    /// The strategy that a choice names.
    pub fn from_choice(choice: StrategyChoice) -> (r: AnyStrategy)
        ensures
            choice == StrategyChoice::SameDirectory ==> r is SameDirectory,
            choice == StrategyChoice::Recursive ==> r is Recursive,
            choice == StrategyChoice::Home ==> r is Home,
    {
        match choice {
            StrategyChoice::SameDirectory => AnyStrategy::SameDirectory(SameDirectoryStrategy),
            StrategyChoice::Recursive => AnyStrategy::Recursive(RecursiveDirectoryStrategy),
            StrategyChoice::Home => AnyStrategy::Home(HomeDirectoryStrategy),
        }
    }
}

impl IndexingStrategy for AnyStrategy {
    open spec fn spec_walk_request(&self, target_path: Seq<char>, home: Option<Seq<char>>) -> Option<(Seq<char>, bool)> {
        match self {
            AnyStrategy::SameDirectory(s) => s.spec_walk_request(target_path, home),
            AnyStrategy::Recursive(s) => s.spec_walk_request(target_path, home),
            AnyStrategy::Home(s) => s.spec_walk_request(target_path, home),
        }
    }

    fn walk_request(&self, target_path: &str, home: Option<&str>) -> (r: Option<WalkRequest>)
        ensures
            self is SameDirectory ==> walk_view(r) == Some((target_path@, false)),
            self is Recursive ==> walk_view(r) == Some((target_path@, true)),
            self is Home ==> walk_view(r) == (match home {
                Some(h) => Some((h@, true)),
                None => None,
            }),
    {
        proof {
            lemma_strategy_walks(target_path@, opt_view(home));
        }
        match self {
            AnyStrategy::SameDirectory(s) => s.walk_request(target_path, home),
            AnyStrategy::Recursive(s) => s.walk_request(target_path, home),
            AnyStrategy::Home(s) => s.walk_request(target_path, home),
        }
    }

    fn index(&self, listing: &[FileEntry], extensions: &[String]) -> (r: Vec<String>) {
        select_images(listing, extensions)
    }
}

/// What each strategy walks, whatever the target and home directory: the
/// same-directory strategy lists the target's own entries, the recursive one
/// walks the whole target tree, and the home one walks the whole home tree
/// (nothing when the home directory is unknown), however it is reached.
pub proof fn lemma_strategy_walks(target_path: Seq<char>, home: Option<Seq<char>>)
    ensures
        SameDirectoryStrategy.spec_walk_request(target_path, home) == Some((target_path, false)),
        RecursiveDirectoryStrategy.spec_walk_request(target_path, home) == Some((target_path, true)),
        HomeDirectoryStrategy.spec_walk_request(target_path, home) == (match home {
            Some(h) => Some((h, true)),
            None => None,
        }),
        forall|s: AnyStrategy|
            #![trigger s.spec_walk_request(target_path, home)]
            {
                &&& s is SameDirectory ==> s.spec_walk_request(target_path, home) == Some((target_path, false))
                &&& s is Recursive ==> s.spec_walk_request(target_path, home) == Some((target_path, true))
                &&& s is Home ==> s.spec_walk_request(target_path, home) == (match home {
                    Some(h) => Some((h, true)),
                    None => None,
                })
            },
{
}

} // verus!
