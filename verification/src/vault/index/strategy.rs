//! How an indexing strategy chooses what to walk, and which files it keeps.
use vstd::prelude::*;

use crate::vault::index::utils::{has_matching_extension, matches_extension, string_views};

verus! {

/// The directory walk that a strategy asks for: the directory to start from,
/// and whether to descend into every sub-directory (a recursive walk, which
/// also yields the starting path itself) or to list the directory's own
/// entries only.
pub struct WalkRequest {
    pub root: String,
    pub recursive: bool,
}

/// One path that a walk found, and whether it is a regular file.
pub struct FileEntry {
    pub path: String,
    pub is_file: bool,
}

/// A walk request as plain values.
pub open spec fn walk_view(w: Option<WalkRequest>) -> Option<(Seq<char>, bool)> {
    match w {
        Some(w) => Some((w.root@, w.recursive)),
        None => None,
    }
}

/// An optional string slice as plain characters.
pub open spec fn opt_view(s: Option<&str>) -> Option<Seq<char>> {
    match s {
        Some(s) => Some(s@),
        None => None,
    }
}

/// The paths of a listing that are files and pass the extension filter, in
/// the order of the listing.
pub open spec fn selected(entries: Seq<FileEntry>, extensions: Seq<Seq<char>>) -> Seq<Seq<char>>
    decreases entries.len(),
{
    if entries.len() == 0 {
        Seq::empty()
    } else {
        let rest = selected(entries.drop_last(), extensions);
        let e = entries.last();
        if e.is_file && matches_extension(e.path@, extensions) {
            rest.push(e.path@)
        } else {
            rest
        }
    }
}

/// The paths of the entries of a listing that are files, in order.
pub open spec fn file_paths(entries: Seq<FileEntry>) -> Seq<Seq<char>>
    decreases entries.len(),
{
    if entries.len() == 0 {
        Seq::empty()
    } else if entries.last().is_file {
        file_paths(entries.drop_last()).push(entries.last().path@)
    } else {
        file_paths(entries.drop_last())
    }
}

/// Keeps, in order, the paths of the entries that are files and whose
/// extension passes the filter.
pub fn select_images(entries: &[FileEntry], extensions: &[String]) -> (r: Vec<String>)
    ensures
        string_views(r@) == selected(entries@, string_views(extensions@)),
{
    let mut r: Vec<String> = Vec::new();
    let mut i: usize = 0;
    while i < entries.len()
        invariant
            i <= entries@.len(),
            string_views(r@) == selected(entries@.take(i as int), string_views(extensions@)),
        decreases entries@.len() - i,
    {
        assert(entries@.take(i + 1).drop_last() =~= entries@.take(i as int));
        let e = &entries[i];
        if e.is_file && has_matching_extension(e.path.as_str(), extensions) {
            let ghost before = r@;
            r.push(e.path.clone());
            assert(string_views(r@) =~= string_views(before).push(e.path@));
        }
        i += 1;
    }
    assert(entries@.take(entries@.len() as int) =~= entries@);
    r
}

/// With an empty extension filter, every file of the listing is kept.
pub proof fn lemma_no_filter_keeps_every_file(entries: Seq<FileEntry>)
    ensures
        selected(entries, Seq::empty()) == file_paths(entries),
    decreases entries.len(),
{
    if entries.len() > 0 {
        lemma_no_filter_keeps_every_file(entries.drop_last());
    }
}

/// What a filter keeps is always a selection of the listing's files: never
/// more of them, and each one a file of the listing.
pub proof fn lemma_selection_within_files(entries: Seq<FileEntry>, extensions: Seq<Seq<char>>)
    ensures
        selected(entries, extensions).len() <= file_paths(entries).len(),
        forall|p: Seq<char>|
            #[trigger] selected(entries, extensions).contains(p) ==> file_paths(entries).contains(p),
    decreases entries.len(),
{
    if entries.len() > 0 {
        let rest = entries.drop_last();
        lemma_selection_within_files(rest, extensions);
        let e = entries.last();
        assert forall|p: Seq<char>|
            #[trigger] selected(entries, extensions).contains(p) implies file_paths(entries).contains(p) by {
            if selected(rest, extensions).contains(p) {
                assert(file_paths(rest).contains(p));
                let j = choose|j: int| 0 <= j < file_paths(rest).len() && file_paths(rest)[j] == p;
                if e.is_file {
                    assert(file_paths(entries)[j] == p);
                }
            } else {
                assert(e.is_file && p == e.path@);
                assert(file_paths(entries)[file_paths(entries).len() - 1] == p);
            }
        }
    }
}

/// Selecting from two listings one after the other gives the two selections
/// one after the other; a file entry that passes the filter is kept at the end
/// (even when its path repeats), and any other entry adds nothing.
pub proof fn lemma_selected_append(s: Seq<FileEntry>, t: Seq<FileEntry>, extensions: Seq<Seq<char>>)
    ensures
        selected(s + t, extensions) == selected(s, extensions) + selected(t, extensions),
        forall|e: FileEntry|
            #![trigger selected(s.push(e), extensions)]
            (e.is_file && matches_extension(e.path@, extensions)) ==> selected(s.push(e), extensions)
                == selected(s, extensions).push(e.path@),
        forall|e: FileEntry|
            #![trigger selected(s.push(e), extensions)]
            !(e.is_file && matches_extension(e.path@, extensions)) ==> selected(s.push(e), extensions)
                == selected(s, extensions),
    decreases t.len(),
{
    assert forall|e: FileEntry| (e.is_file && matches_extension(e.path@, extensions)) implies #[trigger] selected(
        s.push(e),
        extensions,
    ) == selected(s, extensions).push(e.path@) by {
        assert(s.push(e).drop_last() =~= s);
    }
    assert forall|e: FileEntry| !(e.is_file && matches_extension(e.path@, extensions)) implies #[trigger] selected(
        s.push(e),
        extensions,
    ) == selected(s, extensions) by {
        assert(s.push(e).drop_last() =~= s);
    }
    if t.len() == 0 {
        assert(s + t =~= s);
        assert(selected(s, extensions) + selected(t, extensions) =~= selected(s, extensions));
    } else {
        lemma_selected_append(s, t.drop_last(), extensions);
        assert((s + t).drop_last() =~= s + t.drop_last());
        assert((s + t).last() == t.last());
        let e = t.last();
        if e.is_file && matches_extension(e.path@, extensions) {
            assert(selected(s, extensions) + selected(t, extensions) =~= (selected(s, extensions)
                + selected(t.drop_last(), extensions)).push(e.path@));
        }
    }
}

/// A way of choosing which part of the file system to index.
pub trait IndexingStrategy {
    /// The walk that this strategy asks for, given the target path and the
    /// user's home directory (if known).
    spec fn spec_walk_request(&self, target_path: Seq<char>, home: Option<Seq<char>>) -> Option<(Seq<char>, bool)>;

    /// The walk to perform; `None` when there is nothing to walk.
    fn walk_request(&self, target_path: &str, home: Option<&str>) -> (r: Option<WalkRequest>)
        ensures
            walk_view(r) == self.spec_walk_request(target_path@, opt_view(home)),
    ;

    /// The images among what the walk found: the files whose extension passes
    /// the filter, in the order of the walk.
    fn index(&self, listing: &[FileEntry], extensions: &[String]) -> (r: Vec<String>)
        ensures
            string_views(r@) == selected(listing@, string_views(extensions@)),
    ;
}

} // verus!
