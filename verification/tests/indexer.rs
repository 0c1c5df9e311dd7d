use wallman::vault::index::image_indexer::ImageIndexer;
use wallman::commands::index::StrategyChoice;
use wallman::vault::index::strategies::{AnyStrategy, HomeDirectoryStrategy, RecursiveDirectoryStrategy, SameDirectoryStrategy};
use wallman::vault::index::strategy::{select_images, FileEntry, IndexingStrategy};

fn entry(path: &str, is_file: bool) -> FileEntry {
    FileEntry { path: path.to_string(), is_file }
}

fn listing() -> Vec<FileEntry> {
    vec![
        entry("/walls", false),
        entry("/walls/a.png", true),
        entry("/walls/b.JPG", true),
        entry("/walls/notes.txt", true),
        entry("/walls/dir.png", false),
        entry("/walls/c", true),
    ]
}

#[test]
fn select_keeps_matching_files_in_order() {
    let kept = select_images(&listing(), &["png".to_string(), "jpg".to_string()]);
    assert_eq!(kept, vec!["/walls/a.png".to_string(), "/walls/b.JPG".to_string()]);
}

#[test]
fn new_indexer_keeps_every_file() {
    let indexer = ImageIndexer::new(SameDirectoryStrategy);
    let kept = indexer.execute(&listing());
    assert_eq!(
        kept,
        vec!["/walls/a.png", "/walls/b.JPG", "/walls/notes.txt", "/walls/c"]
    );
}

#[test]
fn set_filters_applies_to_execute() {
    let mut indexer = ImageIndexer::new(RecursiveDirectoryStrategy);
    indexer.set_filters(vec!["txt".to_string()]);
    assert_eq!(indexer.execute(&listing()), vec!["/walls/notes.txt"]);
    indexer.set_filters(Vec::new());
    assert_eq!(indexer.execute(&listing()).len(), 4);
}

#[test]
fn same_directory_strategy_lists_the_target() {
    let w = SameDirectoryStrategy.walk_request("/walls", Some("/home/me")).unwrap();
    assert_eq!(w.root, "/walls");
    assert!(!w.recursive);
}

#[test]
fn recursive_strategy_walks_the_target() {
    let w = RecursiveDirectoryStrategy.walk_request("/walls", None).unwrap();
    assert_eq!(w.root, "/walls");
    assert!(w.recursive);
}

#[test]
fn home_strategy_walks_home() {
    let w = HomeDirectoryStrategy.walk_request("/walls", Some("/home/me")).unwrap();
    assert_eq!(w.root, "/home/me");
    assert!(w.recursive);
    assert!(HomeDirectoryStrategy.walk_request("/walls", None).is_none());
}

#[test]
fn set_strategy_changes_the_walk_keeps_filters() {
    let mut indexer = ImageIndexer::new(HomeDirectoryStrategy);
    indexer.set_filters(vec!["png".to_string()]);
    assert!(indexer.walk_request("/t", None).is_none());
    indexer.set_strategy(HomeDirectoryStrategy);
    let w = indexer.walk_request("/t", Some("/h")).unwrap();
    assert_eq!(w.root, "/h");
    assert_eq!(indexer.execute(&listing()), vec!["/walls/a.png"]);
}

#[test]
fn strategies_index_the_same_way() {
    let exts = vec!["PNG".to_string()];
    let a = SameDirectoryStrategy.index(&listing(), &exts);
    let b = RecursiveDirectoryStrategy.index(&listing(), &exts);
    let c = HomeDirectoryStrategy.index(&listing(), &exts);
    assert_eq!(a, vec!["/walls/a.png"]);
    assert_eq!(a, b);
    assert_eq!(b, c);
}

#[test]
fn indexer_switches_between_strategies() {
    let mut indexer = ImageIndexer::new(AnyStrategy::from_choice(StrategyChoice::SameDirectory));
    indexer.set_filters(vec!["png".to_string()]);
    let w = indexer.walk_request("/walls", Some("/h")).unwrap();
    assert_eq!(w.root, "/walls");
    assert!(!w.recursive);
    indexer.set_strategy(AnyStrategy::from_choice(StrategyChoice::Recursive));
    let w = indexer.walk_request("/walls", Some("/h")).unwrap();
    assert_eq!(w.root, "/walls");
    assert!(w.recursive);
    indexer.set_strategy(AnyStrategy::Home(HomeDirectoryStrategy));
    let w = indexer.walk_request("/walls", Some("/h")).unwrap();
    assert_eq!(w.root, "/h");
    assert!(indexer.walk_request("/walls", None).is_none());
    assert_eq!(indexer.execute(&listing()), vec!["/walls/a.png"]);
}
