use wallman::vault::index::utils::{has_matching_extension, is_image_extension};

fn exts(v: &[&str]) -> Vec<String> {
    v.iter().map(|s| s.to_string()).collect()
}

#[test]
fn empty_filter_allows_every_path() {
    assert!(has_matching_extension("photo.jpg", &[]));
    assert!(has_matching_extension("no_extension", &[]));
    assert!(has_matching_extension("", &[]));
}

#[test]
fn extension_compared_without_case() {
    assert!(has_matching_extension("a/b.PNG", &exts(&["png"])));
    assert!(has_matching_extension("a/b.png", &exts(&["PNG"])));
    assert!(has_matching_extension("x.jpeg", &exts(&["png", "JpEg"])));
    assert!(!has_matching_extension("x.jpeg", &exts(&["png", "jpg"])));
}

#[test]
fn extension_is_after_the_last_dot_of_the_file_name() {
    assert!(has_matching_extension("archive.tar.gz", &exts(&["gz"])));
    assert!(!has_matching_extension("archive.tar.gz", &exts(&["tar"])));
    assert!(!has_matching_extension("dir.png/photo", &exts(&["png"])));
    assert!(has_matching_extension("x.", &exts(&[""])));
}

#[test]
fn paths_without_extension_do_not_pass_a_filter() {
    assert!(!has_matching_extension("photo", &exts(&["jpg"])));
    assert!(!has_matching_extension(".png", &exts(&["png"])));
    assert!(!has_matching_extension("a/..", &exts(&["png"])));
    assert!(!has_matching_extension("/", &exts(&["png"])));
    assert!(!has_matching_extension("", &exts(&["png"])));
    assert!(has_matching_extension("..png", &exts(&["png"])));
}

#[test]
fn trailing_separators_and_dots_are_passed_over() {
    assert!(has_matching_extension("walls/sky.png/", &exts(&["png"])));
    assert!(has_matching_extension("walls/sky.png/.", &exts(&["png"])));
    assert!(has_matching_extension("walls/sky.png//./", &exts(&["png"])));
    assert!(!has_matching_extension(".", &exts(&["png"])));
}

#[test]
fn image_extensions_known() {
    for e in ["jpg", "jpeg", "png", "bmp", "tiff", "tif", "webp", "avif", "heic", "heif", "jxl", "mp4", "gif", "webm", "apng", "svg", "ai", "eps", "pdf", "psd"] {
        assert!(is_image_extension(e), "{}", e);
    }
}

#[test]
fn image_extensions_ignore_case() {
    assert!(is_image_extension("PNG"));
    assert!(is_image_extension("Jpg"));
    assert!(is_image_extension("WebP"));
}

#[test]
fn non_image_extensions_rejected() {
    assert!(!is_image_extension("txt"));
    assert!(!is_image_extension(""));
    assert!(!is_image_extension(".png"));
    assert!(!is_image_extension("pngg"));
    assert!(!is_image_extension("jp"));
}
