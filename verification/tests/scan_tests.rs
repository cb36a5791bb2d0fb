use webp_batch::scan::{filter_candidates, has_supported_extension, ScanEntry};

fn entry(path: &str, is_file: bool) -> ScanEntry {
    ScanEntry { path: String::from(path), is_file }
}

#[test]
fn supported_extensions_match() {
    assert!(has_supported_extension("a.jpg"));
    assert!(has_supported_extension("a.jpeg"));
    assert!(has_supported_extension("a.png"));
    assert!(has_supported_extension("a.gif"));
    assert!(has_supported_extension("a.bmp"));
    assert!(has_supported_extension("a.tiff"));
    assert!(has_supported_extension("a.tif"));
}

#[test]
fn matching_is_case_insensitive() {
    assert!(has_supported_extension("a.JPG"));
    assert!(has_supported_extension("a.JpEg"));
    assert!(has_supported_extension("sub/dir/a.PNG"));
    assert!(has_supported_extension("a.TIF"));
}

#[test]
fn non_matching_extensions_are_rejected() {
    assert!(!has_supported_extension("a.txt"));
    assert!(!has_supported_extension("a.webp"));
    assert!(!has_supported_extension("a"));
    assert!(!has_supported_extension("a.jpg.txt"));
    assert!(!has_supported_extension("jpg"));
}

#[test]
fn dotfile_has_no_extension() {
    assert!(!has_supported_extension(".jpg"));
    assert!(!has_supported_extension("dir/.png"));
}

#[test]
fn filter_keeps_matching_files_once_in_order() {
    let entries = vec![
        entry("in", false),
        entry("in/a.jpg", true),
        entry("in/notes.txt", true),
        entry("in/sub", false),
        entry("in/sub/b.PNG", true),
        entry("in/c.gif", true),
    ];
    let found = filter_candidates(&entries);
    assert_eq!(found, vec!["in/a.jpg", "in/sub/b.PNG", "in/c.gif"]);
}

#[test]
fn filter_ignores_directories_with_matching_names() {
    let entries = vec![entry("in/folder.jpg", false), entry("in/a.jpg", true)];
    let found = filter_candidates(&entries);
    assert_eq!(found, vec!["in/a.jpg"]);
}

#[test]
fn filter_of_no_matches_is_empty() {
    let entries = vec![entry("in/a.txt", true), entry("in/b.md", true)];
    let found = filter_candidates(&entries);
    assert!(found.is_empty());
}
