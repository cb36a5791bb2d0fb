use webp_batch::paths::{file_name_of, get_output_path};

#[test]
fn maps_simple_file() {
    let out = get_output_path("in/a.jpg", "in", "out");
    assert_eq!(out, "out/a.webp");
}

#[test]
fn maps_nested_file() {
    let out = get_output_path("in/sub/deep/b.png", "in", "out");
    assert_eq!(out, "out/sub/deep/b.webp");
}

#[test]
fn maps_uppercase_extension() {
    let out = get_output_path("in/sub/b.PNG", "in", "out");
    assert_eq!(out, "out/sub/b.webp");
}

#[test]
fn input_dir_with_trailing_slash() {
    let out = get_output_path("in/a.jpg", "in/", "out");
    assert_eq!(out, "out/a.webp");
}

#[test]
fn output_dir_with_trailing_slash() {
    let out = get_output_path("in/a.jpg", "in", "out/");
    assert_eq!(out, "out/a.webp");
}

#[test]
fn falls_back_when_not_under_input_dir() {
    let out = get_output_path("other/c.jpg", "in", "out");
    assert_eq!(out, "out/other/c.webp");
}

#[test]
fn absolute_fallback_replaces_output_dir() {
    let out = get_output_path("/abs/c.jpg", "in", "out");
    assert_eq!(out, "/abs/c.webp");
}

#[test]
fn similar_prefix_is_not_a_parent() {
    // "indir" starts with "in" but is not under the directory "in".
    let out = get_output_path("indir/c.jpg", "in", "out");
    assert_eq!(out, "out/indir/c.webp");
}

#[test]
fn appends_extension_when_none() {
    let out = get_output_path("in/noext", "in", "out");
    assert_eq!(out, "out/noext.webp");
}

#[test]
fn dotfile_gets_extension_appended() {
    let out = get_output_path("in/.hidden", "in", "out");
    assert_eq!(out, "out/.hidden.webp");
}

#[test]
fn replaces_only_last_extension() {
    let out = get_output_path("in/archive.tar.gif", "in", "out");
    assert_eq!(out, "out/archive.tar.webp");
}

#[test]
fn mapper_is_deterministic() {
    let a = get_output_path("in/sub/x.jpeg", "in", "out");
    let b = get_output_path("in/sub/x.jpeg", "in", "out");
    assert_eq!(a, b);
}

#[test]
fn file_name_is_last_component() {
    assert_eq!(file_name_of("in/sub/x.jpg"), "x.jpg");
    assert_eq!(file_name_of("x.jpg"), "x.jpg");
    assert_eq!(file_name_of("a/b/"), "");
}
