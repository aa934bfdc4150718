use pundoc::paths::{canonicalize_path, extension_of, parent_dir};
use pundoc::strutil::{contains_char, join_abs, split_str, str_eq};

#[test]
fn canonicalize_collapses_dots_and_duplicates() {
    assert_eq!(canonicalize_path("/a/./b/../c//"), "/a/c");
    assert_eq!(canonicalize_path("/../x"), "/x");
    assert_eq!(canonicalize_path("/a/b/c"), "/a/b/c");
    assert_eq!(canonicalize_path("/"), "/");
    assert_eq!(canonicalize_path(""), "/");
    assert_eq!(canonicalize_path("/a/.."), "/");
}

#[test]
fn canonicalize_is_idempotent_on_samples() {
    for sample in ["/a/./b/../c//", "/../x", "/deep/../../../y", "///"] {
        let once = canonicalize_path(sample);
        let twice = canonicalize_path(&once);
        assert_eq!(once, twice);
    }
}

#[test]
fn split_and_join_paths() {
    let parts = split_str("/a/b/c", '/');
    let expected: Vec<String> = ["", "a", "b", "c"].iter().map(|s| s.to_string()).collect();
    assert_eq!(parts, expected);

    let components: Vec<String> = ["a", "b", "c"].iter().map(|s| s.to_string()).collect();
    assert_eq!(join_abs(&components), "/a/b/c");
    assert_eq!(join_abs(&Vec::new()), "/");

    assert_eq!(split_str("", ','), vec![String::new()]);
    assert_eq!(
        split_str("x,,y", ','),
        vec![String::from("x"), String::new(), String::from("y")]
    );
}

#[test]
fn extension_and_parent() {
    assert_eq!(extension_of("/a/b/report.pdf"), "pdf");
    assert_eq!(extension_of("/a/b.dir/readme"), "");
    assert_eq!(extension_of("/a/b/archive.tar.gz"), "gz");
    assert_eq!(parent_dir("/a/b/c.md"), "/a/b");
    assert_eq!(parent_dir("/c.md"), "/");
}

#[test]
fn string_helpers() {
    assert!(str_eq("abc", "abc"));
    assert!(!str_eq("abc", "abd"));
    assert!(!str_eq("abc", "ab"));
    assert!(contains_char("key=value", '='));
    assert!(!contains_char("keyvalue", '='));
}
