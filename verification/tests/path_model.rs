use raven::paths::ext_matches;
use raven::paths::join_path;
use raven::paths::str_eq;
use raven::paths::strip_prefix;
use raven::paths::with_ext;

#[test]
fn join_inserts_a_separator() {
    assert_eq!(join_path("out", "a/b.txt"), "out/a/b.txt");
    assert_eq!(join_path("out", "c"), "out/c");
}

#[test]
fn strip_prefix_returns_the_remainder() {
    assert_eq!(strip_prefix("in/a/b.txt", "in").as_deref(), Some("a/b.txt"));
    assert_eq!(strip_prefix("in/x", "in").as_deref(), Some("x"));
}

#[test]
fn strip_prefix_refuses_non_descendants() {
    assert!(strip_prefix("other/a.txt", "in").is_none());
    assert!(strip_prefix("in", "in").is_none());
    assert!(strip_prefix("inside/a.txt", "in").is_none());
}

#[test]
fn with_ext_replaces_or_appends_the_extension() {
    assert_eq!(with_ext("a/b.hat", "html"), "a/b.html");
    assert_eq!(with_ext("a/b", "html"), "a/b.html");
    assert_eq!(with_ext("a.b/c", "html"), "a.b/c.html");
    assert_eq!(with_ext("a/.hidden", "html"), "a/.hidden.html");
}

#[test]
fn ext_matches_reads_the_final_component() {
    assert!(ext_matches("a/b.hat", "hat"));
    assert!(!ext_matches("a/b.hat", "html"));
    assert!(!ext_matches("a/bhat", "hat"));
    assert!(!ext_matches("a.hat/b", "hat"));
    assert!(!ext_matches(".hat", "hat"));
}

#[test]
fn str_eq_compares_character_wise() {
    assert!(str_eq("same", "same"));
    assert!(!str_eq("same", "Same"));
    assert!(!str_eq("same", "sam"));
    assert!(str_eq("", ""));
}
