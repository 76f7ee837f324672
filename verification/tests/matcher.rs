use agg_files::pattern::Pattern;
use agg_files::text::u64_to_dec;

#[test]
fn star_extension_matches_anywhere() {
    let p = Pattern::compile("*.txt");
    assert!(p.matches("a/b/c.txt"));
    // Substring-anchored semantics: the pattern also matches when more
    // follows, because the compiled matcher is not end-anchored.
    assert!(p.matches("a/b/c.txt.bak"));
    assert!(!p.matches("a/b/c.rs"));
}

#[test]
fn plain_literal_is_substring_anchored() {
    let p = Pattern::compile("foo");
    assert!(p.matches("foobar.txt"));
    assert!(p.matches("a/foo"));
    assert!(!p.matches("f-o-o"));
}

#[test]
fn empty_and_lone_star_match_everything() {
    let empty = Pattern::compile("");
    let star = Pattern::compile("*");
    for path in ["", "a", "deep/ly/nested/file.rs"] {
        assert!(empty.matches(path));
        assert!(star.matches(path));
    }
}

#[test]
fn leading_dot_slash_is_stripped() {
    let p = Pattern::compile("./src/*.rs");
    assert!(p.matches("src/main.rs"));
    assert!(p.matches("./src/main.rs"));
}

#[test]
fn star_spans_directory_separators() {
    let p = Pattern::compile("src*util");
    assert!(p.matches("src/deep/nested/util"));
    assert!(!p.matches("util/src"));
}

#[test]
fn dot_is_literal_not_wildcard() {
    let p = Pattern::compile("a.b");
    assert!(p.matches("x/a.b"));
    assert!(!p.matches("axb"));
}

#[test]
fn decimal_rendering_is_exact() {
    assert_eq!(u64_to_dec(0), "0");
    assert_eq!(u64_to_dec(7), "7");
    assert_eq!(u64_to_dec(50), "50");
    assert_eq!(u64_to_dec(1234567890), "1234567890");
    assert_eq!(u64_to_dec(u64::MAX), "18446744073709551615");
}
