use agg_files::cli::CliArgs;
use agg_files::config::Config;

fn argv(parts: &[&str]) -> Vec<String> {
    parts.iter().map(|s| s.to_string()).collect()
}

#[test]
fn parse_flags_and_patterns() {
    let a = CliArgs::parse(&argv(&["prog", "-r", "src", "*.rs"]));
    assert!(a.recursive);
    assert!(!a.ignore_gitignore);
    assert_eq!(a.patterns, vec!["src".to_string(), "*.rs".to_string()]);
    assert!(a.github_url.is_none());
    assert!(!a.show_version);
    assert!(!a.files_only);
    assert!(!a.sort_by_size);
}

#[test]
fn parse_all_switches() {
    let a = CliArgs::parse(&argv(&["prog", "-i", "--files-only", "--sort-size", "-v", "x"]));
    assert!(a.ignore_gitignore);
    assert!(a.files_only);
    assert!(a.sort_by_size);
    assert!(a.show_version);
    assert_eq!(a.patterns, vec!["x".to_string()]);
}

#[test]
fn parse_url_consumes_next_argument() {
    let a = CliArgs::parse(&argv(&["prog", "--url", "next", "pat"]));
    assert_eq!(a.github_url.as_deref(), Some("next"));
    assert_eq!(a.patterns, vec!["pat".to_string()]);
}

#[test]
fn parse_url_defaults_pattern_to_star() {
    let a = CliArgs::parse(&argv(&["prog", "--url", "https://example.test/repo"]));
    assert_eq!(a.patterns, vec!["*".to_string()]);
}

#[test]
fn parse_trailing_url_has_no_value() {
    let a = CliArgs::parse(&argv(&["prog", "--url"]));
    assert!(a.github_url.is_none());
    assert!(a.patterns.is_empty());
}

#[test]
fn parse_unknown_dash_argument_is_skipped() {
    let a = CliArgs::parse(&argv(&["prog", "-x", "keep"]));
    assert_eq!(a.patterns, vec!["keep".to_string()]);
}

#[test]
fn validity_needs_something_to_do() {
    assert!(!CliArgs::parse(&argv(&["prog"])).is_valid());
    assert!(CliArgs::parse(&argv(&["prog", "src"])).is_valid());
    assert!(CliArgs::parse(&argv(&["prog", "-v"])).is_valid());
    assert!(CliArgs::parse(&argv(&["prog", "--url", "u"])).is_valid());
}

#[test]
fn config_ignore_list_matches_globs() {
    let c = Config { ignore: Some(vec!["*.log".to_string()]) };
    assert!(c.should_ignore("debug.log"));
    assert!(c.should_ignore("sub/dir/trace.log"));
    assert!(!c.should_ignore("src/main.rs"));
}

#[test]
fn config_without_list_ignores_nothing() {
    let c = Config { ignore: None };
    assert!(!c.should_ignore("anything"));
    let empty = Config { ignore: Some(Vec::new()) };
    assert!(!empty.should_ignore("anything"));
}
