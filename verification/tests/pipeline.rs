use agg_files::cli::CliArgs;
use agg_files::config::Config;
use agg_files::file_processor::{FileProcessor, ProcessOutput};
use agg_files::sorting::sort_by_size;
use agg_files::traversal::{PatternInput, RawEntry};
use agg_files::vcs::path_has_vcs_component;
use ignore::gitignore::{Gitignore, GitignoreBuilder};

fn args(recursive: bool, ignore_gitignore: bool, files_only: bool, sort_by_size: bool) -> CliArgs {
    CliArgs {
        recursive,
        ignore_gitignore,
        patterns: Vec::new(),
        github_url: None,
        show_version: false,
        files_only,
        sort_by_size,
    }
}

fn entry(path: &str, depth: usize, is_dir: bool, size: Option<u64>) -> RawEntry {
    RawEntry { path: path.to_string(), depth, is_dir, is_file: !is_dir, size }
}

fn dir_input(pattern: &str, walk: Vec<RawEntry>) -> PatternInput {
    PatternInput { pattern: pattern.to_string(), found: true, found_dir: true, file_size: None, walk }
}

fn file_input(pattern: &str, file_size: Option<u64>) -> PatternInput {
    PatternInput {
        pattern: pattern.to_string(),
        found: true,
        found_dir: false,
        file_size,
        walk: Vec::new(),
    }
}

fn glob_input(pattern: &str, walk: Vec<RawEntry>) -> PatternInput {
    PatternInput { pattern: pattern.to_string(), found: false, found_dir: false, file_size: None, walk }
}

fn simple_gitignore(lines: &[&str]) -> Gitignore {
    let mut b = GitignoreBuilder::new("");
    for l in lines {
        b.add_line(None, l).expect("ignore line");
    }
    b.build().expect("gitignore build")
}

fn streaming(out: ProcessOutput) -> Vec<String> {
    match out {
        ProcessOutput::Streaming(paths) => paths,
        ProcessOutput::SizeSorted(_) => panic!("expected streaming output"),
    }
}

fn sorted_lines(out: ProcessOutput) -> Vec<String> {
    match out {
        ProcessOutput::SizeSorted(lines) => lines,
        ProcessOutput::Streaming(_) => panic!("expected size-sorted output"),
    }
}

#[test]
fn vcs_component_detection() {
    assert!(path_has_vcs_component(".git/HEAD"));
    assert!(path_has_vcs_component("a/.git/b"));
    assert!(path_has_vcs_component("a/b/.git"));
    assert!(!path_has_vcs_component("a/gitx/b"));
    assert!(!path_has_vcs_component("a/.gitmodules"));
}

#[test]
fn gitignore_rules_exclude_matching_files() {
    let p = FileProcessor::new(
        args(true, false, false, false),
        ".".to_string(),
        Config { ignore: None },
        Some(simple_gitignore(&["*.log"])),
    );
    assert!(!p.should_process_entry("sub/debug.log", false));
    assert!(p.should_process_entry("src/main.rs", false));
}

#[test]
fn negated_gitignore_rule_reincludes() {
    let p = FileProcessor::new(
        args(true, false, false, false),
        ".".to_string(),
        Config { ignore: None },
        Some(simple_gitignore(&["*.log", "!keep.log"])),
    );
    assert!(!p.should_process_entry("sub/debug.log", false));
    assert!(p.should_process_entry("sub/keep.log", false));
}

#[test]
fn ignore_disable_drops_gitignore_rules_only() {
    let p = FileProcessor::new(
        args(true, true, false, false),
        ".".to_string(),
        Config { ignore: None },
        Some(simple_gitignore(&["*.log"])),
    );
    // The hierarchical rules are disabled ...
    assert!(p.should_process_entry("sub/debug.log", false));
    // ... but the VCS metadata rule still excludes.
    assert!(!p.should_process_entry(".git/HEAD", false));
}

#[test]
fn directory_scenario_emits_sources_only() {
    // Root holds src/main.rs, src/lib.rs and .git/HEAD; the pattern names
    // the directory `src`, not recursive, ignore rules on.
    let p = FileProcessor::new(
        args(false, false, false, false),
        ".".to_string(),
        Config { ignore: None },
        Some(simple_gitignore(&[])),
    );
    let walk = vec![
        entry("src", 0, true, None),
        entry("src/main.rs", 1, false, None),
        entry("src/lib.rs", 1, false, None),
    ];
    let out = streaming(p.process(&vec![dir_input("src", walk)]));
    assert_eq!(out, vec!["src/main.rs".to_string(), "src/lib.rs".to_string()]);
    assert!(!out.iter().any(|s| s.contains(".git")));
    // Streaming emits header and contents for each.
    let units = p.process_single_file("src/main.rs", Some(&"fn main() {}".to_string()));
    assert_eq!(
        units,
        vec![
            "# File: src/main.rs".to_string(),
            "fn main() {}".to_string(),
            "\n=====================\n".to_string(),
        ]
    );
}

#[test]
fn vcs_metadata_pruned_even_when_ignore_disabled() {
    let p = FileProcessor::new(
        args(true, true, false, false),
        ".".to_string(),
        Config { ignore: None },
        None,
    );
    let walk = vec![
        entry(".", 0, true, None),
        entry("./src", 1, true, None),
        entry("./src/main.rs", 2, false, None),
        entry("./.git", 1, true, None),
        entry("./.git/HEAD", 2, false, None),
    ];
    let out = streaming(p.process(&vec![glob_input("*", walk)]));
    assert_eq!(out, vec!["./src/main.rs".to_string()]);
}

#[test]
fn literal_file_inside_vcs_metadata_bypasses_rules() {
    let p = FileProcessor::new(
        args(false, false, false, false),
        ".".to_string(),
        Config { ignore: Some(vec!["*".to_string()]) },
        Some(simple_gitignore(&["*"])),
    );
    // Every source would exclude this path, yet the literal file is emitted.
    let out = streaming(p.process(&vec![file_input(".git/HEAD", None)]));
    assert_eq!(out, vec![".git/HEAD".to_string()]);
}

#[test]
fn missing_pattern_resolves_to_nothing() {
    let p = FileProcessor::new(
        args(false, false, false, false),
        ".".to_string(),
        Config { ignore: None },
        None,
    );
    let walk = vec![
        entry(".", 0, true, None),
        entry("./other.rs", 1, false, None),
    ];
    let out = streaming(p.process(&vec![glob_input("missing.txt", walk)]));
    assert!(out.is_empty());
}

#[test]
fn config_ignore_excludes_glob_but_not_literal() {
    let cfg = Config { ignore: Some(vec!["*.log".to_string()]) };
    let p = FileProcessor::new(args(true, false, false, false), ".".to_string(), cfg, None);
    let walk = vec![
        entry(".", 0, true, None),
        entry("./debug.log", 1, false, None),
        entry("./keep.txt", 1, false, None),
    ];
    let out = streaming(p.process(&vec![glob_input("*", walk)]));
    assert_eq!(out, vec!["./keep.txt".to_string()]);
    // The same file passed as an explicit literal pattern is still emitted.
    let p2 = FileProcessor::new(
        args(true, false, false, false),
        ".".to_string(),
        Config { ignore: Some(vec!["*.log".to_string()]) },
        None,
    );
    let out2 = streaming(p2.process(&vec![file_input("debug.log", None)]));
    assert_eq!(out2, vec!["debug.log".to_string()]);
}

#[test]
fn excluded_directory_prunes_whole_subtree() {
    // A directory-only rule ignores `secret`; the file beneath it matches
    // no rule itself, yet nothing under the directory is yielded.
    let p = FileProcessor::new(
        args(true, false, false, false),
        ".".to_string(),
        Config { ignore: None },
        Some(simple_gitignore(&["secret/"])),
    );
    assert!(p.should_process_entry("secret/deep/file.rs", false));
    let walk = vec![
        entry("secret", 0, true, None),
        entry("secret/deep", 1, true, None),
        entry("secret/deep/file.rs", 2, false, None),
    ];
    let out = streaming(p.process(&vec![dir_input("secret", walk)]));
    assert!(out.is_empty());
}

#[test]
fn non_recursive_walk_stops_at_depth_one() {
    let p = FileProcessor::new(
        args(false, false, false, false),
        ".".to_string(),
        Config { ignore: None },
        None,
    );
    let walk = vec![
        entry(".", 0, true, None),
        entry("./top.rs", 1, false, None),
        entry("./sub", 1, true, None),
        entry("./sub/deep.rs", 2, false, None),
    ];
    let out = streaming(p.process(&vec![glob_input("*", walk.clone())]));
    assert_eq!(out, vec!["./top.rs".to_string()]);
    let pr = FileProcessor::new(
        args(true, false, false, false),
        ".".to_string(),
        Config { ignore: None },
        None,
    );
    let out_r = streaming(pr.process(&vec![glob_input("*", walk)]));
    assert_eq!(out_r, vec!["./top.rs".to_string(), "./sub/deep.rs".to_string()]);
}

#[test]
fn size_sort_is_descending_and_stable() {
    let input = vec![
        ("a".to_string(), 10u64),
        ("b".to_string(), 30u64),
        ("c".to_string(), 10u64),
        ("d".to_string(), 30u64),
    ];
    let sorted = sort_by_size(&input);
    let names: Vec<&str> = sorted.iter().map(|pr| pr.0.as_str()).collect();
    assert_eq!(names, vec!["b", "d", "a", "c"]);
    assert_eq!(sorted[0].1, 30);
    assert_eq!(sorted[1].1, 30);
    assert_eq!(sorted[2].1, 10);
    assert_eq!(sorted[3].1, 10);
}

#[test]
fn size_sorted_mode_prints_relative_listing() {
    let p = FileProcessor::new(
        args(false, false, false, true),
        ".".to_string(),
        Config { ignore: None },
        None,
    );
    let walk = vec![
        entry(".", 0, true, None),
        entry("./src", 1, true, None),
        entry("./src/main.rs", 1, false, Some(50)),
        entry("./src/lib.rs", 1, false, Some(20)),
    ];
    let lines = sorted_lines(p.process(&vec![dir_input(".", walk)]));
    assert_eq!(
        lines,
        vec![
            "# File: ./src/main.rs (50 bytes)".to_string(),
            "# File: ./src/lib.rs (20 bytes)".to_string(),
        ]
    );
}

#[test]
fn size_sorted_mode_keeps_outside_paths_as_given() {
    let p = FileProcessor::new(
        args(false, false, false, true),
        "/work".to_string(),
        Config { ignore: None },
        None,
    );
    let lines = sorted_lines(p.process(&vec![file_input("/elsewhere/big.bin", Some(7))]));
    assert_eq!(lines, vec!["# File: /elsewhere/big.bin (7 bytes)".to_string()]);
}

#[test]
fn unreadable_size_is_dropped_silently() {
    let p = FileProcessor::new(
        args(false, false, false, true),
        ".".to_string(),
        Config { ignore: None },
        None,
    );
    let inputs = vec![file_input("gone.bin", None), file_input("there.bin", Some(3))];
    let lines = sorted_lines(p.process(&inputs));
    assert_eq!(lines, vec!["# File: there.bin (3 bytes)".to_string()]);
}

#[test]
fn files_only_emits_headers_without_contents() {
    let p = FileProcessor::new(
        args(false, false, true, false),
        ".".to_string(),
        Config { ignore: None },
        None,
    );
    let units = p.process_single_file("a.txt", Some(&"contents".to_string()));
    assert_eq!(units, vec!["# File: a.txt".to_string()]);
    let units_err = p.process_single_file("a.txt", None);
    assert_eq!(units_err, vec!["# File: a.txt".to_string()]);
}

#[test]
fn read_failure_prints_diagnostic_in_place_of_contents() {
    let p = FileProcessor::new(
        args(false, false, false, false),
        ".".to_string(),
        Config { ignore: None },
        None,
    );
    let units = p.process_single_file("bad.txt", None);
    assert_eq!(
        units,
        vec!["# File: bad.txt".to_string(), "Error reading file: bad.txt".to_string()]
    );
}

#[test]
fn duplicate_matches_are_emitted_twice() {
    let p = FileProcessor::new(
        args(true, false, false, false),
        ".".to_string(),
        Config { ignore: None },
        None,
    );
    let walk = vec![entry(".", 0, true, None), entry("./a.rs", 1, false, None)];
    let inputs = vec![glob_input("*", walk.clone()), glob_input("a.rs", walk)];
    let out = streaming(p.process(&inputs));
    assert_eq!(out, vec!["./a.rs".to_string(), "./a.rs".to_string()]);
}
