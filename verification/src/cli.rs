//! The options record that drives the selection pipeline, and the scanner
//! that fills it from a raw argument list.

use crate::text::str_eq;
use vstd::prelude::*;
use vstd::string::*;

verus! {

/// The parsed command-line options that the selection pipeline consumes.
pub struct CliArgs {
    pub recursive: bool,
    pub ignore_gitignore: bool,
    pub patterns: Vec<String>,
    pub github_url: Option<String>,
    pub show_version: bool,
    pub files_only: bool,
    pub sort_by_size: bool,
}

/// The mathematical image of a `CliArgs` value.
pub struct ArgsModel {
    pub recursive: bool,
    pub ignore_gitignore: bool,
    pub patterns: Seq<Seq<char>>,
    pub github_url: Option<Seq<char>>,
    pub show_version: bool,
    pub files_only: bool,
    pub sort_by_size: bool,
}

/// The view of an optional string.
pub open spec fn opt_view(o: Option<String>) -> Option<Seq<char>> {
    match o {
        Option::Some(u) => Option::Some(u@),
        Option::None => Option::None,
    }
}

impl View for CliArgs {
    type V = ArgsModel;

    open spec fn view(&self) -> ArgsModel {
        ArgsModel {
            recursive: self.recursive,
            ignore_gitignore: self.ignore_gitignore,
            patterns: self.patterns.deep_view(),
            github_url: opt_view(self.github_url),
            show_version: self.show_version,
            files_only: self.files_only,
            sort_by_size: self.sort_by_size,
        }
    }
}

/// The options before any argument has been read.
pub open spec fn init_model() -> ArgsModel {
    ArgsModel {
        recursive: false,
        ignore_gitignore: false,
        patterns: Seq::empty(),
        github_url: Option::None,
        show_version: false,
        files_only: false,
        sort_by_size: false,
    }
}

/// One pass over the argument list from position `i` onward: flags set
/// their option, `--url` consumes the following argument as the remote
/// source, anything else not beginning with `-` is a pattern.
pub open spec fn parse_from(args: Seq<Seq<char>>, i: int, st: ArgsModel) -> ArgsModel
    decreases args.len() - i,
{
    if i < 0 || i >= args.len() {
        st
    } else {
        let a = args[i];
        if a == "-r"@ {
            parse_from(args, i + 1, ArgsModel { recursive: true, ..st })
        } else if a == "-i"@ {
            parse_from(args, i + 1, ArgsModel { ignore_gitignore: true, ..st })
        } else if a == "--files-only"@ {
            parse_from(args, i + 1, ArgsModel { files_only: true, ..st })
        } else if a == "-v"@ || a == "--version"@ {
            parse_from(args, i + 1, ArgsModel { show_version: true, ..st })
        } else if a == "--sort-size"@ {
            parse_from(args, i + 1, ArgsModel { sort_by_size: true, ..st })
        } else if a == "--url"@ {
            if i + 1 < args.len() {
                parse_from(args, i + 2, ArgsModel { github_url: Option::Some(args[i + 1]), ..st })
            } else {
                parse_from(args, i + 1, st)
            }
        } else if a.len() > 0 && a[0] == '-' {
            parse_from(args, i + 1, st)
        } else {
            parse_from(args, i + 1, ArgsModel { patterns: st.patterns.push(a), ..st })
        }
    }
}

/// The options denoted by a full argument list (the first entry is the
/// program name).  When no pattern was given but a remote source was, the
/// pattern list defaults to the single match-everything pattern.
pub open spec fn parse_model(args: Seq<Seq<char>>) -> ArgsModel {
    let st = parse_from(args, 1, init_model());
    if st.patterns.len() == 0 && st.github_url is Some {
        ArgsModel { patterns: seq!["*"@], ..st }
    } else {
        st
    }
}

impl CliArgs {
    /// Scans a raw argument list into the options record.
    pub fn parse(args: &Vec<String>) -> (r: CliArgs)
        ensures
            r@ == parse_model(args.deep_view()),
    {
        let av = Ghost(args.deep_view());
        proof {
            assert(av@.len() == args@.len());
        }
        let mut recursive = false;
        let mut ignore_gitignore = false;
        let mut patterns: Vec<String> = Vec::new();
        let mut github_url: Option<String> = Option::None;
        let mut show_version = false;
        let mut files_only = false;
        let mut sort_by_size = false;
        let mut i: usize = 1;
        proof {
            assert(patterns.deep_view() =~= Seq::<Seq<char>>::empty());
            assert(ArgsModel {
                recursive,
                ignore_gitignore,
                patterns: patterns.deep_view(),
                github_url: opt_view(github_url),
                show_version,
                files_only,
                sort_by_size,
            } == init_model());
        }
        while i < args.len()
            invariant
                av@ == args.deep_view(),
                av@.len() == args@.len(),
                1 <= i,
                parse_from(av@, 1, init_model()) == parse_from(
                    av@,
                    i as int,
                    ArgsModel {
                        recursive,
                        ignore_gitignore,
                        patterns: patterns.deep_view(),
                        github_url: opt_view(github_url),
                        show_version,
                        files_only,
                        sort_by_size,
                    },
                ),
            decreases args.len() - i,
        {
            proof {
                assert(av@[i as int] == args@[i as int]@);
            }
            let a: &String = &args[i];
            if str_eq(a.as_str(), "-r") {
                recursive = true;
            } else if str_eq(a.as_str(), "-i") {
                ignore_gitignore = true;
            } else if str_eq(a.as_str(), "--files-only") {
                files_only = true;
            } else if str_eq(a.as_str(), "-v") || str_eq(a.as_str(), "--version") {
                show_version = true;
            } else if str_eq(a.as_str(), "--sort-size") {
                sort_by_size = true;
            } else if str_eq(a.as_str(), "--url") {
                if i + 1 < args.len() {
                    proof {
                        assert(av@[i as int + 1] == args@[i as int + 1]@);
                    }
                    github_url = Option::Some(args[i + 1].clone());
                    i += 1;
                }
            } else {
                if a.as_str().unicode_len() == 0 || a.as_str().get_char(0) != '-' {
                    let ghost before = patterns.deep_view();
                    patterns.push(a.clone());
                    proof {
                        assert(patterns.deep_view() =~= before.push(a@));
                    }
                }
            }
            i += 1;
        }
        if patterns.len() == 0 && github_url.is_some() {
            let ghost before = patterns.deep_view();
            patterns.push(String::from_str("*"));
            proof {
                assert(patterns.deep_view() =~= seq!["*"@]);
            }
        }
        CliArgs {
            recursive,
            ignore_gitignore,
            patterns,
            github_url,
            show_version,
            files_only,
            sort_by_size,
        }
    }

    /// A run is possible when there is something to do: a version request,
    /// at least one pattern, or a remote source.
    pub fn is_valid(&self) -> (r: bool)
        ensures
            r == (self@.show_version || self@.patterns.len() > 0 || self@.github_url is Some),
    {
        self.show_version || self.patterns.len() > 0 || self.github_url.is_some()
    }
}

} // verus!
