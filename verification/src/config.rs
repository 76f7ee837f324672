//! The project-local ignore configuration: an optional ordered list of glob
//! strings whose matches are excluded from traversal-based resolution.

use crate::pattern::{glob_matches, Pattern};
use vstd::prelude::*;
use vstd::string::*;

verus! {

/// The loaded configuration.  An absent or unreadable configuration file
/// yields `ignore: None`, which excludes nothing.
pub struct Config {
    pub ignore: Option<Vec<String>>,
}

impl View for Config {
    type V = Option<Seq<Seq<char>>>;

    open spec fn view(&self) -> Option<Seq<Seq<char>>> {
        match self.ignore {
            Option::Some(v) => Option::Some(v.deep_view()),
            Option::None => Option::None,
        }
    }
}

/// Some glob of the list matches `path`.
pub open spec fn config_ignore_hit(globs: Seq<Seq<char>>, path: Seq<char>) -> bool {
    exists|k: int| 0 <= k < globs.len() && #[trigger] glob_matches(globs[k], path)
}

/// Whether an ignore list excludes `path`: some configured glob matches it.
pub open spec fn spec_config_ignores(ignore: Option<Seq<Seq<char>>>, path: Seq<char>) -> bool {
    match ignore {
        Option::Some(globs) => config_ignore_hit(globs, path),
        Option::None => false,
    }
}

impl Config {
    /// Whether the configured ignore list excludes `path`.
    pub fn should_ignore(&self, path: &str) -> (r: bool)
        ensures
            r == spec_config_ignores(self@, path@),
    {
        match &self.ignore {
            Option::None => false,
            Option::Some(globs) => {
                let mut k: usize = 0;
                while k < globs.len()
                    invariant
                        0 <= k <= globs.len(),
                        self@ == Option::Some(globs.deep_view()),
                        globs.deep_view().len() == globs@.len(),
                        forall|k2: int|
                            0 <= k2 < k ==> !#[trigger] glob_matches(globs.deep_view()[k2], path@),
                    decreases globs.len() - k,
                {
                    let compiled = Pattern::compile(globs[k].as_str());
                    proof {
                        assert(globs.deep_view()[k as int] == globs@[k as int]@);
                    }
                    if compiled.matches(path) {
                        proof {
                            assert(glob_matches(globs.deep_view()[k as int], path@));
                            assert(config_ignore_hit(globs.deep_view(), path@));
                        }
                        return true;
                    }
                    k += 1;
                }
                false
            },
        }
    }
}

} // verus!
