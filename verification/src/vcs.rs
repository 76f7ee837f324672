//! The version-control ignore sources: the fixed exclusion of VCS metadata
//! directories, and the hierarchical ignore rules kept by the `ignore`
//! crate's `Gitignore` matcher.

use crate::text::{split_on_char, split_to_segments, str_eq};
use vstd::prelude::*;
use vstd::string::*;

verus! {

/// The path components: the stretches between `/` separators.
pub open spec fn path_components(p: Seq<char>) -> Seq<Seq<char>> {
    split_on_char(p, '/')
}

/// Whether some component of the path is the VCS metadata directory name.
pub open spec fn has_vcs_component(p: Seq<char>) -> bool {
    exists|k: int| 0 <= k < path_components(p).len() && path_components(p)[k] == ".git"@
}

/// Whether the path has a `.git` component.
pub fn path_has_vcs_component(path: &str) -> (r: bool)
    ensures
        r == has_vcs_component(path@),
{
    let comps = split_to_segments(path, '/');
    let mut k: usize = 0;
    while k < comps.len()
        invariant
            comps.deep_view() == path_components(path@),
            comps.deep_view().len() == comps@.len(),
            0 <= k <= comps@.len(),
            forall|k2: int| 0 <= k2 < k ==> path_components(path@)[k2] != ".git"@,
        decreases comps.len() - k,
    {
        proof {
            assert(comps.deep_view()[k as int] == comps@[k as int]@);
        }
        if str_eq(comps[k].as_str(), ".git") {
            return true;
        }
        k += 1;
    }
    false
}

#[verifier::external_type_specification]
#[verifier::external_body]
pub struct ExGitignore(ignore::gitignore::Gitignore);

/// The verdict of a hierarchical ignore-rule matcher on one path: whether
/// the rules it holds mark that path, taken as a file or as a directory,
/// ignored.  The verdict is determined by the matcher's compiled rules and
/// the two arguments alone.
pub uninterp spec fn gitignore_verdict(
    gi: ignore::gitignore::Gitignore,
    path: Seq<char>,
    is_dir: bool,
) -> bool;

/// Relies on `ignore::gitignore::Gitignore::matched`, whose result is
/// computed from the matcher's in-memory rules and the given path and
/// directory flag, and on `Match::is_ignore`, which tells the ignoring
/// variant apart from the whitelisting and non-matching ones.
#[verifier::external_body]
pub fn gitignore_is_ignored(
    gi: &ignore::gitignore::Gitignore,
    path: &str,
    is_dir: bool,
) -> (r: bool)
    ensures
        r == gitignore_verdict(*gi, path@, is_dir),
{
    gi.matched(std::path::Path::new(path), is_dir).is_ignore()
}

} // verus!
