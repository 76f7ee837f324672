//! The data a directory walk hands to the selection pipeline: one record
//! per visited entry, in traversal order, plus the per-pattern probe of the
//! filesystem.

use crate::text::is_prefix_of;
use vstd::prelude::*;
use vstd::string::*;

verus! {

/// One entry of a directory walk, as the walker saw it on disk.
#[derive(Clone)]
pub struct RawEntry {
    /// The entry's path, as the walker reports it (the walk root followed
    /// by the relative path).
    pub path: String,
    /// Depth below the walk root; the root itself has depth zero.
    pub depth: usize,
    /// Whether the entry is a directory.
    pub is_dir: bool,
    /// Whether the entry is a regular file.
    pub is_file: bool,
    /// The entry's size in bytes, when it was collected; `None` both when
    /// sizes were not asked for and when the size could not be read.
    pub size: Option<u64>,
}

/// The mathematical image of a walk entry.
pub struct EntryModel {
    pub path: Seq<char>,
    pub depth: int,
    pub is_dir: bool,
    pub is_file: bool,
    pub size: Option<u64>,
}

impl View for RawEntry {
    type V = EntryModel;

    open spec fn view(&self) -> EntryModel {
        EntryModel {
            path: self.path@,
            depth: self.depth as int,
            is_dir: self.is_dir,
            is_file: self.is_file,
            size: self.size,
        }
    }
}

/// The images of a whole walk.
pub open spec fn walk_model(walk: Seq<RawEntry>) -> Seq<EntryModel> {
    walk.map_values(|e: RawEntry| e@)
}

/// One user pattern together with what the filesystem said about it.
pub struct PatternInput {
    /// The pattern as given.
    pub pattern: String,
    /// Whether a path of that name exists on disk.
    pub found: bool,
    /// Whether that existing path is a directory.
    pub found_dir: bool,
    /// For an existing regular file: its size in bytes, when it could be
    /// read; `None` also when sizes were not asked for.
    pub file_size: Option<u64>,
    /// The walk backing this pattern: rooted at the pattern's path for an
    /// existing directory, at the working directory for a glob; empty for
    /// an existing regular file.
    pub walk: Vec<RawEntry>,
}

/// The mathematical image of a pattern probe.
pub struct PatternInputModel {
    pub pattern: Seq<char>,
    pub found: bool,
    pub found_dir: bool,
    pub file_size: Option<u64>,
    pub walk: Seq<EntryModel>,
}

impl View for PatternInput {
    type V = PatternInputModel;

    open spec fn view(&self) -> PatternInputModel {
        PatternInputModel {
            pattern: self.pattern@,
            found: self.found,
            found_dir: self.found_dir,
            file_size: self.file_size,
            walk: walk_model(self.walk@),
        }
    }
}

/// `anc` is a strict path ancestor of `p`: `p` begins with `anc` followed
/// by a separator.
pub open spec fn is_path_ancestor(anc: Seq<char>, p: Seq<char>) -> bool {
    anc.len() + 1 <= p.len() && is_prefix_of(anc, p) && p[anc.len() as int] == '/'
}

/// Whether `anc` is a strict path ancestor of `p`.
pub fn path_ancestor_of(anc: &str, p: &str) -> (r: bool)
    ensures
        r == is_path_ancestor(anc@, p@),
{
    let an = anc.unicode_len();
    let pn = p.unicode_len();
    if an < pn && crate::text::str_starts_with(p, anc) {
        p.get_char(an) == '/'
    } else {
        false
    }
}

} // verus!
