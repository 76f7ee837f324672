//! The selection pipeline: per-pattern resolution over directory walks,
//! layered ignore filtering with subtree pruning, and the two output modes.

use crate::cli::CliArgs;
use crate::config::{spec_config_ignores, Config};
use crate::output::{
    header_line, size_line, spec_header_line, spec_read_error_line, spec_separator,
    spec_single_file_output, spec_size_line,
};
use crate::pattern::{glob_matches, Pattern};
use crate::sorting::{sort_by_size, sort_by_size_spec};
use crate::traversal::{
    is_path_ancestor, path_ancestor_of, walk_model, EntryModel, PatternInput, PatternInputModel,
    RawEntry,
};
use crate::vcs::{gitignore_is_ignored, gitignore_verdict, has_vcs_component, path_has_vcs_component};
use vstd::prelude::*;
use vstd::string::*;

verus! {

/// The images of a list of pattern probes.
pub open spec fn inputs_model(inputs: Seq<PatternInput>) -> Seq<PatternInputModel> {
    inputs.map_values(|p: PatternInput| p@)
}

/// The paths of a candidate list.
pub open spec fn spec_cand_paths(cands: Seq<EntryModel>) -> Seq<Seq<char>> {
    cands.map_values(|e: EntryModel| e.path)
}

/// The `(path, size)` pairs of the candidates whose size is known; a
/// candidate whose size could not be read is dropped silently.
pub open spec fn spec_sized(cands: Seq<EntryModel>) -> Seq<(Seq<char>, u64)>
    decreases cands.len(),
{
    if cands.len() == 0 {
        Seq::empty()
    } else {
        let rest = spec_sized(cands.drop_last());
        match cands.last().size {
            Option::Some(sz) => rest.push((cands.last().path, sz)),
            Option::None => rest,
        }
    }
}

/// The resolved output of one run, one value per output mode.
pub enum ProcessOutput {
    /// The candidate paths in resolution order; contents are emitted per
    /// path by the caller.
    Streaming(Vec<String>),
    /// The finished listing lines, size-sorted.
    SizeSorted(Vec<String>),
}

/// The selection pipeline, built once per run from the parsed options, the
/// loaded configuration and the hierarchical ignore rules.
pub struct FileProcessor {
    pub args: CliArgs,
    pub gitignore: Option<ignore::gitignore::Gitignore>,
    pub working_dir: String,
    pub config: Config,
}

impl FileProcessor {
    /// Builds the pipeline.  When the ignore-disable option is set, the
    /// hierarchical rules are discarded and that source never excludes.
    pub fn new(
        args: CliArgs,
        working_dir: String,
        config: Config,
        gitignore: Option<ignore::gitignore::Gitignore>,
    ) -> (r: Self)
        ensures
            r.args == args,
            r.working_dir == working_dir,
            r.config == config,
            r.gitignore == if args.ignore_gitignore {
                Option::<ignore::gitignore::Gitignore>::None
            } else {
                gitignore
            },
    {
        let gi = if args.ignore_gitignore {
            Option::None
        } else {
            gitignore
        };
        FileProcessor { args, gitignore: gi, working_dir, config }
    }

    /// The OR of the three ignore sources on one path, checked in order:
    /// the configured ignore list, the fixed VCS metadata rule, and the
    /// hierarchical rules (absent when disabled).
    pub open spec fn spec_excluded(&self, path: Seq<char>, is_dir: bool) -> bool {
        ||| spec_config_ignores(self.config@, path)
        ||| has_vcs_component(path)
        ||| match self.gitignore {
            Option::Some(gi) => gitignore_verdict(gi, path, is_dir),
            Option::None => false,
        }
    }

    /// Whether traversal keeps this entry: no ignore source excludes it.
    pub fn should_process_entry(&self, path: &str, is_dir: bool) -> (r: bool)
        ensures
            r == !self.spec_excluded(path@, is_dir),
    {
        if self.config.should_ignore(path) {
            return false;
        }
        if path_has_vcs_component(path) {
            return false;
        }
        match &self.gitignore {
            Option::Some(gi) => !gitignore_is_ignored(gi, path, is_dir),
            Option::None => true,
        }
    }

    /// The depth admitted by the recursive flag: unbounded when recursive,
    /// otherwise only the walk root's immediate children.
    pub open spec fn spec_depth_ok(&self, depth: int) -> bool {
        self.args.recursive || depth <= 1
    }

    /// Some directory of the walk is an ancestor of `path` and excluded:
    /// the subtree it roots is pruned.
    pub open spec fn spec_pruned_under(&self, walk: Seq<EntryModel>, path: Seq<char>) -> bool {
        exists|j: int|
            0 <= j < walk.len() && (#[trigger] walk[j]).is_dir && is_path_ancestor(
                walk[j].path,
                path,
            ) && self.spec_excluded(walk[j].path, walk[j].is_dir)
    }

    /// A walk entry that traversal yields as a candidate: a regular file
    /// within the admitted depth, not excluded itself, under no pruned
    /// directory, and matching the glob when one applies.
    pub open spec fn spec_yields(
        &self,
        full: Seq<EntryModel>,
        e: EntryModel,
        glob: Option<Seq<char>>,
    ) -> bool {
        &&& e.is_file
        &&& self.spec_depth_ok(e.depth)
        &&& !self.spec_excluded(e.path, e.is_dir)
        &&& !self.spec_pruned_under(full, e.path)
        &&& match glob {
            Option::Some(g) => glob_matches(g, e.path),
            Option::None => true,
        }
    }

    /// The candidates among the first `i` entries of the walk, in walk
    /// order.
    pub open spec fn spec_candidates_upto(
        &self,
        full: Seq<EntryModel>,
        i: int,
        glob: Option<Seq<char>>,
    ) -> Seq<EntryModel>
        decreases i,
    {
        if i <= 0 {
            Seq::empty()
        } else {
            let rest = self.spec_candidates_upto(full, i - 1, glob);
            if 0 <= i - 1 < full.len() && self.spec_yields(full, full[i - 1], glob) {
                rest.push(full[i - 1])
            } else {
                rest
            }
        }
    }

    /// The candidates of one walk, in walk order.
    pub open spec fn spec_walk_candidates(
        &self,
        full: Seq<EntryModel>,
        glob: Option<Seq<char>>,
    ) -> Seq<EntryModel> {
        self.spec_candidates_upto(full, full.len() as int, glob)
    }

    /// Every candidate satisfies the yield predicate.
    pub proof fn lemma_candidates_yield(
        &self,
        full: Seq<EntryModel>,
        i: int,
        glob: Option<Seq<char>>,
        k: int,
    )
        requires
            0 <= k < self.spec_candidates_upto(full, i, glob).len(),
        ensures
            self.spec_yields(full, self.spec_candidates_upto(full, i, glob)[k], glob),
        decreases i,
    {
        if i > 0 {
            let rest = self.spec_candidates_upto(full, i - 1, glob);
            if k < rest.len() {
                self.lemma_candidates_yield(full, i - 1, glob, k);
            }
        }
    }

    /// Pruning is subtree-wide: no candidate lies anywhere beneath a
    /// directory of the walk that any ignore source excludes.
    pub proof fn lemma_pruned_subtree_yields_nothing(
        &self,
        full: Seq<EntryModel>,
        j: int,
        glob: Option<Seq<char>>,
        k: int,
    )
        requires
            0 <= j < full.len(),
            full[j].is_dir,
            self.spec_excluded(full[j].path, full[j].is_dir),
            0 <= k < self.spec_walk_candidates(full, glob).len(),
        ensures
            !is_path_ancestor(full[j].path, self.spec_walk_candidates(full, glob)[k].path),
    {
        self.lemma_candidates_yield(full, full.len() as int, glob, k);
        let e = self.spec_walk_candidates(full, glob)[k];
        if is_path_ancestor(full[j].path, e.path) {
            assert((full[j]).is_dir && is_path_ancestor(full[j].path, e.path)
                && self.spec_excluded(full[j].path, full[j].is_dir));
            assert(self.spec_pruned_under(full, e.path));
        }
    }

    /// The fixed VCS metadata rule holds whatever the other sources and
    /// the ignore-disable option say.
    pub proof fn lemma_vcs_excluded_regardless(&self, path: Seq<char>, is_dir: bool)
        requires
            has_vcs_component(path),
        ensures
            self.spec_excluded(path, is_dir),
    {
    }

    /// Whether some excluded directory of the walk is an ancestor of
    /// `path`.
    fn has_excluded_ancestor(&self, walk: &Vec<RawEntry>, path: &str) -> (r: bool)
        ensures
            r == self.spec_pruned_under(walk_model(walk@), path@),
    {
        let wm = Ghost(walk_model(walk@));
        proof {
            assert(wm@.len() == walk@.len());
        }
        let mut j: usize = 0;
        while j < walk.len()
            invariant
                wm@ == walk_model(walk@),
                wm@.len() == walk@.len(),
                0 <= j <= walk@.len(),
                forall|j2: int|
                    0 <= j2 < j ==> !((#[trigger] wm@[j2]).is_dir && is_path_ancestor(
                        wm@[j2].path,
                        path@,
                    ) && self.spec_excluded(wm@[j2].path, wm@[j2].is_dir)),
            decreases walk.len() - j,
        {
            let d = &walk[j];
            proof {
                assert(wm@[j as int] == walk@[j as int]@);
            }
            if d.is_dir && path_ancestor_of(d.path.as_str(), path) && !self.should_process_entry(
                d.path.as_str(),
                d.is_dir,
            ) {
                proof {
                    assert((wm@[j as int]).is_dir && is_path_ancestor(wm@[j as int].path, path@)
                        && self.spec_excluded(wm@[j as int].path, wm@[j as int].is_dir));
                }
                return true;
            }
            j += 1;
        }
        false
    }

    /// One traversal step: whether entry `i` of the walk is yielded.
    fn entry_yields(&self, walk: &Vec<RawEntry>, i: usize, compiled: Option<&Pattern>, glob: Ghost<
        Option<Seq<char>>,
    >) -> (r: bool)
        requires
            i < walk@.len(),
            match (compiled, glob@) {
                (Option::Some(c), Option::Some(g)) => c.segs.deep_view()
                    == crate::pattern::split_on_star(crate::pattern::strip_dot_slash(g)),
                (Option::None, Option::None) => true,
                _ => false,
            },
        ensures
            r == self.spec_yields(walk_model(walk@), walk@[i as int]@, glob@),
    {
        let e = &walk[i];
        proof {
            assert(walk_model(walk@)[i as int] == walk@[i as int]@);
        }
        if !e.is_file {
            return false;
        }
        if !(self.args.recursive || e.depth <= 1) {
            return false;
        }
        if !self.should_process_entry(e.path.as_str(), e.is_dir) {
            return false;
        }
        if self.has_excluded_ancestor(walk, e.path.as_str()) {
            return false;
        }
        match compiled {
            Option::Some(c) => c.matches(e.path.as_str()),
            Option::None => true,
        }
    }

    /// Streaming resolution of a literal directory pattern: every file the
    /// pruned walk yields, in walk order.
    pub fn process_directory(&self, walk: &Vec<RawEntry>) -> (r: Vec<String>)
        ensures
            r.deep_view() == spec_cand_paths(
                self.spec_walk_candidates(walk_model(walk@), Option::None),
            ),
    {
        let wm = Ghost(walk_model(walk@));
        let mut out: Vec<String> = Vec::new();
        let mut i: usize = 0;
        proof {
            assert(out.deep_view() =~= spec_cand_paths(
                self.spec_candidates_upto(wm@, 0, Option::None),
            ));
        }
        while i < walk.len()
            invariant
                wm@ == walk_model(walk@),
                wm@.len() == walk@.len(),
                0 <= i <= walk@.len(),
                out.deep_view() == spec_cand_paths(
                    self.spec_candidates_upto(wm@, i as int, Option::None),
                ),
            decreases walk.len() - i,
        {
            let ghost prev = self.spec_candidates_upto(wm@, i as int, Option::None);
            if self.entry_yields(walk, i, Option::None, Ghost(Option::None)) {
                let ghost before = out.deep_view();
                out.push(walk[i].path.clone());
                proof {
                    assert(out.deep_view() =~= before.push(wm@[i as int].path));
                    assert(spec_cand_paths(prev.push(wm@[i as int])) =~= spec_cand_paths(
                        prev,
                    ).push(wm@[i as int].path));
                }
            }
            i += 1;
        }
        out
    }

    /// Streaming resolution of a glob pattern: every file the pruned walk
    /// yields whose path matches the compiled pattern, in walk order.
    pub fn process_glob_pattern(&self, pattern: &str, walk: &Vec<RawEntry>) -> (r: Vec<String>)
        ensures
            r.deep_view() == spec_cand_paths(
                self.spec_walk_candidates(walk_model(walk@), Option::Some(pattern@)),
            ),
    {
        let compiled = Pattern::compile(pattern);
        let g = Ghost(Option::Some(pattern@));
        let wm = Ghost(walk_model(walk@));
        let mut out: Vec<String> = Vec::new();
        let mut i: usize = 0;
        proof {
            assert(out.deep_view() =~= spec_cand_paths(self.spec_candidates_upto(wm@, 0, g@)));
        }
        while i < walk.len()
            invariant
                wm@ == walk_model(walk@),
                wm@.len() == walk@.len(),
                g@ == Option::Some(pattern@),
                compiled.segs.deep_view() == crate::pattern::split_on_star(
                    crate::pattern::strip_dot_slash(pattern@),
                ),
                0 <= i <= walk@.len(),
                out.deep_view() == spec_cand_paths(self.spec_candidates_upto(wm@, i as int, g@)),
            decreases walk.len() - i,
        {
            let ghost prev = self.spec_candidates_upto(wm@, i as int, g@);
            if self.entry_yields(walk, i, Option::Some(&compiled), g) {
                let ghost before = out.deep_view();
                out.push(walk[i].path.clone());
                proof {
                    assert(out.deep_view() =~= before.push(wm@[i as int].path));
                    assert(spec_cand_paths(prev.push(wm@[i as int])) =~= spec_cand_paths(
                        prev,
                    ).push(wm@[i as int].path));
                }
            }
            i += 1;
        }
        out
    }

    /// Size collection for a literal directory pattern: appends the
    /// `(path, size)` pair of every yielded file whose size is known.
    pub fn collect_files_with_sizes(&self, walk: &Vec<RawEntry>, files: &mut Vec<(String, u64)>)
        ensures
            final(files).deep_view() == old(files).deep_view() + spec_sized(
                self.spec_walk_candidates(walk_model(walk@), Option::None),
            ),
    {
        self.collect_sized(walk, Option::None, Ghost(Option::None), files);
    }

    /// Size collection for a glob pattern: appends the `(path, size)` pair
    /// of every yielded, matching file whose size is known.
    pub fn collect_files_from_glob(
        &self,
        pattern: &str,
        walk: &Vec<RawEntry>,
        files: &mut Vec<(String, u64)>,
    )
        ensures
            final(files).deep_view() == old(files).deep_view() + spec_sized(
                self.spec_walk_candidates(walk_model(walk@), Option::Some(pattern@)),
            ),
    {
        let compiled = Pattern::compile(pattern);
        self.collect_sized(walk, Option::Some(&compiled), Ghost(Option::Some(pattern@)), files);
    }

    /// The shared size-collecting traversal.
    fn collect_sized(
        &self,
        walk: &Vec<RawEntry>,
        compiled: Option<&Pattern>,
        glob: Ghost<Option<Seq<char>>>,
        files: &mut Vec<(String, u64)>,
    )
        requires
            match (compiled, glob@) {
                (Option::Some(c), Option::Some(g)) => c.segs.deep_view()
                    == crate::pattern::split_on_star(crate::pattern::strip_dot_slash(g)),
                (Option::None, Option::None) => true,
                _ => false,
            },
        ensures
            final(files).deep_view() == old(files).deep_view() + spec_sized(
                self.spec_walk_candidates(walk_model(walk@), glob@),
            ),
    {
        let wm = Ghost(walk_model(walk@));
        let ghost base = files.deep_view();
        let mut i: usize = 0;
        proof {
            assert(files.deep_view() =~= base + spec_sized(
                self.spec_candidates_upto(wm@, 0, glob@),
            ));
        }
        while i < walk.len()
            invariant
                wm@ == walk_model(walk@),
                wm@.len() == walk@.len(),
                match (compiled, glob@) {
                    (Option::Some(c), Option::Some(g)) => c.segs.deep_view()
                        == crate::pattern::split_on_star(crate::pattern::strip_dot_slash(g)),
                    (Option::None, Option::None) => true,
                    _ => false,
                },
                0 <= i <= walk@.len(),
                files.deep_view() == base + spec_sized(
                    self.spec_candidates_upto(wm@, i as int, glob@),
                ),
            decreases walk.len() - i,
        {
            let ghost prev = self.spec_candidates_upto(wm@, i as int, glob@);
            if self.entry_yields(walk, i, compiled, glob) {
                match walk[i].size {
                    Option::Some(sz) => {
                        let ghost before = files.deep_view();
                        files.push((walk[i].path.clone(), sz));
                        proof {
                            assert(files.deep_view() =~= before.push((wm@[i as int].path, sz)));
                            assert(prev.push(wm@[i as int]).drop_last() =~= prev);
                            assert(prev.push(wm@[i as int]).last() == wm@[i as int]);
                            assert(spec_sized(prev.push(wm@[i as int])) =~= spec_sized(prev).push(
                                (wm@[i as int].path, sz),
                            ));
                        }
                    },
                    Option::None => {
                        proof {
                            assert(prev.push(wm@[i as int]).drop_last() =~= prev);
                            assert(prev.push(wm@[i as int]).last() == wm@[i as int]);
                            assert(spec_sized(prev.push(wm@[i as int])) =~= spec_sized(prev));
                        }
                    },
                }
            }
            i += 1;
        }
    }

    /// The streaming candidates one pattern contributes: every file of the
    /// pruned walk for a literal directory, the path itself for a literal
    /// file (bypassing every ignore source), the matching files of the
    /// working-directory walk for a glob.
    pub open spec fn spec_pattern_stream(&self, inp: PatternInputModel) -> Seq<Seq<char>> {
        if inp.found {
            if inp.found_dir {
                spec_cand_paths(self.spec_walk_candidates(inp.walk, Option::None))
            } else {
                seq![inp.pattern]
            }
        } else {
            spec_cand_paths(self.spec_walk_candidates(inp.walk, Option::Some(inp.pattern)))
        }
    }

    /// The streaming candidates of all patterns, in pattern order, without
    /// deduplication.
    pub open spec fn spec_stream_all(&self, inputs: Seq<PatternInputModel>) -> Seq<Seq<char>>
        decreases inputs.len(),
    {
        if inputs.len() == 0 {
            Seq::empty()
        } else {
            self.spec_stream_all(inputs.drop_last()) + self.spec_pattern_stream(inputs.last())
        }
    }

    /// The `(path, size)` pairs one pattern contributes in size mode; a
    /// literal file whose size could not be read contributes nothing.
    pub open spec fn spec_pattern_sized(&self, inp: PatternInputModel) -> Seq<(Seq<char>, u64)> {
        if inp.found {
            if inp.found_dir {
                spec_sized(self.spec_walk_candidates(inp.walk, Option::None))
            } else {
                match inp.file_size {
                    Option::Some(sz) => seq![(inp.pattern, sz)],
                    Option::None => Seq::empty(),
                }
            }
        } else {
            spec_sized(self.spec_walk_candidates(inp.walk, Option::Some(inp.pattern)))
        }
    }

    /// The pairs of all patterns, in pattern order.
    pub open spec fn spec_sized_all(&self, inputs: Seq<PatternInputModel>) -> Seq<(Seq<char>, u64)>
        decreases inputs.len(),
    {
        if inputs.len() == 0 {
            Seq::empty()
        } else {
            self.spec_sized_all(inputs.drop_last()) + self.spec_pattern_sized(inputs.last())
        }
    }

    /// The finished lines of the size-sorted mode: the collected pairs,
    /// sorted by size descending (stable), each rendered as a listing line.
    pub open spec fn spec_size_sorted_lines(&self, inputs: Seq<PatternInputModel>) -> Seq<
        Seq<char>,
    > {
        sort_by_size_spec(self.spec_sized_all(inputs)).map_values(
            |pr: (Seq<char>, u64)| spec_size_line(self.working_dir@, pr.0, pr.1),
        )
    }

    /// An explicitly named literal file bypasses every ignore source: it
    /// is emitted unconditionally, however the rules treat its path.
    pub proof fn lemma_literal_file_bypass(&self, inp: PatternInputModel)
        requires
            inp.found,
            !inp.found_dir,
        ensures
            self.spec_pattern_stream(inp) == seq![inp.pattern],
    {
    }

    /// Traversal-based resolution never yields a path with a VCS metadata
    /// component, whatever the options say.
    pub proof fn lemma_no_vcs_candidates(&self, full: Seq<EntryModel>, glob: Option<Seq<char>>, k: int)
        requires
            0 <= k < self.spec_walk_candidates(full, glob).len(),
        ensures
            !has_vcs_component(self.spec_walk_candidates(full, glob)[k].path),
    {
        self.lemma_candidates_yield(full, full.len() as int, glob, k);
    }

    /// Every line of the size-sorted mode is a listing line: a path and a
    /// size, never file contents.
    pub proof fn lemma_size_mode_lines(&self, inputs: Seq<PatternInputModel>, k: int)
        requires
            0 <= k < self.spec_size_sorted_lines(inputs).len(),
        ensures
            exists|pr: (Seq<char>, u64)|
                self.spec_size_sorted_lines(inputs)[k] == #[trigger] spec_size_line(
                    self.working_dir@,
                    pr.0,
                    pr.1,
                ),
    {
        let pr = sort_by_size_spec(self.spec_sized_all(inputs))[k];
        assert(self.spec_size_sorted_lines(inputs)[k] == spec_size_line(
            self.working_dir@,
            pr.0,
            pr.1,
        ));
    }

    /// The streaming units for one resolved file, from its path and the
    /// result of reading it (`None` when the read failed).
    pub fn process_single_file(&self, path: &str, contents: Option<&String>) -> (r: Vec<String>)
        ensures
            r.deep_view() == spec_single_file_output(
                path@,
                match contents {
                    Option::Some(c) => Option::Some(c@),
                    Option::None => Option::None,
                },
                self.args.files_only,
            ),
    {
        let mut out: Vec<String> = Vec::new();
        out.push(header_line(path));
        if !self.args.files_only {
            match contents {
                Option::Some(c) => {
                    out.push(c.clone());
                    out.push(String::from_str("\n=====================\n"));
                    proof {
                        assert(out.deep_view() =~= seq![
                            spec_header_line(path@),
                            c@,
                            spec_separator(),
                        ]);
                    }
                },
                Option::None => {
                    let mut e = String::from_str("Error reading file: ");
                    e.append(path);
                    out.push(e);
                    proof {
                        assert(out.deep_view() =~= seq![
                            spec_header_line(path@),
                            spec_read_error_line(path@),
                        ]);
                    }
                },
            }
        } else {
            proof {
                assert(out.deep_view() =~= seq![spec_header_line(path@)]);
            }
        }
        out
    }

    /// Size-sorted processing: collects every candidate's size, sorts by
    /// size descending (stable), and renders one listing line per file.
    pub fn process_with_size_sorting(&self, inputs: &Vec<PatternInput>) -> (r: Vec<String>)
        ensures
            r.deep_view() == self.spec_size_sorted_lines(inputs_model(inputs@)),
    {
        let im = Ghost(inputs_model(inputs@));
        let mut pairs: Vec<(String, u64)> = Vec::new();
        let mut i: usize = 0;
        proof {
            assert(im@.len() == inputs@.len());
            assert(im@.take(0) =~= Seq::<PatternInputModel>::empty());
            assert(pairs.deep_view() =~= self.spec_sized_all(im@.take(0)));
        }
        while i < inputs.len()
            invariant
                im@ == inputs_model(inputs@),
                im@.len() == inputs@.len(),
                0 <= i <= inputs@.len(),
                pairs.deep_view() == self.spec_sized_all(im@.take(i as int)),
            decreases inputs.len() - i,
        {
            let ghost prev = self.spec_sized_all(im@.take(i as int));
            let inp = &inputs[i];
            proof {
                assert(im@[i as int] == inputs@[i as int]@);
            }
            if inp.found {
                if inp.found_dir {
                    self.collect_files_with_sizes(&inp.walk, &mut pairs);
                } else {
                    match inp.file_size {
                        Option::Some(sz) => {
                            let ghost before = pairs.deep_view();
                            pairs.push((inp.pattern.clone(), sz));
                            proof {
                                assert(pairs.deep_view() =~= before.push((inp.pattern@, sz)));
                                assert(before.push((inp.pattern@, sz)) =~= before + seq![
                                    (inp.pattern@, sz),
                                ]);
                            }
                        },
                        Option::None => {
                            proof {
                                assert(pairs.deep_view() =~= prev
                                    + Seq::<(Seq<char>, u64)>::empty());
                            }
                        },
                    }
                }
            } else {
                self.collect_files_from_glob(inp.pattern.as_str(), &inp.walk, &mut pairs);
            }
            proof {
                assert(im@.take(i + 1).drop_last() =~= im@.take(i as int));
                assert(im@.take(i + 1).last() == im@[i as int]);
            }
            i += 1;
        }
        proof {
            assert(im@.take(inputs@.len() as int) =~= im@);
        }
        let sorted = sort_by_size(&pairs);
        let sm = Ghost(sorted.deep_view());
        let mut lines: Vec<String> = Vec::new();
        let mut k: usize = 0;
        while k < sorted.len()
            invariant
                sm@ == sorted.deep_view(),
                sm@.len() == sorted@.len(),
                sm@ == sort_by_size_spec(self.spec_sized_all(im@)),
                im@ == inputs_model(inputs@),
                0 <= k <= sorted@.len(),
                lines.deep_view().len() == k,
                forall|t: int|
                    0 <= t < k ==> lines.deep_view()[t] == spec_size_line(
                        self.working_dir@,
                        sm@[t].0,
                        sm@[t].1,
                    ),
            decreases sorted.len() - k,
        {
            proof {
                assert(sm@[k as int] == sorted@[k as int].deep_view());
            }
            let ln = size_line(self.working_dir.as_str(), sorted[k].0.as_str(), sorted[k].1);
            let ghost before = lines.deep_view();
            lines.push(ln);
            proof {
                assert(lines.deep_view() =~= before.push(ln@));
            }
            k += 1;
        }
        proof {
            assert(lines.deep_view() =~= self.spec_size_sorted_lines(im@));
        }
        lines
    }

    /// Resolves every pattern, in order, into the output of the selected
    /// mode: size-sorted listing lines, or the stream of candidate paths.
    pub fn process(&self, inputs: &Vec<PatternInput>) -> (r: ProcessOutput)
        ensures
            self.args.sort_by_size ==> (r matches ProcessOutput::SizeSorted(lines)
                && lines.deep_view() == self.spec_size_sorted_lines(inputs_model(inputs@))),
            !self.args.sort_by_size ==> (r matches ProcessOutput::Streaming(paths)
                && paths.deep_view() == self.spec_stream_all(inputs_model(inputs@))),
    {
        if self.args.sort_by_size {
            ProcessOutput::SizeSorted(self.process_with_size_sorting(inputs))
        } else {
            let im = Ghost(inputs_model(inputs@));
            let mut out: Vec<String> = Vec::new();
            let mut i: usize = 0;
            proof {
                assert(im@.len() == inputs@.len());
                assert(im@.take(0) =~= Seq::<PatternInputModel>::empty());
                assert(out.deep_view() =~= self.spec_stream_all(im@.take(0)));
            }
            while i < inputs.len()
                invariant
                    im@ == inputs_model(inputs@),
                    im@.len() == inputs@.len(),
                    0 <= i <= inputs@.len(),
                    out.deep_view() == self.spec_stream_all(im@.take(i as int)),
                decreases inputs.len() - i,
            {
                let ghost prev = self.spec_stream_all(im@.take(i as int));
                let inp = &inputs[i];
                proof {
                    assert(im@[i as int] == inputs@[i as int]@);
                }
                if inp.found {
                    if inp.found_dir {
                        let mut v = self.process_directory(&inp.walk);
                        let ghost vdv = v.deep_view();
                        let ghost odv = out.deep_view();
                        out.append(&mut v);
                        proof {
                            assert(out.deep_view() =~= odv + vdv);
                        }
                    } else {
                        let ghost odv = out.deep_view();
                        out.push(inp.pattern.clone());
                        proof {
                            assert(out.deep_view() =~= odv.push(inp.pattern@));
                            assert(odv.push(inp.pattern@) =~= odv + seq![inp.pattern@]);
                        }
                    }
                } else {
                    let mut v = self.process_glob_pattern(inp.pattern.as_str(), &inp.walk);
                    let ghost vdv = v.deep_view();
                    let ghost odv = out.deep_view();
                    out.append(&mut v);
                    proof {
                        assert(out.deep_view() =~= odv + vdv);
                    }
                }
                proof {
                    assert(im@.take(i + 1).drop_last() =~= im@.take(i as int));
                    assert(im@.take(i + 1).last() == im@[i as int]);
                }
                i += 1;
            }
            proof {
                assert(im@.take(inputs@.len() as int) =~= im@);
            }
            ProcessOutput::Streaming(out)
        }
    }
}

} // verus!
