//! The glob pattern matcher.
//!
//! A pattern is a wildcard expression in which `*` matches any character
//! sequence (it also spans path separators); every other character stands
//! for itself.  A leading `./` is stripped from the pattern.  Matching is
//! substring-anchored, not full-path-anchored: the path matches when the
//! pattern's literal segments occur in it, in order, anywhere.

use crate::text::{find_from, occurs_at, split_on_char, split_to_segments};
use vstd::prelude::*;
use vstd::string::*;

verus! {

/// The literal segments of a pattern: the pieces between the `*` wildcards.
pub open spec fn split_on_star(p: Seq<char>) -> Seq<Seq<char>> {
    split_on_char(p, '*')
}

/// The pattern with one leading `./` removed.
pub open spec fn strip_dot_slash(p: Seq<char>) -> Seq<char> {
    if p.len() >= 2 && p[0] == '.' && p[1] == '/' {
        p.subrange(2, p.len() as int)
    } else {
        p
    }
}

/// The segments occur in `path`, in order, each at or after the end of the
/// previous one, the first no earlier than `from`.
pub open spec fn segs_match_from(segs: Seq<Seq<char>>, path: Seq<char>, from: int) -> bool
    decreases segs.len(),
{
    if segs.len() == 0 {
        true
    } else {
        exists|pos: int|
            from <= pos && #[trigger] occurs_at(path, segs[0], pos) && segs_match_from(
                segs.drop_first(),
                path,
                pos + segs[0].len(),
            )
    }
}

/// The substring-anchored glob semantics: `path` matches `pattern`.
pub open spec fn glob_matches(pattern: Seq<char>, path: Seq<char>) -> bool {
    segs_match_from(split_on_star(strip_dot_slash(pattern)), path, 0)
}

/// A match found at or after a later start is also found from an earlier one.
pub proof fn lemma_match_monotone(segs: Seq<Seq<char>>, path: Seq<char>, a: int, b: int)
    requires
        a <= b,
        segs_match_from(segs, path, b),
    ensures
        segs_match_from(segs, path, a),
{
    if segs.len() > 0 {
        let pos = choose|pos: int|
            b <= pos && #[trigger] occurs_at(path, segs[0], pos) && segs_match_from(
                segs.drop_first(),
                path,
                pos + segs[0].len(),
            );
        assert(a <= pos && occurs_at(path, segs[0], pos) && segs_match_from(
            segs.drop_first(),
            path,
            pos + segs[0].len(),
        ));
    }
}

/// Taking the earliest occurrence of the first segment loses no match.
proof fn lemma_greedy_step(segs: Seq<Seq<char>>, path: Seq<char>, from: int, p: int)
    requires
        segs.len() > 0,
        from <= p,
        occurs_at(path, segs[0], p),
        forall|q: int| from <= q < p ==> !occurs_at(path, segs[0], q),
    ensures
        segs_match_from(segs, path, from) <==> segs_match_from(
            segs.drop_first(),
            path,
            p + segs[0].len(),
        ),
{
    if segs_match_from(segs, path, from) {
        let pos = choose|pos: int|
            from <= pos && #[trigger] occurs_at(path, segs[0], pos) && segs_match_from(
                segs.drop_first(),
                path,
                pos + segs[0].len(),
            );
        assert(p <= pos);
        lemma_match_monotone(segs.drop_first(), path, p + segs[0].len(), pos + segs[0].len());
    }
    if segs_match_from(segs.drop_first(), path, p + segs[0].len()) {
        assert(from <= p && occurs_at(path, segs[0], p) && segs_match_from(
            segs.drop_first(),
            path,
            p + segs[0].len(),
        ));
    }
}

/// A glob pattern compiled to its literal segments.
pub struct Pattern {
    pub segs: Vec<String>,
}

impl Pattern {
    /// The compiled form of `pattern`: the literal segments between its
    /// `*` wildcards, after stripping a leading `./`.  Every string
    /// compiles; this pattern language has no malformed patterns.
    pub fn compile(pattern: &str) -> (r: Pattern)
        ensures
            r.segs.deep_view() == split_on_star(strip_dot_slash(pattern@)),
    {
        let n0 = pattern.unicode_len();
        let stripped: &str = if n0 >= 2 && pattern.get_char(0) == '.' && pattern.get_char(1) == '/' {
            pattern.substring_char(2, n0)
        } else {
            pattern
        };
        assert(stripped@ == strip_dot_slash(pattern@));
        Pattern { segs: split_to_segments(stripped, '*') }
    }

    /// Whether `path` matches this compiled pattern.
    pub fn matches(&self, path: &str) -> (r: bool)
        ensures
            r == segs_match_from(self.segs.deep_view(), path@, 0),
    {
        let pn = path.unicode_len();
        let dv = Ghost(self.segs.deep_view());
        let mut i: usize = 0;
        let mut from: usize = 0;
        proof {
            assert(dv@.skip(0) =~= dv@);
        }
        while i < self.segs.len()
            invariant
                dv@ == self.segs.deep_view(),
                dv@.len() == self.segs.len(),
                pn == path@.len(),
                0 <= i <= dv@.len(),
                from <= pn || dv@.skip(i as int).len() == 0,
                segs_match_from(dv@, path@, 0) <==> segs_match_from(
                    dv@.skip(i as int),
                    path@,
                    from as int,
                ),
            decreases self.segs.len() - i,
        {
            let seg: &String = &self.segs[i];
            let tail = Ghost(dv@.skip(i as int));
            proof {
                assert(tail@[0] == dv@[i as int]);
                assert(tail@.drop_first() =~= dv@.skip(i as int + 1));
            }
            match find_from(path, seg.as_str(), from) {
                Option::None => {
                    proof {
                        if segs_match_from(tail@, path@, from as int) {
                            let pos = choose|pos: int|
                                from <= pos && #[trigger] occurs_at(path@, tail@[0], pos)
                                    && segs_match_from(
                                    tail@.drop_first(),
                                    path@,
                                    pos + tail@[0].len(),
                                );
                            assert(!occurs_at(path@, seg@, pos));
                        }
                    }
                    return false;
                },
                Option::Some(p) => {
                    proof {
                        lemma_greedy_step(tail@, path@, from as int, p as int);
                    }
                    let sl = seg.as_str().unicode_len();
                    from = p + sl;
                    i += 1;
                },
            }
        }
        proof {
            assert(dv@.skip(i as int).len() == 0);
        }
        true
    }
}

/// The matcher is substring-anchored: when some stretch of a path matches
/// the pattern, any path containing that stretch matches it too.
pub proof fn lemma_match_substring_anchored(
    pattern: Seq<char>,
    a: Seq<char>,
    b: Seq<char>,
    off: int,
)
    requires
        glob_matches(pattern, a),
        0 <= off,
        off + a.len() <= b.len(),
        b.subrange(off, off + a.len() as int) == a,
    ensures
        glob_matches(pattern, b),
{
    let segs = split_on_star(strip_dot_slash(pattern));
    lemma_segs_shift(segs, a, b, off, 0);
    lemma_match_monotone(segs, b, 0, off);
}

/// Shifting every match position by the offset of `a` inside `b` turns a
/// match against `a` into a match against `b`.
proof fn lemma_segs_shift(segs: Seq<Seq<char>>, a: Seq<char>, b: Seq<char>, off: int, from: int)
    requires
        0 <= off,
        off + a.len() <= b.len(),
        b.subrange(off, off + a.len() as int) == a,
        segs_match_from(segs, a, from),
    ensures
        segs_match_from(segs, b, from + off),
    decreases segs.len(),
{
    if segs.len() > 0 {
        let pos = choose|pos: int|
            from <= pos && #[trigger] occurs_at(a, segs[0], pos) && segs_match_from(
                segs.drop_first(),
                a,
                pos + segs[0].len(),
            );
        let l = segs[0].len() as int;
        assert forall|k: int| 0 <= k < l implies b.subrange(pos + off, pos + off + l)[k]
            == segs[0][k] by {
            assert(b.subrange(off, off + a.len() as int)[pos + k] == b[off + pos + k]);
            assert(a.subrange(pos, pos + l)[k] == a[pos + k]);
        }
        assert(b.subrange(pos + off, pos + off + l) =~= segs[0]);
        assert(occurs_at(b, segs[0], pos + off));
        lemma_segs_shift(segs.drop_first(), a, b, off, pos + l);
        assert(from + off <= pos + off && occurs_at(b, segs[0], pos + off) && segs_match_from(
            segs.drop_first(),
            b,
            pos + off + segs[0].len(),
        ));
    }
}

} // verus!
