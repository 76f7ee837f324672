//! Character-level string utilities: equality, substring search, prefix
//! tests, and decimal rendering of sizes.

use vstd::prelude::*;
use vstd::string::*;

verus! {

/// True when `pre` is a prefix of `s`.
pub open spec fn is_prefix_of(pre: Seq<char>, s: Seq<char>) -> bool {
    pre.len() <= s.len() && s.subrange(0, pre.len() as int) == pre
}

/// True when `needle` occurs in `hay` starting at position `pos`.
pub open spec fn occurs_at(hay: Seq<char>, needle: Seq<char>, pos: int) -> bool {
    0 <= pos && pos + needle.len() <= hay.len() && hay.subrange(
        pos,
        pos + needle.len() as int,
    ) == needle
}

/// Character-by-character string equality.
pub fn str_eq(a: &str, b: &str) -> (r: bool)
    ensures
        r == (a@ == b@),
{
    let an = a.unicode_len();
    let bn = b.unicode_len();
    if an != bn {
        return false;
    }
    let mut i: usize = 0;
    while i < an
        invariant
            an == a@.len(),
            bn == b@.len(),
            an == bn,
            0 <= i <= an,
            forall|k: int| 0 <= k < i ==> a@[k] == b@[k],
        decreases an - i,
    {
        if a.get_char(i) != b.get_char(i) {
            return false;
        }
        i += 1;
    }
    proof {
        assert(a@ =~= b@);
    }
    true
}

/// Whether `needle` occurs in `hay` starting exactly at `p`.
fn matches_at(hay: &str, needle: &str, p: usize) -> (r: bool)
    requires
        p + needle@.len() <= hay@.len(),
    ensures
        r == occurs_at(hay@, needle@, p as int),
{
    let hn = hay.unicode_len();
    let nn = needle.unicode_len();
    let mut k: usize = 0;
    while k < nn
        invariant
            hn == hay@.len(),
            nn == needle@.len(),
            p + nn <= hay@.len(),
            0 <= k <= nn,
            forall|j: int| 0 <= j < k ==> hay@[p + j] == needle@[j],
        decreases nn - k,
    {
        if hay.get_char(p + k) != needle.get_char(k) {
            proof {
                assert(hay@.subrange(p as int, p + nn as int)[k as int] != needle@[k as int]);
            }
            return false;
        }
        k += 1;
    }
    proof {
        assert(hay@.subrange(p as int, p + nn as int) =~= needle@);
    }
    true
}

/// First occurrence of `needle` in `hay` at a position `>= from`, if any.
pub fn find_from(hay: &str, needle: &str, from: usize) -> (r: Option<usize>)
    ensures
        match r {
            Some(p) => {
                &&& from <= p
                &&& occurs_at(hay@, needle@, p as int)
                &&& forall|q: int| from <= q < p ==> !occurs_at(hay@, needle@, q)
            },
            None => forall|q: int| from <= q ==> !occurs_at(hay@, needle@, q),
        },
{
    let hn = hay.unicode_len();
    let nn = needle.unicode_len();
    if nn > hn || from > hn - nn {
        return None;
    }
    if nn == 0 {
        proof {
            assert(hay@.subrange(from as int, from as int) =~= needle@);
        }
        return Some(from);
    }
    let mut p: usize = from;
    while p <= hn - nn
        invariant
            hn == hay@.len(),
            nn == needle@.len(),
            1 <= nn <= hn,
            from <= p <= hn - nn + 1,
            forall|q: int| from <= q < p ==> !occurs_at(hay@, needle@, q),
        decreases hn - nn + 1 - p,
    {
        if matches_at(hay, needle, p) {
            return Some(p);
        }
        p += 1;
    }
    None
}

/// Whether `pre` is a prefix of `s`.
pub fn str_starts_with(s: &str, pre: &str) -> (r: bool)
    ensures
        r == is_prefix_of(pre@, s@),
{
    let sn = s.unicode_len();
    let pn = pre.unicode_len();
    if pn > sn {
        return false;
    }
    matches_at(s, pre, 0)
}

/// Index of the first occurrence of `c` in `s`, or `s.len()` when absent.
pub open spec fn first_index_of(s: Seq<char>, c: char) -> int
    decreases s.len(),
{
    if s.len() == 0 {
        0
    } else if s[0] == c {
        0
    } else {
        1 + first_index_of(s.drop_first(), c)
    }
}

pub proof fn lemma_first_index_of(s: Seq<char>, c: char)
    ensures
        0 <= first_index_of(s, c) <= s.len(),
        first_index_of(s, c) < s.len() ==> s[first_index_of(s, c)] == c,
        forall|k: int| 0 <= k < first_index_of(s, c) ==> s[k] != c,
    decreases s.len(),
{
    if s.len() == 0 {
    } else if s[0] == c {
    } else {
        lemma_first_index_of(s.drop_first(), c);
        assert forall|k: int| 0 <= k < first_index_of(s, c) implies s[k] != c by {
            if k > 0 {
                assert(s.drop_first()[k - 1] == s[k]);
            }
        }
    }
}

/// The stretches of `s` between occurrences of the separator `c`.
pub open spec fn split_on_char(s: Seq<char>, c: char) -> Seq<Seq<char>>
    decreases s.len(),
    via split_on_char_decreases
{
    let i = first_index_of(s, c);
    if i >= s.len() {
        seq![s]
    } else {
        seq![s.subrange(0, i)] + split_on_char(s.subrange(i + 1, s.len() as int), c)
    }
}

#[via_fn]
proof fn split_on_char_decreases(s: Seq<char>, c: char) {
    lemma_first_index_of(s, c);
}

/// Splits a string at every occurrence of `c`.
pub fn split_to_segments(s: &str, c: char) -> (r: Vec<String>)
    ensures
        r.deep_view() == split_on_char(s@, c),
{
    let sv = Ghost(s@);
    let n = s.unicode_len();
    let mut segs: Vec<String> = Vec::new();
    let mut seg_start: usize = 0;
    let mut j: usize = 0;
    proof {
        assert(sv@.subrange(0, n as int) =~= sv@);
    }
    while j < n
        invariant
            n == sv@.len(),
            sv@ == s@,
            0 <= seg_start <= j <= n,
            forall|k: int| seg_start <= k < j ==> sv@[k] != c,
            split_on_char(sv@, c) == segs.deep_view() + split_on_char(
                sv@.subrange(seg_start as int, n as int),
                c,
            ),
        decreases n - j,
    {
        if s.get_char(j) == c {
            let seg = String::from_str(s.substring_char(seg_start, j));
            proof {
                let rem = sv@.subrange(seg_start as int, n as int);
                lemma_first_index_of(rem, c);
                assert(rem[j - seg_start] == c);
                assert forall|k: int| 0 <= k < j - seg_start implies rem[k] != c by {
                    assert(rem[k] == sv@[seg_start + k]);
                }
                assert(first_index_of(rem, c) == j - seg_start);
                assert(rem.subrange(0, j - seg_start) =~= sv@.subrange(
                    seg_start as int,
                    j as int,
                ));
                assert(rem.subrange(j - seg_start + 1, rem.len() as int) =~= sv@.subrange(
                    j + 1,
                    n as int,
                ));
                assert(split_on_char(rem, c) == seq![seg@] + split_on_char(
                    sv@.subrange(j + 1, n as int),
                    c,
                ));
                assert((segs.deep_view() + seq![seg@]) =~= segs@.push(seg).map_values(
                    |t: String| t.deep_view(),
                ));
                assert(segs.deep_view() + split_on_char(rem, c) =~= (segs.deep_view()
                    + seq![seg@]) + split_on_char(sv@.subrange(j + 1, n as int), c));
            }
            segs.push(seg);
            seg_start = j + 1;
        }
        j += 1;
    }
    let last = String::from_str(s.substring_char(seg_start, n));
    proof {
        let rem = sv@.subrange(seg_start as int, n as int);
        lemma_first_index_of(rem, c);
        assert forall|k: int| 0 <= k < rem.len() implies rem[k] != c by {
            assert(rem[k] == sv@[seg_start + k]);
        }
        assert(first_index_of(rem, c) >= rem.len());
        assert(split_on_char(rem, c) == seq![rem]);
        assert((segs.deep_view() + seq![last@]) =~= segs@.push(last).map_values(
            |t: String| t.deep_view(),
        ));
    }
    segs.push(last);
    segs
}

/// The decimal digit character for a value below ten.
pub open spec fn digit_char(d: int) -> char {
    if d == 0 {
        '0'
    } else if d == 1 {
        '1'
    } else if d == 2 {
        '2'
    } else if d == 3 {
        '3'
    } else if d == 4 {
        '4'
    } else if d == 5 {
        '5'
    } else if d == 6 {
        '6'
    } else if d == 7 {
        '7'
    } else if d == 8 {
        '8'
    } else {
        '9'
    }
}

/// The decimal rendering of a non-negative integer, most significant digit
/// first, with no leading zeros (except for zero itself).
pub open spec fn spec_dec(n: int) -> Seq<char>
    decreases n,
{
    if n < 10 {
        seq![digit_char(n)]
    } else {
        spec_dec(n / 10) + seq![digit_char(n % 10)]
    }
}

/// The one-character string for a decimal digit.
fn digit_str(d: u64) -> (r: &'static str)
    requires
        d < 10,
    ensures
        r@ =~= seq![digit_char(d as int)],
{
    proof {
        reveal_strlit("0");
        reveal_strlit("1");
        reveal_strlit("2");
        reveal_strlit("3");
        reveal_strlit("4");
        reveal_strlit("5");
        reveal_strlit("6");
        reveal_strlit("7");
        reveal_strlit("8");
        reveal_strlit("9");
    }
    if d == 0 {
        "0"
    } else if d == 1 {
        "1"
    } else if d == 2 {
        "2"
    } else if d == 3 {
        "3"
    } else if d == 4 {
        "4"
    } else if d == 5 {
        "5"
    } else if d == 6 {
        "6"
    } else if d == 7 {
        "7"
    } else if d == 8 {
        "8"
    } else {
        "9"
    }
}

/// Renders a byte count in decimal.
pub fn u64_to_dec(n: u64) -> (s: String)
    ensures
        s@ == spec_dec(n as int),
    decreases n,
{
    if n < 10 {
        String::from_str(digit_str(n))
    } else {
        let mut s = u64_to_dec(n / 10);
        s.append(digit_str(n % 10));
        s
    }
}

} // verus!
