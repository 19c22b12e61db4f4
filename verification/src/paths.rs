//! Search-location plumbing: the glob pattern for one directory, splitting
//! the executable search path, deduplicating canonical paths, and keeping
//! only candidate names.

use vstd::prelude::*;
use crate::chars::{spec_find_char, chars_of, find_char};
use crate::matcher::{spec_is_candidate_name, is_candidate_name};

verus! {

/// The glob pattern that lists a directory's candidate executables.
pub fn glob_from_path(path: &str) -> (r: String)
    ensures
        r@ == path@ + seq!['/', 'p', 'h', 'p', '*'],
{
    let mut s = path.to_owned();
    s.append("/php*");
    proof {
        reveal_strlit("/php*");
        assert(("/php*")@ =~= seq!['/', 'p', 'h', 'p', '*']);
        assert(s@ =~= path@ + seq!['/', 'p', 'h', 'p', '*']);
    }
    s
}

/// The pieces of `s` split at every `sep`, empty pieces kept.
pub open spec fn spec_split(s: Seq<char>, sep: char) -> Seq<Seq<char>>
    decreases s.len(),
{
    let j = spec_find_char(s, 0, sep);
    if 0 <= j && j < s.len() {
        seq![s.subrange(0, j)] + spec_split(s.subrange(j + 1, s.len() as int), sep)
    } else {
        seq![s]
    }
}

pub open spec fn spec_strs_view(s: Seq<String>) -> Seq<Seq<char>> {
    s.map_values(|p: String| p@)
}

/// Splits the executable search path variable's value into its directories,
/// in order, at every `:`.
pub fn split_search_path(path_var: &str) -> (dirs: Vec<String>)
    ensures
        spec_strs_view(dirs@) == spec_split(path_var@, ':'),
{
    let v = chars_of(path_var);
    let n = v.len();
    let mut dirs: Vec<String> = Vec::new();
    let mut start: usize = 0;
    proof {
        assert(path_var@.subrange(0, n as int) =~= path_var@);
        assert(spec_strs_view(dirs@) + spec_split(path_var@, ':') =~= spec_split(
            path_var@,
            ':',
        ));
    }
    loop
        invariant_except_break
            spec_strs_view(dirs@) + spec_split(path_var@.subrange(start as int, n as int), ':')
                =~= spec_split(path_var@, ':'),
        invariant
            start <= n,
            n == v.len(),
            v@ == path_var@,
        ensures
            spec_strs_view(dirs@) =~= spec_split(path_var@, ':'),
        decreases n - start,
    {
        let ghost rest = path_var@.subrange(start as int, n as int);
        let ghost pre_dirs = spec_strs_view(dirs@);
        let j = find_char(&v, start, ':');
        proof {
            crate::chars::lemma_find_char_bounds(v@, start as int, ':');
            lemma_find_char_shift(v@, start as int, n as int, ':');
            assert(spec_find_char(rest, 0, ':') == spec_find_char(v@, start as int, ':')
                - start);
        }
        let piece = path_var.substring_char(start, j);
        dirs.push(piece.to_owned());
        proof {
            assert(spec_strs_view(dirs@) =~= pre_dirs + seq![piece@]);
        }
        if j == n {
            proof {
                assert(spec_find_char(rest, 0, ':') == rest.len());
                assert(spec_split(rest, ':') == seq![rest]);
                assert(piece@ == rest);
                assert(spec_strs_view(dirs@) =~= pre_dirs + spec_split(rest, ':'));
                assert(spec_strs_view(dirs@) =~= spec_split(path_var@, ':'));
            }
            break;
        }
        proof {
            let jj = spec_find_char(rest, 0, ':');
            assert(0 <= jj < rest.len());
            assert(spec_split(rest, ':') == seq![rest.subrange(0, jj)] + spec_split(
                rest.subrange(jj + 1, rest.len() as int),
                ':',
            ));
            assert(rest.subrange(0, jj) =~= path_var@.subrange(start as int, j as int));
            assert(rest.subrange(jj + 1, rest.len() as int) =~= path_var@.subrange(
                j + 1,
                n as int,
            ));
            assert(spec_strs_view(dirs@) + spec_split(path_var@.subrange(j + 1, n as int), ':')
                =~= spec_split(path_var@, ':'));
        }
        start = j + 1;
    }
    dirs
}

/// Shifting: the first `c` in a tail subrange sits where the first `c` at
/// or after the cut sits in the whole.
pub proof fn lemma_find_char_shift(s: Seq<char>, a: int, b: int, c: char)
    requires
        0 <= a <= b <= s.len(),
        b == s.len(),
    ensures
        spec_find_char(s.subrange(a, b), 0, c) == spec_find_char(s, a, c) - a,
    decreases s.len() - a,
{
    let t = s.subrange(a, b);
    lemma_find_char_shift_rec(s, a, b, c, 0);
}

proof fn lemma_find_char_shift_rec(s: Seq<char>, a: int, b: int, c: char, i: int)
    requires
        0 <= a <= b <= s.len(),
        b == s.len(),
        0 <= i <= b - a,
    ensures
        spec_find_char(s.subrange(a, b), i, c) == spec_find_char(s, a + i, c) - a,
    decreases b - a - i,
{
    let t = s.subrange(a, b);
    if i < t.len() && t[i] != c {
        lemma_find_char_shift_rec(s, a, b, c, i + 1);
    }
}

/// First occurrences kept, in order; later repeats dropped.
pub open spec fn spec_dedup(s: Seq<Seq<char>>) -> Seq<Seq<char>>
    decreases s.len(),
{
    if s.len() == 0 {
        Seq::empty()
    } else {
        let p = spec_dedup(s.drop_last());
        if p.contains(s.last()) {
            p
        } else {
            p.push(s.last())
        }
    }
}

/// Drops every path equal to an earlier one, keeping first occurrences in
/// order, so one physical executable reachable twice is interrogated once.
pub fn dedup_paths(paths: &Vec<String>) -> (r: Vec<String>)
    ensures
        spec_strs_view(r@) == spec_dedup(spec_strs_view(paths@)),
{
    let mut r: Vec<String> = Vec::new();
    let mut i: usize = 0;
    while i < paths.len()
        invariant
            i <= paths@.len(),
            spec_strs_view(r@) == spec_dedup(spec_strs_view(paths@).take(i as int)),
        decreases paths@.len() - i,
    {
        let ghost pre = spec_strs_view(paths@).take(i as int);
        let ghost post = spec_strs_view(paths@).take(i + 1);
        proof {
            assert(post.drop_last() =~= pre);
            assert(post.last() == paths@[i as int]@);
        }
        let mut seen = false;
        let mut k: usize = 0;
        while k < r.len()
            invariant
                k <= r@.len(),
                seen == exists|t: int| 0 <= t < k && (#[trigger] r@[t])@ == paths@[i as int]@,
                i < paths@.len(),
            decreases r@.len() - k,
        {
            if r[k].eq(&paths[i]) {
                seen = true;
            }
            k = k + 1;
        }
        proof {
            if seen {
                let t = choose|t: int|
                    0 <= t < r@.len() && (#[trigger] r@[t])@ == paths@[i as int]@;
                assert(spec_strs_view(r@)[t] == paths@[i as int]@);
                assert(spec_strs_view(r@).contains(post.last()));
            } else {
                if spec_strs_view(r@).contains(post.last()) {
                    let t = choose|t: int|
                        0 <= t < spec_strs_view(r@).len() && spec_strs_view(r@)[t] == post.last();
                    assert(r@[t]@ == paths@[i as int]@);
                }
                assert(!spec_strs_view(r@).contains(post.last()));
            }
        }
        if !seen {
            r.push(paths[i].clone());
            proof {
                assert(spec_strs_view(r@) =~= spec_strs_view(r@.drop_last()).push(
                    paths@[i as int]@,
                ));
            }
        }
        i = i + 1;
    }
    proof {
        assert(spec_strs_view(paths@).take(paths@.len() as int) =~= spec_strs_view(paths@));
    }
    r
}

/// The names that follow the candidate naming convention, in order.
pub open spec fn spec_filter_candidates(s: Seq<Seq<char>>) -> Seq<Seq<char>>
    decreases s.len(),
{
    if s.len() == 0 {
        Seq::empty()
    } else {
        let p = spec_filter_candidates(s.drop_last());
        if spec_is_candidate_name(s.last()) {
            p.push(s.last())
        } else {
            p
        }
    }
}

/// Keeps, in order, the base names that follow the candidate naming
/// convention.
pub fn filter_candidates(names: &Vec<String>) -> (r: Vec<String>)
    ensures
        spec_strs_view(r@) == spec_filter_candidates(spec_strs_view(names@)),
{
    let mut r: Vec<String> = Vec::new();
    let mut i: usize = 0;
    while i < names.len()
        invariant
            i <= names@.len(),
            spec_strs_view(r@) == spec_filter_candidates(spec_strs_view(names@).take(i as int)),
        decreases names@.len() - i,
    {
        let ghost pre = spec_strs_view(names@).take(i as int);
        let ghost post = spec_strs_view(names@).take(i + 1);
        proof {
            assert(post.drop_last() =~= pre);
            assert(post.last() == names@[i as int]@);
        }
        if is_candidate_name(names[i].as_str()) {
            r.push(names[i].clone());
            proof {
                assert(spec_strs_view(r@) =~= spec_strs_view(r@.drop_last()).push(
                    names@[i as int]@,
                ));
            }
        }
        i = i + 1;
    }
    proof {
        assert(spec_strs_view(names@).take(names@.len() as int) =~= spec_strs_view(names@));
    }
    r
}

} // verus!
