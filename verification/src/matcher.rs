//! Classifying file names that may be PHP executables.
//!
//! A candidate name is the base name `php`, an optional version chunk
//! (digits, optionally dotted once, as in `7` or `7.4`), an optional
//! worker-manager chunk (`fpm`, optionally led by `-` or `_`), and one more
//! optional version chunk. This accepts `php`, `php7.4`, `php-fpm`,
//! `php7.4-fpm` and `php-fpm7.4`, and rejects unrelated names that merely
//! contain `php` somewhere.

use vstd::prelude::*;
use crate::chars::{spec_is_digit, chars_of, all_digits_range};

verus! {

pub open spec fn spec_all_digits_seq(s: Seq<char>) -> bool {
    forall|i: int| 0 <= i < s.len() ==> spec_is_digit(s[i])
}

/// `digits` or `digits.digits`.
pub open spec fn spec_is_version_chunk(s: Seq<char>) -> bool {
    ||| (s.len() > 0 && spec_all_digits_seq(s))
    ||| (exists|k: int|
        0 < k < s.len() - 1 && s[k] == '.' && spec_all_digits_seq(s.subrange(0, k))
            && spec_all_digits_seq(s.subrange(k + 1, s.len() as int)))
}

pub open spec fn spec_opt_version_chunk(s: Seq<char>) -> bool {
    s.len() == 0 || spec_is_version_chunk(s)
}

pub open spec fn spec_fpm_suffix() -> Seq<char> {
    seq!['f', 'p', 'm']
}

/// `fpm`, optionally led by a dash or an underscore.
pub open spec fn spec_is_fpm_chunk(s: Seq<char>) -> bool {
    ||| s == spec_fpm_suffix()
    ||| (s.len() == 4 && (s[0] == '-' || s[0] == '_') && s.subrange(1, 4) == spec_fpm_suffix())
}

pub open spec fn spec_opt_fpm_chunk(s: Seq<char>) -> bool {
    s.len() == 0 || spec_is_fpm_chunk(s)
}

/// One split of the name's tail into the three optional chunks works: a
/// version chunk, a worker-manager chunk, and a version chunk, each optional.
pub open spec fn spec_split_ok(name: Seq<char>, a: int, b: int) -> bool {
    &&& 3 <= a <= b <= name.len()
    &&& spec_opt_version_chunk(name.subrange(3, a))
    &&& spec_opt_fpm_chunk(name.subrange(a, b))
    &&& spec_opt_version_chunk(name.subrange(b, name.len() as int))
}

/// A base name that follows the executable naming convention: `php`, then an
/// optional version chunk, an optional worker-manager chunk, and an optional
/// version chunk, with nothing after them.
pub open spec fn spec_is_candidate_name(name: Seq<char>) -> bool {
    &&& name.len() >= 3
    &&& name.subrange(0, 3) == seq!['p', 'h', 'p']
    &&& exists|a: int, b: int| #[trigger] spec_split_ok(name, a, b)
}

/// All characters of `v[from..to]` are digits, stated over the subrange.
fn all_digits_sub(v: &Vec<char>, from: usize, to: usize) -> (r: bool)
    requires
        from <= to <= v.len(),
    ensures
        r == spec_all_digits_seq(v@.subrange(from as int, to as int)),
{
    let ghost s = v@.subrange(from as int, to as int);
    let r = all_digits_range(v, from, to);
    proof {
        if r {
            assert forall|i: int| 0 <= i < s.len() implies spec_is_digit(s[i]) by {
                assert(s[i] == v@[from + i]);
            }
        } else {
            let k0 = choose|k: int| from <= k < to && !spec_is_digit(v@[k]);
            assert(s[k0 - from] == v@[k0]);
        }
    }
    r
}

/// `v[from..to]` is a version chunk, stated over the subrange.
fn version_chunk_sub(v: &Vec<char>, from: usize, to: usize) -> (r: bool)
    requires
        from <= to <= v.len(),
    ensures
        r == spec_is_version_chunk(v@.subrange(from as int, to as int)),
{
    let ghost s = v@.subrange(from as int, to as int);
    if to == from {
        return false;
    }
    if all_digits_sub(v, from, to) {
        return true;
    }
    let mut k: usize = from + 1;
    loop
        invariant
            from < k <= to <= v.len(),
            to > from,
            s == v@.subrange(from as int, to as int),
            !(s.len() > 0 && spec_all_digits_seq(s)),
            forall|kk: int|
                0 < kk < k - from ==> !(s[kk] == '.' && spec_all_digits_seq(s.subrange(0, kk))
                    && spec_all_digits_seq(s.subrange(kk + 1, s.len() as int))),
        ensures
            forall|kk: int|
                0 < kk < s.len() - 1 ==> !(s[kk] == '.' && spec_all_digits_seq(s.subrange(0, kk))
                    && spec_all_digits_seq(s.subrange(kk + 1, s.len() as int))),
        decreases to - k,
    {
        if k >= to - 1 {
            break;
        }
        proof {
            assert(s.subrange(0, k - from) =~= v@.subrange(from as int, k as int));
            assert(s.subrange(k - from + 1, s.len() as int) =~= v@.subrange(
                k + 1 as int,
                to as int,
            ));
        }
        if v[k] == '.' {
            let left = all_digits_sub(v, from, k);
            let right = all_digits_sub(v, k + 1, to);
            if left && right {
                assert(spec_is_version_chunk(s)) by {
                    let kk = k - from;
                    assert(0 < kk < s.len() - 1 && s[kk] == '.' && spec_all_digits_seq(
                        s.subrange(0, kk),
                    ) && spec_all_digits_seq(s.subrange(kk + 1, s.len() as int)));
                }
                return true;
            }
        }
        k = k + 1;
    }
    assert(!spec_is_version_chunk(s)) by {
        if spec_is_version_chunk(s) {
            let kk = choose|kk: int|
                0 < kk < s.len() - 1 && s[kk] == '.' && spec_all_digits_seq(s.subrange(0, kk))
                    && spec_all_digits_seq(s.subrange(kk + 1, s.len() as int));
            assert(false);
        }
    }
    false
}

/// `v[from..to]` is a worker-manager chunk, stated over the subrange.
fn fpm_chunk_sub(v: &Vec<char>, from: usize, to: usize) -> (r: bool)
    requires
        from <= to <= v.len(),
    ensures
        r == spec_is_fpm_chunk(v@.subrange(from as int, to as int)),
{
    let ghost s = v@.subrange(from as int, to as int);
    if to - from == 3 && v[from] == 'f' && v[from + 1] == 'p' && v[from + 2] == 'm' {
        assert(s =~= spec_fpm_suffix());
        true
    } else if to - from == 4 && (v[from] == '-' || v[from] == '_') && v[from + 1] == 'f' && v[from
        + 2] == 'p' && v[from + 3] == 'm' {
        assert(s.subrange(1, 4) =~= spec_fpm_suffix());
        true
    } else {
        proof {
            assert(s.len() == to - from);
            if s == spec_fpm_suffix() {
                assert(s[0] == v@[from as int]);
                assert(s[1] == v@[from as int + 1]);
                assert(s[2] == v@[from as int + 2]);
            }
            if s.len() == 4 && (s[0] == '-' || s[0] == '_') && s.subrange(1, 4)
                == spec_fpm_suffix() {
                assert(s[0] == v@[from as int]);
                assert(s.subrange(1, 4)[0] == s[1] && s[1] == v@[from as int + 1]);
                assert(s.subrange(1, 4)[1] == s[2] && s[2] == v@[from as int + 2]);
                assert(s.subrange(1, 4)[2] == s[3] && s[3] == v@[from as int + 3]);
            }
        }
        false
    }
}

fn opt_version_sub(v: &Vec<char>, from: usize, to: usize) -> (r: bool)
    requires
        from <= to <= v.len(),
    ensures
        r == spec_opt_version_chunk(v@.subrange(from as int, to as int)),
{
    if to == from {
        true
    } else {
        version_chunk_sub(v, from, to)
    }
}

fn opt_fpm_sub(v: &Vec<char>, from: usize, to: usize) -> (r: bool)
    requires
        from <= to <= v.len(),
    ensures
        r == spec_opt_fpm_chunk(v@.subrange(from as int, to as int)),
{
    if to == from {
        true
    } else {
        fpm_chunk_sub(v, from, to)
    }
}

/// Classifies a base name: does it follow the executable naming convention?
pub fn is_candidate_name(name: &str) -> (r: bool)
    ensures
        r == spec_is_candidate_name(name@),
{
    let v = chars_of(name);
    let n = v.len();
    if n < 3 {
        return false;
    }
    if !(v[0] == 'p' && v[1] == 'h' && v[2] == 'p') {
        proof {
            if name@.subrange(0, 3) == seq!['p', 'h', 'p'] {
                assert(name@.subrange(0, 3)[0] == name@[0]);
                assert(name@.subrange(0, 3)[1] == name@[1]);
                assert(name@.subrange(0, 3)[2] == name@[2]);
            }
        }
        return false;
    }
    assert(name@.subrange(0, 3) =~= seq!['p', 'h', 'p']);
    let mut a: usize = 3;
    loop
        invariant
            3 <= a <= n,
            n == v.len(),
            v@ == name@,
            name@.len() >= 3,
            name@.subrange(0, 3) == seq!['p', 'h', 'p'],
            forall|aa: int, bb: int| 3 <= aa < a && aa <= bb ==> !spec_split_ok(name@, aa, bb),
        ensures
            forall|aa: int, bb: int| 3 <= aa <= n && aa <= bb ==> !spec_split_ok(name@, aa, bb),
        decreases n - a,
    {
        if opt_version_sub(&v, 3, a) {
            let mut b: usize = a;
            loop
                invariant
                    a <= b <= n,
                    n == v.len(),
                    v@ == name@,
                    a >= 3,
                    name@.len() >= 3,
                    name@.subrange(0, 3) == seq!['p', 'h', 'p'],
                    spec_opt_version_chunk(name@.subrange(3, a as int)),
                    forall|bb: int| a <= bb < b ==> !spec_split_ok(name@, a as int, bb),
                ensures
                    forall|bb: int| a <= bb ==> !spec_split_ok(name@, a as int, bb),
                decreases n - b,
            {
                if opt_fpm_sub(&v, a, b) && opt_version_sub(&v, b, n) {
                    assert(spec_split_ok(name@, a as int, b as int));
                    return true;
                }
                if b == n {
                    assert(forall|bb: int| a <= bb ==> !spec_split_ok(name@, a as int, bb));
                    break;
                }
                b = b + 1;
            }
        } else {
            assert(forall|bb: int| a <= bb ==> !spec_split_ok(name@, a as int, bb));
        }
        if a == n {
            break;
        }
        a = a + 1;
    }
    assert(!spec_is_candidate_name(name@)) by {
        if spec_is_candidate_name(name@) {
            let (aa, bb) = choose|aa: int, bb: int| #[trigger] spec_split_ok(name@, aa, bb);
            assert(false);
        }
    }
    false
}

} // verus!
