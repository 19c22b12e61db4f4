//! Character-level helpers shared by the parsers: digit classification,
//! maximal digit runs, decimal values, and first-occurrence search.

use vstd::prelude::*;

verus! {

/// ASCII decimal digit.
pub open spec fn spec_is_digit(c: char) -> bool {
    '0' <= c && c <= '9'
}

/// Numeric value of a decimal digit.
pub open spec fn spec_digit_val(c: char) -> nat {
    (c as int - '0' as int) as nat
}

/// Index of the first occurrence of `c` at or after `i`, or `s.len()` if none.
pub open spec fn spec_find_char(s: Seq<char>, i: int, c: char) -> int
    recommends
        0 <= i <= s.len(),
    decreases s.len() - i when 0 <= i <= s.len()
{
    if i < s.len() && s[i] != c {
        spec_find_char(s, i + 1, c)
    } else {
        i
    }
}

/// Index just past the maximal run of digits starting at `i`.
pub open spec fn spec_digit_run_end(s: Seq<char>, i: int) -> int
    recommends
        0 <= i <= s.len(),
    decreases s.len() - i when 0 <= i <= s.len()
{
    if i < s.len() && spec_is_digit(s[i]) {
        spec_digit_run_end(s, i + 1)
    } else {
        i
    }
}

/// Decimal value of the digits `s[i..j]`, most significant first.
pub open spec fn spec_digits_value(s: Seq<char>, i: int, j: int) -> nat
    decreases j - i
{
    if i >= j {
        0
    } else {
        spec_digits_value(s, i, j - 1) * 10 + spec_digit_val(s[j - 1])
    }
}

pub proof fn lemma_find_char_bounds(s: Seq<char>, i: int, c: char)
    requires
        0 <= i <= s.len(),
    ensures
        i <= spec_find_char(s, i, c) <= s.len(),
        spec_find_char(s, i, c) < s.len() ==> s[spec_find_char(s, i, c)] == c,
        forall|k: int| i <= k < spec_find_char(s, i, c) ==> s[k] != c,
    decreases s.len() - i,
{
    if i < s.len() && s[i] != c {
        lemma_find_char_bounds(s, i + 1, c);
    }
}

pub proof fn lemma_digit_run_end_bounds(s: Seq<char>, i: int)
    requires
        0 <= i <= s.len(),
    ensures
        i <= spec_digit_run_end(s, i) <= s.len(),
        spec_digit_run_end(s, i) < s.len() ==> !spec_is_digit(s[spec_digit_run_end(s, i)]),
        forall|k: int| i <= k < spec_digit_run_end(s, i) ==> spec_is_digit(s[k]),
    decreases s.len() - i,
{
    if i < s.len() && spec_is_digit(s[i]) {
        lemma_digit_run_end_bounds(s, i + 1);
    }
}

/// Once the prefix value passes a bound, the full value stays past it.
pub proof fn lemma_digits_value_mono(s: Seq<char>, i: int, j: int, k: int)
    requires
        i <= j <= k,
    ensures
        spec_digits_value(s, i, j) <= spec_digits_value(s, i, k),
    decreases k - j,
{
    if j < k {
        lemma_digits_value_mono(s, i, j, k - 1);
        assert(spec_digits_value(s, i, k) == spec_digits_value(s, i, k - 1) * 10 + spec_digit_val(
            s[k - 1],
        ));
        assert(spec_digits_value(s, i, k - 1) <= spec_digits_value(s, i, k - 1) * 10) by (
        nonlinear_arith);
    }
}

/// The characters of `s`, in order, as a vector.
pub fn chars_of(s: &str) -> (v: Vec<char>)
    ensures
        v@ == s@,
{
    let n = s.unicode_len();
    let mut v: Vec<char> = Vec::new();
    let mut i: usize = 0;
    while i < n
        invariant
            i <= n,
            n == s@.len(),
            v@ == s@.take(i as int),
        decreases n - i,
    {
        let c = s.get_char(i);
        v.push(c);
        assert(v@ =~= s@.take(i + 1 as int));
        i = i + 1;
    }
    assert(v@ =~= s@);
    v
}

/// First occurrence of `c` in `v` at or after `start`.
pub fn find_char(v: &Vec<char>, start: usize, c: char) -> (r: usize)
    requires
        start <= v.len(),
    ensures
        r == spec_find_char(v@, start as int, c),
        start <= r <= v.len(),
{
    let mut i: usize = start;
    while i < v.len() && v[i] != c
        invariant
            start <= i <= v.len(),
            spec_find_char(v@, start as int, c) == spec_find_char(v@, i as int, c),
        decreases v.len() - i,
    {
        i = i + 1;
    }
    i
}

/// End of the maximal digit run starting at `start`.
pub fn digit_run_end(v: &Vec<char>, start: usize) -> (r: usize)
    requires
        start <= v.len(),
    ensures
        r == spec_digit_run_end(v@, start as int),
        start <= r <= v.len(),
{
    let mut i: usize = start;
    while i < v.len() && '0' <= v[i] && v[i] <= '9'
        invariant
            start <= i <= v.len(),
            spec_digit_run_end(v@, start as int) == spec_digit_run_end(v@, i as int),
        decreases v.len() - i,
    {
        i = i + 1;
    }
    i
}

/// Decimal value of the digit run `v[from..to]`, or `None` when it does not
/// fit in a `u32`.
pub fn digits_value_u32(v: &Vec<char>, from: usize, to: usize) -> (r: Option<u32>)
    requires
        from <= to <= v.len(),
        forall|k: int| from <= k < to ==> spec_is_digit(v@[k]),
    ensures
        match r {
            Some(x) => x as nat == spec_digits_value(v@, from as int, to as int),
            None => spec_digits_value(v@, from as int, to as int) > u32::MAX,
        },
{
    let mut acc: u32 = 0;
    let mut j: usize = from;
    while j < to
        invariant
            from <= j <= to <= v.len(),
            forall|k: int| from <= k < to ==> spec_is_digit(v@[k]),
            acc as nat == spec_digits_value(v@, from as int, j as int),
        decreases to - j,
    {
        let c = v[j];
        let d: u32 = (c as u32) - ('0' as u32);
        assert(d == spec_digit_val(v@[j as int]));
        let shifted = match acc.checked_mul(10) {
            Some(x) => x,
            None => {
                proof {
                    assert(acc as nat * 10 > u32::MAX);
                    assert(spec_digits_value(v@, from as int, j + 1 as int) == acc as nat * 10
                        + spec_digit_val(v@[j as int]));
                    lemma_digits_value_mono(v@, from as int, j + 1 as int, to as int);
                }
                return None;
            },
        };
        let next = match shifted.checked_add(d) {
            Some(x) => x,
            None => {
                proof {
                    assert(spec_digits_value(v@, from as int, j + 1 as int) == acc as nat * 10
                        + spec_digit_val(v@[j as int]));
                    lemma_digits_value_mono(v@, from as int, j + 1 as int, to as int);
                }
                return None;
            },
        };
        assert(next as nat == spec_digits_value(v@, from as int, j + 1 as int));
        acc = next;
        j = j + 1;
    }
    Some(acc)
}

/// All characters of `v[from..to]` are digits.
pub fn all_digits_range(v: &Vec<char>, from: usize, to: usize) -> (r: bool)
    requires
        from <= to <= v.len(),
    ensures
        r == forall|k: int| from <= k < to ==> spec_is_digit(v@[k]),
{
    let e = digit_run_end_bounded(v, from, to);
    e == to
}

/// End of the maximal digit run starting at `from`, stopping at `to`.
fn digit_run_end_bounded(v: &Vec<char>, from: usize, to: usize) -> (r: usize)
    requires
        from <= to <= v.len(),
    ensures
        from <= r <= to,
        forall|k: int| from <= k < r ==> spec_is_digit(v@[k]),
        r < to ==> !spec_is_digit(v@[r as int]),
{
    let mut i: usize = from;
    while i < to && '0' <= v[i] && v[i] <= '9'
        invariant
            from <= i <= to <= v.len(),
            forall|k: int| from <= k < i ==> spec_is_digit(v@[k]),
        decreases to - i,
    {
        i = i + 1;
    }
    i
}

} // verus!
