//! Parsing a runtime's self-reported version line.
//!
//! A binary invoked with its version-query argument prints one line of the
//! shape `PHP <d>.<digits>.<digits> (<token>)...`: the literal tag `PHP `,
//! a single-digit major, dotted minor and patch numbers, a space, and the
//! server-API token in parentheses. Anything else is a malformed report and
//! fails for that one candidate only.

use vstd::prelude::*;
use crate::chars::{
    spec_is_digit, spec_digit_val, spec_find_char, spec_digit_run_end, spec_digits_value,
    chars_of, find_char, digit_run_end, digits_value_u32, lemma_digit_run_end_bounds,
};
use crate::version::{PhpVersion, PhpServerSapi, spec_sapi_of_token, spec_sapi_token, sapi_from_chars};

verus! {

/// A candidate executable's self-report does not parse.
#[derive(Clone, Copy, PartialEq, Eq, Structural, Debug)]
pub enum ScanError {
    MalformedVersionOutput,
}

/// The report has the documented shape: tag, `d.dd.dd` version, and a
/// non-empty parenthesized token.
pub open spec fn spec_output_shape(s: Seq<char>) -> bool {
    &&& s.len() >= 6
    &&& s[0] == 'P' && s[1] == 'H' && s[2] == 'P' && s[3] == ' '
    &&& spec_is_digit(s[4])
    &&& s[5] == '.'
    &&& {
        let me = spec_digit_run_end(s, 6);
        &&& me > 6
        &&& me < s.len()
        &&& s[me] == '.'
        &&& {
            let pe = spec_digit_run_end(s, me + 1);
            &&& pe > me + 1
            &&& pe < s.len()
            &&& s[pe] == ' '
            &&& pe + 1 < s.len()
            &&& s[pe + 1] == '('
            &&& {
                let ce = spec_find_char(s, pe + 2, ')');
                ce < s.len() && ce > pe + 2
            }
        }
    }
}

/// What a version report means: the encoded triple and mode, or nothing when
/// the shape is wrong, a number does not fit, or the token is unknown.
pub open spec fn spec_parse_version_output(s: Seq<char>) -> Option<(PhpVersion, PhpServerSapi)> {
    if spec_output_shape(s) {
        let me = spec_digit_run_end(s, 6);
        let pe = spec_digit_run_end(s, me + 1);
        let ce = spec_find_char(s, pe + 2, ')');
        let minor = spec_digits_value(s, 6, me);
        let patch = spec_digits_value(s, me + 1, pe);
        let token = s.subrange(pe + 2, ce);
        if minor <= u32::MAX && patch <= u32::MAX && spec_sapi_of_token(token) is Some {
            Some(
                (
                    PhpVersion {
                        major: spec_digit_val(s[4]) as u32,
                        minor: minor as u32,
                        patch: patch as u32,
                    },
                    spec_sapi_of_token(token).unwrap(),
                ),
            )
        } else {
            None
        }
    } else {
        None
    }
}

/// Parses a version-query report into the version triple and execution mode
/// it encodes; a report of any other shape is rejected, never a panic.
pub fn parse_version_and_mode(output: &str) -> (r: Result<(PhpVersion, PhpServerSapi), ScanError>)
    ensures
        match r {
            Ok(p) => spec_parse_version_output(output@) == Some(p),
            Err(e) => {
                &&& spec_parse_version_output(output@) is None
                &&& e == ScanError::MalformedVersionOutput
            },
        },
{
    let v = chars_of(output);
    let n = v.len();
    if n < 6 {
        return Err(ScanError::MalformedVersionOutput);
    }
    if !(v[0] == 'P' && v[1] == 'H' && v[2] == 'P' && v[3] == ' ') {
        return Err(ScanError::MalformedVersionOutput);
    }
    if !('0' <= v[4] && v[4] <= '9') {
        return Err(ScanError::MalformedVersionOutput);
    }
    if v[5] != '.' {
        return Err(ScanError::MalformedVersionOutput);
    }
    let me = digit_run_end(&v, 6);
    if !(me > 6 && me < n && v[me] == '.') {
        return Err(ScanError::MalformedVersionOutput);
    }
    let pe = digit_run_end(&v, me + 1);
    if !(pe > me + 1 && pe < n && v[pe] == ' ') {
        return Err(ScanError::MalformedVersionOutput);
    }
    if !(pe + 1 < n && v[pe + 1] == '(') {
        return Err(ScanError::MalformedVersionOutput);
    }
    let ce = find_char(&v, pe + 2, ')');
    if !(ce < n && ce > pe + 2) {
        return Err(ScanError::MalformedVersionOutput);
    }
    assert(spec_output_shape(v@));
    proof {
        lemma_digit_run_end_bounds(v@, 6);
        lemma_digit_run_end_bounds(v@, me + 1);
    }
    let minor = match digits_value_u32(&v, 6, me) {
        Some(x) => x,
        None => {
            return Err(ScanError::MalformedVersionOutput);
        },
    };
    let patch = match digits_value_u32(&v, me + 1, pe) {
        Some(x) => x,
        None => {
            return Err(ScanError::MalformedVersionOutput);
        },
    };
    let sapi = match sapi_from_chars(&v, pe + 2, ce) {
        Some(s) => s,
        None => {
            return Err(ScanError::MalformedVersionOutput);
        },
    };
    let major: u32 = (v[4] as u32) - ('0' as u32);
    Ok((PhpVersion { major, minor, patch }, sapi))
}

/// The character for one decimal digit.
pub open spec fn spec_char_of_digit(n: nat) -> char {
    if n == 0 {
        '0'
    } else if n == 1 {
        '1'
    } else if n == 2 {
        '2'
    } else if n == 3 {
        '3'
    } else if n == 4 {
        '4'
    } else if n == 5 {
        '5'
    } else if n == 6 {
        '6'
    } else if n == 7 {
        '7'
    } else if n == 8 {
        '8'
    } else {
        '9'
    }
}

/// The decimal digits of `n`, most significant first.
pub open spec fn spec_dec_digits(n: nat) -> Seq<char>
    decreases n,
{
    if n < 10 {
        seq![spec_char_of_digit(n)]
    } else {
        spec_dec_digits(n / 10).push(spec_char_of_digit(n % 10))
    }
}

/// A version report rebuilt from a parsed triple and mode.
pub open spec fn spec_encode_version_output(v: PhpVersion, m: PhpServerSapi) -> Seq<char> {
    seq!['P', 'H', 'P', ' '] + spec_dec_digits(v.major as nat) + seq!['.'] + spec_dec_digits(
        v.minor as nat,
    ) + seq!['.'] + spec_dec_digits(v.patch as nat) + seq![' ', '('] + spec_sapi_token(m) + seq![')']
}

proof fn lemma_dec_digits_shape(n: nat)
    ensures
        spec_dec_digits(n).len() >= 1,
        forall|k: int|
            0 <= k < spec_dec_digits(n).len() ==> spec_is_digit(#[trigger] spec_dec_digits(n)[k]),
        n <= 9 ==> spec_dec_digits(n).len() == 1,
    decreases n,
{
    if n >= 10 {
        lemma_dec_digits_shape(n / 10);
    }
}

/// Two digit regions that hold the same characters have the same value.
proof fn lemma_digits_value_agree(s: Seq<char>, t: Seq<char>, off: int, i: int, j: int)
    requires
        forall|k: int| i <= k < j ==> s[k + off] == t[k],
    ensures
        spec_digits_value(s, i + off, j + off) == spec_digits_value(t, i, j),
    decreases j - i,
{
    if i < j {
        lemma_digits_value_agree(s, t, off, i, j - 1);
    }
}

/// The decimal digits of `n` are worth `n`.
proof fn lemma_dec_digits_value(n: nat)
    ensures
        spec_digits_value(spec_dec_digits(n), 0, spec_dec_digits(n).len() as int) == n,
    decreases n,
{
    let s = spec_dec_digits(n);
    if n < 10 {
        assert(spec_digits_value(s, 0, 1) == spec_digits_value(s, 0, 0) * 10 + spec_digit_val(
            s[0],
        ));
    } else {
        lemma_dec_digits_value(n / 10);
        let p = spec_dec_digits(n / 10);
        assert(forall|k: int| 0 <= k < p.len() ==> s[k + 0] == p[k]);
        lemma_digits_value_agree(s, p, 0, 0, p.len() as int);
        assert(spec_digits_value(s, 0, s.len() as int) == spec_digits_value(
            s,
            0,
            s.len() - 1,
        ) * 10 + spec_digit_val(s[s.len() - 1]));
        assert(n / 10 * 10 + n % 10 == n) by (nonlinear_arith);
    }
}

/// A run of digits bounded by a non-digit ends exactly at the bound.
proof fn lemma_run_end_exact(s: Seq<char>, i: int, j: int)
    requires
        0 <= i <= j < s.len(),
        forall|k: int| i <= k < j ==> spec_is_digit(s[k]),
        !spec_is_digit(s[j]),
    ensures
        spec_digit_run_end(s, i) == j,
    decreases j - i,
{
    if i < j {
        lemma_run_end_exact(s, i + 1, j);
    }
}

/// A region free of `c` bounded by a `c` puts the first occurrence at the bound.
proof fn lemma_find_exact(s: Seq<char>, i: int, j: int, c: char)
    requires
        0 <= i <= j < s.len(),
        forall|k: int| i <= k < j ==> s[k] != c,
        s[j] == c,
    ensures
        spec_find_char(s, i, c) == j,
    decreases j - i,
{
    if i < j {
        lemma_find_exact(s, i + 1, j, c);
    }
}

proof fn lemma_sapi_token_plain(m: PhpServerSapi)
    ensures
        spec_sapi_token(m).len() >= 1,
        forall|k: int| 0 <= k < spec_sapi_token(m).len() ==> #[trigger] spec_sapi_token(m)[k]
            != ')',
{
    crate::version::lemma_sapi_token_round_trip(m);
}

/// Re-parsing an encoded report returns exactly the encoded triple and mode.
/// The major number of any report is a single digit, so only versions whose
/// major part is at most 9 have an encoding of the documented shape.
pub proof fn lemma_encode_parses_back(v: PhpVersion, m: PhpServerSapi)
    requires
        v.major <= 9,
    ensures
        spec_parse_version_output(spec_encode_version_output(v, m)) == Some((v, m)),
{
    let s = spec_encode_version_output(v, m);
    let dmaj = spec_dec_digits(v.major as nat);
    let dmin = spec_dec_digits(v.minor as nat);
    let dpat = spec_dec_digits(v.patch as nat);
    let tok = spec_sapi_token(m);
    lemma_dec_digits_shape(v.major as nat);
    lemma_dec_digits_shape(v.minor as nat);
    lemma_dec_digits_shape(v.patch as nat);
    lemma_sapi_token_plain(m);
    let lm = dmin.len() as int;
    let lp = dpat.len() as int;
    let lt = tok.len() as int;
    let me = 6 + lm;
    let pe = me + 1 + lp;
    let ce = pe + 2 + lt;
    assert(s.len() == ce + 1);
    assert(s[0] == 'P' && s[1] == 'H' && s[2] == 'P' && s[3] == ' ');
    assert(s[4] == dmaj[0]);
    assert(spec_is_digit(s[4]));
    assert(s[5] == '.');
    assert(forall|k: int| 6 <= k < me ==> s[k] == dmin[k - 6]);
    assert(forall|k: int| 6 <= k < me ==> spec_is_digit(s[k]));
    assert(s[me] == '.');
    lemma_run_end_exact(s, 6, me);
    assert(forall|k: int| me + 1 <= k < pe ==> s[k] == dpat[k - (me + 1)]);
    assert(forall|k: int| me + 1 <= k < pe ==> spec_is_digit(s[k]));
    assert(s[pe] == ' ');
    lemma_run_end_exact(s, me + 1, pe);
    assert(s[pe + 1] == '(');
    assert(forall|k: int| pe + 2 <= k < ce ==> s[k] == tok[k - (pe + 2)]);
    assert(forall|k: int| pe + 2 <= k < ce ==> s[k] != ')');
    assert(s[ce] == ')');
    lemma_find_exact(s, pe + 2, ce, ')');
    assert(spec_output_shape(s));
    lemma_digits_value_agree(s, dmin, 6, 0, lm);
    lemma_dec_digits_value(v.minor as nat);
    assert(spec_digits_value(s, 6, me) == v.minor as nat);
    lemma_digits_value_agree(s, dpat, me + 1, 0, lp);
    lemma_dec_digits_value(v.patch as nat);
    assert(spec_digits_value(s, me + 1, pe) == v.patch as nat);
    assert(s.subrange(pe + 2, ce) =~= tok);
    crate::version::lemma_sapi_token_round_trip(m);
    assert(spec_digit_val(s[4]) == v.major as nat);
}

/// Inverse stability of parsing: re-encoding any successfully parsed report
/// and parsing it again yields the same version triple and mode.
pub proof fn lemma_parse_encode_stable(s: Seq<char>, v: PhpVersion, m: PhpServerSapi)
    requires
        spec_parse_version_output(s) == Some((v, m)),
    ensures
        spec_parse_version_output(spec_encode_version_output(v, m)) == Some((v, m)),
{
    assert(spec_digit_val(s[4]) <= 9);
    lemma_encode_parses_back(v, m);
}

/// Pushes the decimal digits of `n`, most significant first.
fn push_dec_digits(out: &mut Vec<char>, n: u32)
    ensures
        final (out)@ == old(out)@ + spec_dec_digits(n as nat),
    decreases n,
{
    if n < 10 {
        let c = char_of_digit(n);
        out.push(c);
        assert(out@ =~= old(out)@ + spec_dec_digits(n as nat));
    } else {
        push_dec_digits(out, n / 10);
        let c = char_of_digit(n % 10);
        out.push(c);
        assert(out@ =~= old(out)@ + spec_dec_digits(n as nat));
    }
}

fn char_of_digit(n: u32) -> (c: char)
    requires
        n <= 9,
    ensures
        c == spec_char_of_digit(n as nat),
{
    if n == 0 {
        '0'
    } else if n == 1 {
        '1'
    } else if n == 2 {
        '2'
    } else if n == 3 {
        '3'
    } else if n == 4 {
        '4'
    } else if n == 5 {
        '5'
    } else if n == 6 {
        '6'
    } else if n == 7 {
        '7'
    } else if n == 8 {
        '8'
    } else {
        '9'
    }
}

/// Rebuilds the report line that a binary of this version and mode prints.
pub fn encode_version_output(v: &PhpVersion, m: &PhpServerSapi) -> (r: Vec<char>)
    ensures
        r@ == spec_encode_version_output(*v, *m),
{
    let mut out: Vec<char> = Vec::new();
    out.push('P');
    out.push('H');
    out.push('P');
    out.push(' ');
    assert(out@ =~= seq!['P', 'H', 'P', ' ']);
    push_dec_digits(&mut out, v.major);
    out.push('.');
    push_dec_digits(&mut out, v.minor);
    out.push('.');
    push_dec_digits(&mut out, v.patch);
    out.push(' ');
    out.push('(');
    match m {
        PhpServerSapi::FPM => {
            out.push('f');
            out.push('p');
            out.push('m');
            out.push('-');
            out.push('f');
            out.push('c');
            out.push('g');
            out.push('i');
        },
        PhpServerSapi::CGI => {
            out.push('c');
            out.push('g');
            out.push('i');
            out.push('-');
            out.push('f');
            out.push('c');
            out.push('g');
            out.push('i');
        },
        PhpServerSapi::CLI => {
            out.push('c');
            out.push('l');
            out.push('i');
        },
    }
    out.push(')');
    assert(out@ =~= spec_encode_version_output(*v, *m));
    out
}

} // verus!
