//! The logical identity of one PHP release and the server API (execution
//! mode) a binary was built for.

use vstd::prelude::*;
use crate::chars::spec_is_digit;

verus! {

/// A semantic version triple identifying one logical PHP release.
#[derive(Clone, Copy, PartialEq, Eq, Structural, Debug, Hash)]
pub struct PhpVersion {
    pub major: u32,
    pub minor: u32,
    pub patch: u32,
}

/// The execution mode a binary supports: a long-lived worker-pool manager
/// (FPM), one process per request (CGI), or direct script invocation (CLI).
#[derive(Clone, Copy, PartialEq, Eq, Structural, Debug)]
pub enum PhpServerSapi {
    FPM,
    CGI,
    CLI,
}

/// Lexicographic order on version triples.
pub open spec fn spec_version_le(a: PhpVersion, b: PhpVersion) -> bool {
    if a.major != b.major {
        a.major < b.major
    } else if a.minor != b.minor {
        a.minor < b.minor
    } else {
        a.patch <= b.patch
    }
}

/// `a` is strictly below `b` in version order.
pub fn version_lt(a: &PhpVersion, b: &PhpVersion) -> (r: bool)
    ensures
        r == (spec_version_le(*a, *b) && *a != *b),
{
    if a.major != b.major {
        a.major < b.major
    } else if a.minor != b.minor {
        a.minor < b.minor
    } else {
        a.patch < b.patch
    }
}

/// The token a binary prints for the worker-manager mode.
pub open spec fn spec_fpm_sapi_token() -> Seq<char> {
    seq!['f', 'p', 'm', '-', 'f', 'c', 'g', 'i']
}

/// The token a binary prints for the per-request-process mode.
pub open spec fn spec_cgi_sapi_token() -> Seq<char> {
    seq!['c', 'g', 'i', '-', 'f', 'c', 'g', 'i']
}

/// The token a binary prints for the direct-invocation mode.
pub open spec fn spec_cli_sapi_token() -> Seq<char> {
    seq!['c', 'l', 'i']
}

/// The token that encodes a mode.
pub open spec fn spec_sapi_token(s: PhpServerSapi) -> Seq<char> {
    match s {
        PhpServerSapi::FPM => spec_fpm_sapi_token(),
        PhpServerSapi::CGI => spec_cgi_sapi_token(),
        PhpServerSapi::CLI => spec_cli_sapi_token(),
    }
}

/// The mode a token stands for, if any.
pub open spec fn spec_sapi_of_token(t: Seq<char>) -> Option<PhpServerSapi> {
    if t == spec_fpm_sapi_token() {
        Some(PhpServerSapi::FPM)
    } else if t == spec_cgi_sapi_token() {
        Some(PhpServerSapi::CGI)
    } else if t == spec_cli_sapi_token() {
        Some(PhpServerSapi::CLI)
    } else {
        None
    }
}

/// Decoding a mode's own token gives that mode back.
pub proof fn lemma_sapi_token_round_trip(s: PhpServerSapi)
    ensures
        spec_sapi_of_token(spec_sapi_token(s)) == Some(s),
{
    assert(spec_fpm_sapi_token() != spec_cgi_sapi_token()) by {
        assert(spec_fpm_sapi_token()[0] != spec_cgi_sapi_token()[0]);
    }
    assert(spec_fpm_sapi_token().len() != spec_cli_sapi_token().len());
    assert(spec_cgi_sapi_token().len() != spec_cli_sapi_token().len());
}

/// The mode encoded by the token `v[from..to]`, if any.
pub fn sapi_from_chars(v: &Vec<char>, from: usize, to: usize) -> (r: Option<PhpServerSapi>)
    requires
        from <= to <= v.len(),
    ensures
        r == spec_sapi_of_token(v@.subrange(from as int, to as int)),
{
    let ghost t = v@.subrange(from as int, to as int);
    if to - from == 8 {
        let dash_tail = v[from + 3] == '-' && v[from + 4] == 'f' && v[from + 5] == 'c'
            && v[from + 6] == 'g' && v[from + 7] == 'i';
        if v[from] == 'f' && v[from + 1] == 'p' && v[from + 2] == 'm' && dash_tail {
            assert(t =~= spec_fpm_sapi_token());
            Some(PhpServerSapi::FPM)
        } else if v[from] == 'c' && v[from + 1] == 'g' && v[from + 2] == 'i' && dash_tail {
            assert(t =~= spec_cgi_sapi_token());
            Some(PhpServerSapi::CGI)
        } else {
            proof {
                assert(t != spec_fpm_sapi_token() && t != spec_cgi_sapi_token()) by {
                    if t == spec_fpm_sapi_token() || t == spec_cgi_sapi_token() {
                        assert(t[0] == v@[from as int] && t[1] == v@[from + 1] && t[2] == v@[from
                            + 2] && t[3] == v@[from + 3] && t[4] == v@[from + 4] && t[5] == v@[from
                            + 5] && t[6] == v@[from + 6] && t[7] == v@[from + 7]);
                    }
                }
                assert(t.len() == 8 && spec_cli_sapi_token().len() == 3);
            }
            None
        }
    } else if to - from == 3 && v[from] == 'c' && v[from + 1] == 'l' && v[from + 2] == 'i' {
        assert(t =~= spec_cli_sapi_token());
        Some(PhpServerSapi::CLI)
    } else {
        proof {
            assert(t.len() != 8 ==> t != spec_fpm_sapi_token() && t != spec_cgi_sapi_token());
            if t.len() == 3 && t == spec_cli_sapi_token() {
                assert(t[0] == v@[from as int] && t[1] == v@[from + 1] && t[2] == v@[from + 2]);
            }
        }
        None
    }
}

} // verus!
