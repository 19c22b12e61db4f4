//! The request-routing contract between the HTTP listener and the backend:
//! where a request goes, and how a backend's captured output becomes an
//! HTTP response.
//!
//! A backend's output is a header block — `Name: value` lines ended by one
//! empty line — followed by the body. A `Status` header sets the response
//! status; without one the response is 200. Output of any other shape, a
//! timeout or a failed backend becomes a 502 response; one request's
//! failure never goes further than that request.

use vstd::prelude::*;
use crate::chars::{
    spec_is_digit, spec_digit_val, spec_find_char, chars_of, find_char, lemma_find_char_bounds,
};

verus! {

/// Where one request goes.
pub enum RouteTarget {
    /// Serve the file at the request's path under the document root,
    /// bypassing the backend entirely.
    StaticFile { rel_path: String },
    /// Run the passthrough script, handing it the request's query string.
    Script { script: String, query: String },
}

/// The request path: everything before the first `?`.
pub open spec fn spec_url_path(url: Seq<char>) -> Seq<char> {
    let q = spec_find_char(url, 0, '?');
    if 0 <= q && q < url.len() {
        url.subrange(0, q)
    } else {
        url
    }
}

/// The query string: everything after the first `?`, empty without one.
pub open spec fn spec_url_query(url: Seq<char>) -> Seq<char> {
    let q = spec_find_char(url, 0, '?');
    if 0 <= q && q < url.len() {
        url.subrange(q + 1, url.len() as int)
    } else {
        Seq::empty()
    }
}

/// Splits a request URL into its path and its query string.
pub fn split_query(url: &str) -> (r: (String, String))
    ensures
        r.0@ == spec_url_path(url@),
        r.1@ == spec_url_query(url@),
{
    let v = chars_of(url);
    let n = v.len();
    let q = find_char(&v, 0, '?');
    proof {
        lemma_find_char_bounds(v@, 0, '?');
    }
    if q == n {
        let empty = String::new();
        proof {
            assert(empty@ =~= spec_url_query(url@));
        }
        (url.to_owned(), empty)
    } else {
        (url.substring_char(0, q).to_owned(), url.substring_char(q + 1, n).to_owned())
    }
}

/// Routes one request: a URL path that resolves to an existing static file
/// under the document root is served directly, with no backend invocation;
/// any other request runs the passthrough script with the URL's query
/// string.
pub fn route_request(url: &str, static_exists: bool, passthru: &str) -> (r: RouteTarget)
    ensures
        match r {
            RouteTarget::StaticFile { rel_path } => static_exists && rel_path@ == spec_url_path(
                url@,
            ),
            RouteTarget::Script { script, query } => {
                &&& !static_exists
                &&& script@ == passthru@
                &&& query@ == spec_url_query(url@)
            },
        },
{
    let (path, query) = split_query(url);
    if static_exists {
        RouteTarget::StaticFile { rel_path: path }
    } else {
        RouteTarget::Script { script: passthru.to_owned(), query }
    }
}

/// The spec-level contents of an HTTP response.
#[verifier::ext_equal]
pub struct RespView {
    pub status: int,
    pub headers: Seq<(Seq<char>, Seq<char>)>,
    pub body: Seq<char>,
}

/// An HTTP response: status, headers in order, and the body text.
pub struct HttpResponse {
    pub status: u16,
    pub headers: Vec<(String, String)>,
    pub body: String,
}

pub open spec fn spec_header_pairs_view(s: Seq<(String, String)>) -> Seq<(Seq<char>, Seq<char>)> {
    s.map_values(|p: (String, String)| (p.0@, p.1@))
}

impl View for HttpResponse {
    type V = RespView;

    open spec fn view(&self) -> RespView {
        RespView {
            status: self.status as int,
            headers: spec_header_pairs_view(self.headers@),
            body: self.body@,
        }
    }
}

/// A single request's backend interaction failed or its output was not a
/// well-formed header block.
#[derive(Clone, Copy, PartialEq, Eq, Structural, Debug)]
pub enum BackendError {
    BackendRequestFailure,
}

/// The header lines of the block and the body after its empty line; `None`
/// when no empty line ends the block. A line's one trailing `\r` is
/// stripped, so both bare-`\n` and `\r\n` blocks are read.
pub open spec fn spec_header_block(s: Seq<char>) -> Option<(Seq<Seq<char>>, Seq<char>)>
    decreases s.len(),
{
    let j = spec_find_char(s, 0, '\n');
    if 0 <= j && j < s.len() {
        let line = if j > 0 && s[j - 1] == '\r' {
            s.subrange(0, j - 1)
        } else {
            s.subrange(0, j)
        };
        let tail = s.subrange(j + 1, s.len() as int);
        if line.len() == 0 {
            Some((Seq::empty(), tail))
        } else {
            match spec_header_block(tail) {
                Option::None => None,
                Option::Some(hb) => Some((seq![line] + hb.0, hb.1)),
            }
        }
    } else {
        None
    }
}

/// A header line as its name and value: the name before the first `:`,
/// the value after it with one leading space stripped; `None` for a line
/// with no `:` or an empty name.
pub open spec fn spec_header_pair(line: Seq<char>) -> Option<(Seq<char>, Seq<char>)> {
    let c = spec_find_char(line, 0, ':');
    if 0 < c && c < line.len() {
        let v0 = line.subrange(c + 1, line.len() as int);
        let value = if v0.len() > 0 && v0[0] == ' ' {
            v0.subrange(1, v0.len() as int)
        } else {
            v0
        };
        Some((line.subrange(0, c), value))
    } else {
        None
    }
}

pub open spec fn spec_header_pairs(lines: Seq<Seq<char>>) -> Option<Seq<(Seq<char>, Seq<char>)>>
    decreases lines.len(),
{
    if lines.len() == 0 {
        Some(Seq::empty())
    } else {
        match (spec_header_pairs(lines.drop_last()), spec_header_pair(lines.last())) {
            (Option::Some(ps), Option::Some(p)) => Some(ps.push(p)),
            _ => None,
        }
    }
}

pub open spec fn spec_status_name() -> Seq<char> {
    seq!['S', 't', 'a', 't', 'u', 's']
}

/// The value of the first `Status` header, if any.
pub open spec fn spec_find_status(ps: Seq<(Seq<char>, Seq<char>)>) -> Option<Seq<char>>
    decreases ps.len(),
{
    if ps.len() == 0 {
        None
    } else if ps[0].0 == spec_status_name() {
        Some(ps[0].1)
    } else {
        spec_find_status(ps.drop_first())
    }
}

/// The status code a `Status` value carries: its first three characters as
/// digits; `None` for any other shape.
pub open spec fn spec_status_code(vl: Seq<char>) -> Option<int> {
    if vl.len() >= 3 && spec_is_digit(vl[0]) && spec_is_digit(vl[1]) && spec_is_digit(vl[2]) {
        Some((spec_digit_val(vl[0]) * 100 + spec_digit_val(vl[1]) * 10 + spec_digit_val(vl[2])) as int)
    } else {
        None
    }
}

/// What a backend's captured output means as an HTTP response: its header
/// block's pairs in order, the status its `Status` header carries (200
/// without one), and the body after the block, unmodified. `None` when the
/// output is not a well-formed header block plus body.
pub open spec fn spec_translate_output(s: Seq<char>) -> Option<RespView> {
    match spec_header_block(s) {
        Option::None => None,
        Option::Some(hb) => match spec_header_pairs(hb.0) {
            Option::None => None,
            Option::Some(ps) => match spec_find_status(ps) {
                Option::None => Some(RespView { status: 200, headers: ps, body: hb.1 }),
                Option::Some(vl) => match spec_status_code(vl) {
                    Option::None => None,
                    Option::Some(c) => Some(RespView { status: c, headers: ps, body: hb.1 }),
                },
            },
        },
    }
}

/// Splits a backend's output into its header lines and its body.
fn split_header_block(out: &str) -> (r: Option<(Vec<String>, String)>)
    ensures
        match r {
            Some(p) => spec_header_block(out@) == Some(
                (crate::paths::spec_strs_view(p.0@), p.1@),
            ),
            None => spec_header_block(out@) is None,
        },
{
    let v = chars_of(out);
    let n = v.len();
    let mut lines: Vec<String> = Vec::new();
    let mut pos: usize = 0;
    proof {
        assert(out@.subrange(0, n as int) =~= out@);
        assert(crate::paths::spec_strs_view(lines@) =~= Seq::<Seq<char>>::empty());
    }
    loop
        invariant
            pos <= n,
            n == v.len(),
            v@ == out@,
            (match spec_header_block(out@.subrange(pos as int, n as int)) {
                Option::None => spec_header_block(out@) is None,
                Option::Some(hb) => spec_header_block(out@) == Some(
                    (crate::paths::spec_strs_view(lines@) + hb.0, hb.1),
                ),
            }),
        decreases n - pos,
    {
        let ghost rest = out@.subrange(pos as int, n as int);
        let j = find_char(&v, pos, '\n');
        proof {
            lemma_find_char_bounds(v@, pos as int, '\n');
            crate::paths::lemma_find_char_shift(v@, pos as int, n as int, '\n');
            assert(spec_find_char(rest, 0, '\n') == j - pos);
        }
        if j == n {
            proof {
                assert(spec_find_char(rest, 0, '\n') == rest.len());
                assert(spec_header_block(rest) is None);
            }
            return None;
        }
        let ghost jj = j - pos;
        let ghost line_spec = if jj > 0 && rest[jj - 1] == '\r' {
            rest.subrange(0, jj - 1)
        } else {
            rest.subrange(0, jj)
        };
        let ghost tail = rest.subrange(jj + 1, rest.len() as int);
        proof {
            assert(tail =~= out@.subrange(j + 1, n as int));
        }
        let line_end = if j > pos && v[j - 1] == '\r' {
            j - 1
        } else {
            j
        };
        proof {
            assert(jj > 0 ==> rest[jj - 1] == v@[j - 1]);
            assert(line_spec =~= out@.subrange(pos as int, line_end as int));
        }
        if line_end == pos {
            let body = out.substring_char(j + 1, n).to_owned();
            proof {
                assert(line_spec.len() == 0);
                assert(spec_header_block(rest) == Some((Seq::<Seq<char>>::empty(), tail)));
                assert(crate::paths::spec_strs_view(lines@) + Seq::<Seq<char>>::empty()
                    =~= crate::paths::spec_strs_view(lines@));
            }
            return Some((lines, body));
        }
        let ghost pre_lines = crate::paths::spec_strs_view(lines@);
        let piece = out.substring_char(pos, line_end);
        lines.push(piece.to_owned());
        proof {
            assert(line_spec.len() > 0);
            assert(crate::paths::spec_strs_view(lines@) =~= pre_lines + seq![line_spec]);
            assert(spec_header_block(rest) == (match spec_header_block(tail) {
                Option::None => Option::<(Seq<Seq<char>>, Seq<char>)>::None,
                Option::Some(hb) => Option::Some((seq![line_spec] + hb.0, hb.1)),
            }));
            match spec_header_block(tail) {
                Option::None => {
                },
                Option::Some(hb) => {
                    assert((pre_lines + seq![line_spec]) + hb.0 =~= pre_lines + (seq![line_spec]
                        + hb.0));
                },
            }
        }
        pos = j + 1;
    }
}

/// A header line as its name and value.
fn parse_header_line(line: &str) -> (r: Option<(String, String)>)
    ensures
        match r {
            Some(p) => spec_header_pair(line@) == Some((p.0@, p.1@)),
            None => spec_header_pair(line@) is None,
        },
{
    let v = chars_of(line);
    let n = v.len();
    let c = find_char(&v, 0, ':');
    proof {
        lemma_find_char_bounds(v@, 0, ':');
    }
    if c == 0 || c == n {
        return None;
    }
    let name = line.substring_char(0, c).to_owned();
    let vstart = if c + 1 < n && v[c + 1] == ' ' {
        c + 2
    } else {
        c + 1
    };
    let value = line.substring_char(vstart, n).to_owned();
    proof {
        let ghost v0 = line@.subrange(c + 1, n as int);
        assert(v0.len() > 0 ==> v0[0] == v@[c + 1]);
        if v0.len() > 0 && v0[0] == ' ' {
            assert(v0.subrange(1, v0.len() as int) =~= line@.subrange(c + 2, n as int));
        }
    }
    Some((name, value))
}

/// Whether a header name is the status header's name.
fn is_status_name(name: &String) -> (r: bool)
    ensures
        r == (name@ == spec_status_name()),
{
    let s = name.as_str();
    let n = s.unicode_len();
    if n != 6 {
        return false;
    }
    let r = s.get_char(0) == 'S' && s.get_char(1) == 't' && s.get_char(2) == 'a' && s.get_char(3)
        == 't' && s.get_char(4) == 'u' && s.get_char(5) == 's';
    proof {
        if r {
            assert(name@ =~= spec_status_name());
        }
    }
    r
}

/// The first `Status` header's value.
fn find_status_value<'a>(ps: &'a Vec<(String, String)>) -> (r: Option<&'a String>)
    ensures
        match r {
            Some(vl) => spec_find_status(spec_header_pairs_view(ps@)) == Some(vl@),
            None => spec_find_status(spec_header_pairs_view(ps@)) is None,
        },
{
    let ghost full = spec_header_pairs_view(ps@);
    let mut i: usize = 0;
    proof {
        assert(full.skip(0) =~= full);
    }
    while i < ps.len()
        invariant
            i <= ps@.len(),
            full == spec_header_pairs_view(ps@),
            spec_find_status(full) == spec_find_status(full.skip(i as int)),
        decreases ps@.len() - i,
    {
        let ghost sk = full.skip(i as int);
        proof {
            assert(sk[0] == full[i as int]);
            assert(sk.drop_first() =~= full.skip(i + 1));
        }
        if is_status_name(&ps[i].0) {
            proof {
                assert(spec_find_status(sk) == Some(full[i as int].1));
            }
            return Some(&ps[i].1);
        }
        proof {
            assert(spec_find_status(sk) == spec_find_status(full.skip(i + 1)));
        }
        i = i + 1;
    }
    proof {
        assert(full.skip(full.len() as int).len() == 0);
    }
    None
}

/// The status code of a `Status` value.
fn parse_status_code(vl: &str) -> (r: Option<u16>)
    ensures
        match r {
            Some(c) => spec_status_code(vl@) == Some(c as int),
            None => spec_status_code(vl@) is None,
        },
{
    let v = chars_of(vl);
    if v.len() < 3 {
        return None;
    }
    let c0 = v[0];
    let c1 = v[1];
    let c2 = v[2];
    if !('0' <= c0 && c0 <= '9' && '0' <= c1 && c1 <= '9' && '0' <= c2 && c2 <= '9') {
        return None;
    }
    let d0: u16 = ((c0 as u32) - ('0' as u32)) as u16;
    let d1: u16 = ((c1 as u32) - ('0' as u32)) as u16;
    let d2: u16 = ((c2 as u32) - ('0' as u32)) as u16;
    Some(d0 * 100 + d1 * 10 + d2)
}

/// A prefix that already fails to parse as header pairs fails for the
/// whole sequence of lines.
proof fn lemma_header_pairs_prefix_none(s: Seq<Seq<char>>, k: int)
    requires
        0 <= k <= s.len(),
        spec_header_pairs(s.take(k)) is None,
    ensures
        spec_header_pairs(s) is None,
    decreases s.len() - k,
{
    if k < s.len() {
        assert(s.take(k + 1).drop_last() =~= s.take(k));
        lemma_header_pairs_prefix_none(s, k + 1);
    } else {
        assert(s.take(k) =~= s);
    }
}

/// Translates a backend's captured output into the HTTP response it
/// encodes: header block reproduced in order, `Status` header honoured,
/// 200 without one, body passed through unmodified. Output that is not a
/// well-formed header block plus body is a request failure.
pub fn translate_output(out: &str) -> (r: Result<HttpResponse, BackendError>)
    ensures
        match r {
            Ok(resp) => spec_translate_output(out@) == Some(resp@),
            Err(e) => {
                &&& spec_translate_output(out@) is None
                &&& e == BackendError::BackendRequestFailure
            },
        },
{
    let (lines, body) = match split_header_block(out) {
        Some(p) => p,
        None => {
            return Err(BackendError::BackendRequestFailure);
        },
    };
    let mut pairs: Vec<(String, String)> = Vec::new();
    let mut i: usize = 0;
    let ghost lv = crate::paths::spec_strs_view(lines@);
    proof {
        assert(spec_header_pairs(lv.take(0)) == Some(Seq::<(Seq<char>, Seq<char>)>::empty()));
        assert(spec_header_pairs_view(pairs@) =~= Seq::<(Seq<char>, Seq<char>)>::empty());
    }
    while i < lines.len()
        invariant
            i <= lines@.len(),
            lv == crate::paths::spec_strs_view(lines@),
            spec_header_block(out@) == Some((lv, body@)),
            spec_header_pairs(lv.take(i as int)) == Some(spec_header_pairs_view(pairs@)),
        decreases lines@.len() - i,
    {
        let ghost pre = lv.take(i as int);
        let ghost post = lv.take(i + 1);
        proof {
            assert(post.drop_last() =~= pre);
            assert(post.last() == lines@[i as int]@);
        }
        match parse_header_line(lines[i].as_str()) {
            Some(p) => {
                let ghost pview = (p.0@, p.1@);
                pairs.push(p);
                proof {
                    assert(spec_header_pairs_view(pairs@) =~= spec_header_pairs_view(
                        pairs@.drop_last(),
                    ).push(pview));
                }
            },
            None => {
                proof {
                    assert(spec_header_pairs(post) is None);
                    lemma_header_pairs_prefix_none(lv, i + 1);
                    assert(spec_translate_output(out@) is None);
                }
                return Err(BackendError::BackendRequestFailure);
            },
        }
        i = i + 1;
    }
    proof {
        assert(lv.take(lv.len() as int) =~= lv);
    }
    let status: u16 = match find_status_value(&pairs) {
        None => 200,
        Some(vl) => match parse_status_code(vl.as_str()) {
            Some(c) => c,
            None => {
                proof {
                    assert(spec_header_block(out@) == Some((lv, body@)));
                    assert(spec_header_pairs(lv) == Some(spec_header_pairs_view(pairs@)));
                    assert(spec_find_status(spec_header_pairs_view(pairs@)) == Some(vl@));
                    assert(spec_status_code(vl@) is None);
                    assert(spec_translate_output(out@) is None);
                }
                return Err(BackendError::BackendRequestFailure);
            },
        },
    };
    let resp = HttpResponse { status, headers: pairs, body };
    proof {
        assert(spec_translate_output(out@) == Some(resp@)) by {
            assert(resp@ =~~= spec_translate_output(out@).unwrap());
        }
    }
    Ok(resp)
}

/// The response every backend failure turns into.
pub open spec fn spec_gateway_error() -> RespView {
    RespView { status: 502, headers: Seq::empty(), body: Seq::empty() }
}

/// The empty 502 response.
pub fn gateway_error_response() -> (r: HttpResponse)
    ensures
        r@ == spec_gateway_error(),
{
    let r = HttpResponse { status: 502, headers: Vec::new(), body: String::new() };
    proof {
        assert(r@ =~~= spec_gateway_error());
    }
    r
}

/// How one backend interaction ended: its captured output, or a timeout,
/// or a failure with nothing usable captured.
pub enum BackendOutcome {
    Completed { output: String },
    TimedOut,
    Failed,
}

/// The response the client receives for one backend interaction: a
/// completed backend's well-formed output becomes the response it encodes;
/// a timeout, a failure, or malformed output becomes the 502 response —
/// never anything that escapes the request.
pub fn response_for_outcome(outcome: &BackendOutcome) -> (r: HttpResponse)
    ensures
        match outcome {
            BackendOutcome::Completed { output } => match spec_translate_output(output@) {
                Option::Some(rv) => r@ == rv,
                Option::None => r@ == spec_gateway_error(),
            },
            BackendOutcome::TimedOut => r@ == spec_gateway_error(),
            BackendOutcome::Failed => r@ == spec_gateway_error(),
        },
{
    match outcome {
        BackendOutcome::Completed { output } => match translate_output(output.as_str()) {
            Ok(resp) => resp,
            Err(_) => gateway_error_response(),
        },
        BackendOutcome::TimedOut => gateway_error_response(),
        BackendOutcome::Failed => gateway_error_response(),
    }
}

} // verus!
