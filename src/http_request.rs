//! Parsing a request: the request line, the header block and the body.
use vstd::prelude::*;
use vstd::string::StringExecFns;
use vstd::string::StrSliceExecFns;
use vstd::utf8::{
    decode_utf8, encode_utf8, encode_utf8_decode_utf8, encode_utf8_valid_utf8, valid_utf8,
};

use crate::http_header::{headers_view, HttpHeader};
use crate::text::{
    chars_of, eq_ignore_case, find_char, find_from, range_eq_ignore_case, trim, trim_bounds,
};

verus! {

/// The methods a request may carry.
#[derive(Clone, Copy, Debug, PartialEq, Eq, Structural)]
pub enum HttpRequestType {
    Get,
    Put,
    Post,
    Delete,
    Patch,
}

/// Why a request could not be parsed.
#[derive(Clone, Copy, Debug, PartialEq, Eq, Structural)]
pub enum ParseError {
    /// No method or path token, or no blank line before the body.
    MalformedRequest,
    /// The method token names none of the supported methods.
    UnsupportedMethod,
}

/// A parsed request.
#[derive(Debug)]
pub struct HttpRequest {
    pub request_type: HttpRequestType,
    pub request_path: String,
    pub headers: Vec<HttpHeader>,
    pub body: Option<String>,
}

/// What a request is: every part as a plain value.
pub struct RequestModel {
    pub request_type: HttpRequestType,
    pub request_path: Seq<char>,
    pub headers: Seq<(Seq<char>, Seq<char>)>,
    pub body: Option<Seq<char>>,
}

impl View for HttpRequest {
    type V = RequestModel;

    open spec fn view(&self) -> RequestModel {
        RequestModel {
            request_type: self.request_type,
            request_path: self.request_path@,
            headers: headers_view(self.headers@),
            body: match self.body {
                Some(b) => Some(b@),
                None => None,
            },
        }
    }
}

/// The method that a token names, compared without regard to ASCII case.
pub open spec fn method_of(tok: Seq<char>) -> Option<HttpRequestType> {
    if eq_ignore_case(tok, seq!['g', 'e', 't']) {
        Some(HttpRequestType::Get)
    } else if eq_ignore_case(tok, seq!['p', 'u', 't']) {
        Some(HttpRequestType::Put)
    } else if eq_ignore_case(tok, seq!['p', 'o', 's', 't']) {
        Some(HttpRequestType::Post)
    } else if eq_ignore_case(tok, seq!['d', 'e', 'l', 'e', 't', 'e']) {
        Some(HttpRequestType::Delete)
    } else if eq_ignore_case(tok, seq!['p', 'a', 't', 'c', 'h']) {
        Some(HttpRequestType::Patch)
    } else {
        None
    }
}

/// A header line split at its first colon, both sides trimmed; a line without
/// a colon gives its trimmed self as both name and value.
pub open spec fn parse_header(line: Seq<char>) -> (Seq<char>, Seq<char>) {
    let colon = find_from(line, ':', 0);
    if colon < line.len() {
        (trim(line.subrange(0, colon)), trim(line.subrange(colon + 1, line.len() as int)))
    } else {
        (trim(line), trim(line))
    }
}

/// The end of the line that starts at `i`: the next line feed, or the end of `s`.
pub open spec fn line_end(s: Seq<char>, i: int) -> int {
    i + find_from(s.subrange(i, s.len() as int), '\n', 0)
}

/// The headers on the lines from position `i` on, up to a line that holds a
/// lone carriage return or to the end of `s`.
pub open spec fn header_lines(s: Seq<char>, i: int) -> Seq<(Seq<char>, Seq<char>)>
    decreases s.len() - i,
{
    if i < 0 || i > s.len() {
        seq![]
    } else {
        let j = line_end(s, i);
        let line = s.subrange(i, j);
        if line == seq!['\r'] {
            seq![]
        } else if i <= j < s.len() {
            seq![parse_header(line)] + header_lines(s, j + 1)
        } else {
            seq![parse_header(line)]
        }
    }
}

/// The blank line that ends the header block starts at `k`.
pub open spec fn separator_at(s: Seq<char>, k: int) -> bool {
    &&& 0 <= k
    &&& k + 4 <= s.len()
    &&& s.subrange(k, k + 4) == seq!['\r', '\n', '\r', '\n']
}

/// The first position at or after `i` where the separator starts, or the length of `s`.
pub open spec fn find_separator(s: Seq<char>, i: int) -> int
    decreases s.len() - i,
{
    if i < 0 || i + 4 > s.len() {
        s.len() as int
    } else if separator_at(s, i) {
        i
    } else {
        find_separator(s, i + 1)
    }
}

/// The first line of a request.
pub open spec fn request_line(s: Seq<char>) -> Seq<char> {
    s.subrange(0, find_from(s, '\n', 0))
}

/// The end of the method token in the request line.
pub open spec fn method_end(line: Seq<char>) -> int {
    find_from(line, ' ', 0)
}

/// The path token of the request line, which follows the method token.
pub open spec fn path_token(line: Seq<char>) -> Seq<char> {
    let p = method_end(line) + 1;
    line.subrange(p, p + find_from(line.subrange(p, line.len() as int), ' ', 0))
}

/// What a request text parses to.
pub open spec fn parse_request(s: Seq<char>) -> Result<RequestModel, ParseError> {
    let k = find_separator(s, 0);
    let line = request_line(s);
    let e = find_from(s, '\n', 0);
    if k >= s.len() {
        Err(ParseError::MalformedRequest)
    } else {
        match method_of(line.subrange(0, method_end(line))) {
            None => Err(ParseError::UnsupportedMethod),
            Some(m) => if method_end(line) >= line.len() {
                Err(ParseError::MalformedRequest)
            } else {
                Ok(
                    RequestModel {
                        request_type: m,
                        request_path: path_token(line),
                        headers: if e < s.len() {
                            header_lines(s, e + 1)
                        } else {
                            seq![]
                        },
                        body: Some(trim(s.subrange(k + 4, s.len() as int))),
                    },
                )
            },
        }
    }
}

proof fn lemma_find_separator(s: Seq<char>, i: int)
    requires
        0 <= i <= s.len(),
    ensures
        i <= find_separator(s, i) <= s.len(),
        find_separator(s, i) < s.len() ==> separator_at(s, find_separator(s, i)),
        forall|k: int| i <= k < find_separator(s, i) ==> !separator_at(s, k),
    decreases s.len() - i,
{
    if i + 4 <= s.len() && !separator_at(s, i) {
        lemma_find_separator(s, i + 1);
    }
}

impl HttpRequestType {
    pub fn from_str(type_str: &str) -> (r: Result<HttpRequestType, ParseError>)
        ensures
            r == match method_of(type_str@) {
                Some(m) => Ok::<HttpRequestType, ParseError>(m),
                None => Err(ParseError::UnsupportedMethod),
            },
    {
        let v = chars_of(type_str);
        let n = v.len();
        assert(v@.subrange(0, n as int) =~= type_str@);
        if range_eq_ignore_case(&v, 0, n, &vec!['g', 'e', 't']) {
            Ok(HttpRequestType::Get)
        } else if range_eq_ignore_case(&v, 0, n, &vec!['p', 'u', 't']) {
            Ok(HttpRequestType::Put)
        } else if range_eq_ignore_case(&v, 0, n, &vec!['p', 'o', 's', 't']) {
            Ok(HttpRequestType::Post)
        } else if range_eq_ignore_case(&v, 0, n, &vec!['d', 'e', 'l', 'e', 't', 'e']) {
            Ok(HttpRequestType::Delete)
        } else if range_eq_ignore_case(&v, 0, n, &vec!['p', 'a', 't', 'c', 'h']) {
            Ok(HttpRequestType::Patch)
        } else {
            Err(ParseError::UnsupportedMethod)
        }
    }
}

/// The first position at which the header block's separator starts, or `v.len()`.
fn find_separator_in(v: &Vec<char>) -> (r: usize)
    ensures
        r == find_separator(v@, 0),
{
    let mut i: usize = 0;
    while v.len() - i >= 4 && !(v[i] == '\r' && v[i + 1] == '\n' && v[i + 2] == '\r' && v[i + 3]
        == '\n')
        invariant
            i <= v.len(),
            find_separator(v@, 0) == find_separator(v@, i as int),
        decreases v.len() - i,
    {
        assert(!separator_at(v@, i as int)) by {
            if separator_at(v@, i as int) {
                assert(v@.subrange(i as int, i + 4)[0] == v@[i as int]);
                assert(v@.subrange(i as int, i + 4)[1] == v@[i + 1]);
                assert(v@.subrange(i as int, i + 4)[2] == v@[i + 2]);
                assert(v@.subrange(i as int, i + 4)[3] == v@[i + 3]);
            }
        }
        i = i + 1;
    }
    if v.len() - i >= 4 {
        assert(v@.subrange(i as int, i + 4) =~= seq!['\r', '\n', '\r', '\n']);
        i
    } else {
        v.len()
    }
}

/// The header on the line `s[lo..hi]`, where `v` holds the characters of `s`.
fn header_in(s: &str, v: &Vec<char>, lo: usize, hi: usize) -> (r: HttpHeader)
    requires
        v@ == s@,
        lo <= hi <= v.len(),
    ensures
        r@ == parse_header(v@.subrange(lo as int, hi as int)),
{
    let ghost line = v@.subrange(lo as int, hi as int);
    let colon = find_char(v, ':', lo, hi);
    if colon < hi {
        let (a, b) = trim_bounds(v, lo, colon);
        let (c, d) = trim_bounds(v, colon + 1, hi);
        assert(line.subrange(0, colon - lo) =~= v@.subrange(lo as int, colon as int));
        assert(line.subrange(colon - lo + 1, line.len() as int) =~= v@.subrange(
            colon + 1,
            hi as int,
        ));
        HttpHeader::new(s.substring_char(a, b), s.substring_char(c, d))
    } else {
        let (a, b) = trim_bounds(v, lo, hi);
        let name = s.substring_char(a, b);
        HttpHeader::new(name, name)
    }
}

/// Relies on `std::str::from_utf8`: it fails exactly on bytes that are not
/// UTF-8, and otherwise returns the text whose UTF-8 form is `b`.
#[verifier::external_body]
fn utf8_text(b: &[u8]) -> (r: Option<&str>)
    ensures
        r matches Some(t) ==> encode_utf8(t@) == b@,
        r is None ==> !valid_utf8(b@),
{
    std::str::from_utf8(b).ok()
}

impl HttpRequest {
    /// Parses the bytes read from a connection; bytes that are not UTF-8 make
    /// a malformed request.
    pub fn from_bytes(bytes: &[u8]) -> (r: Result<HttpRequest, ParseError>)
        ensures
            r matches Ok(req) ==> valid_utf8(bytes@) && parse_request(decode_utf8(bytes@)) == Ok::<
                RequestModel,
                ParseError,
            >(req@),
            r matches Err(e) ==> e == ParseError::MalformedRequest || (valid_utf8(bytes@)
                && parse_request(decode_utf8(bytes@)) == Err::<RequestModel, ParseError>(e)),
            valid_utf8(bytes@) && parse_request(decode_utf8(bytes@)) is Err ==> r is Err,
            valid_utf8(bytes@) && parse_request(decode_utf8(bytes@)) is Ok ==> r is Ok,
            !valid_utf8(bytes@) ==> r == Err::<HttpRequest, ParseError>(
                ParseError::MalformedRequest,
            ),
    {
        match utf8_text(bytes) {
            Some(text) => {
                proof {
                    encode_utf8_decode_utf8(text@);
                    encode_utf8_valid_utf8(text@);
                }
                HttpRequest::from_str(text)
            },
            None => Err(ParseError::MalformedRequest),
        }
    }

    /// Parses the text of a request.
    pub fn from_str(request_str: &str) -> (r: Result<HttpRequest, ParseError>)
        ensures
            match parse_request(request_str@) {
                Ok(m) => r matches Ok(req) && req@ == m,
                Err(e) => r == Err::<HttpRequest, ParseError>(e),
            },
    {
        let ghost s = request_str@;
        let v = chars_of(request_str);
        let n = v.len();
        let k = find_separator_in(&v);
        if k >= n {
            return Err(ParseError::MalformedRequest);
        }
        proof {
            lemma_find_separator(s, 0);
        }
        let e = find_char(&v, '\n', 0, n);
        assert(v@.subrange(0, n as int) =~= v@);
        let ghost line = request_line(s);
        let sp = find_char(&v, ' ', 0, e);
        assert(line =~= v@.subrange(0, e as int));
        assert(line.subrange(0, method_end(line)) =~= v@.subrange(0, sp as int));
        let request_type = match HttpRequestType::from_str(request_str.substring_char(0, sp)) {
            Ok(t) => t,
            Err(err) => {
                return Err(err);
            },
        };
        if sp >= e {
            return Err(ParseError::MalformedRequest);
        }
        let path_end = find_char(&v, ' ', sp + 1, e);
        assert(line.subrange(sp + 1, line.len() as int) =~= v@.subrange(sp + 1, e as int));
        assert(path_token(line) =~= v@.subrange(sp + 1, path_end as int));
        let request_path = String::from_str(request_str.substring_char(sp + 1, path_end));
        let mut headers: Vec<HttpHeader> = Vec::new();
        if e < n {
            let mut i = e + 1;
            loop
                invariant_except_break
                    headers_view(headers@) + header_lines(s, i as int) == header_lines(
                        s,
                        e + 1,
                    ),
                invariant
                    e < i <= n,
                    n == v.len(),
                    v@ == s,
                    request_str@ == s,
                ensures
                    headers_view(headers@) == header_lines(s, e + 1),
                decreases n - i,
            {
                let j = find_char(&v, '\n', i, n);
                assert(j == line_end(s, i as int));
                if j - i == 1 && v[i] == '\r' {
                    assert(s.subrange(i as int, j as int) =~= seq!['\r']);
                    assert(headers_view(headers@) + seq![] =~= headers_view(headers@));
                    break ;
                }
                assert(s.subrange(i as int, j as int) != seq!['\r']) by {
                    let line = s.subrange(i as int, j as int);
                    if j - i == 1 {
                        assert(line[0] == s[i as int]);
                        assert(line[0] != seq!['\r'][0]);
                    } else {
                        assert(line.len() != seq!['\r'].len());
                    }
                }
                let h = header_in(request_str, &v, i, j);
                let ghost before = headers@;
                headers.push(h);
                assert(headers_view(headers@) =~= headers_view(before) + seq![h@]);
                if j < n {
                    assert(headers_view(headers@) + header_lines(s, j + 1) =~= headers_view(
                        before,
                    ) + header_lines(s, i as int));
                    i = j + 1;
                } else {
                    assert(headers_view(headers@) =~= headers_view(before) + header_lines(
                        s,
                        i as int,
                    ));
                    break ;
                }
            }
        }
        assert(e >= n ==> headers_view(headers@) =~= seq![]);
        let (a, b) = trim_bounds(&v, k + 4, n);
        let body = String::from_str(request_str.substring_char(a, b));
        Ok(HttpRequest { request_type, request_path, headers, body: Some(body) })
    }
}

} // verus!
