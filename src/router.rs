//! Dispatch of a parsed request to one of the fixed routes.
use vstd::prelude::*;
use vstd::string::StrSliceExecFns;
use vstd::utf8::encode_utf8;

use crate::compressor::{gzip_fails, gzip_of, gzip_string};
use crate::http_header::HttpHeader;
use crate::http_request::{HttpRequest, HttpRequestType, RequestModel};
use crate::http_response::{
    assembled, HttpResponse, HttpResponseBuilder, HttpStatusCode, ResponseModel,
};
use crate::text::{
    chars_of, contains_ignore_case, eq_ignore_case, equals_chars, range_contains_ignore_case,
    range_eq_ignore_case, rfind_before, rfind_char, starts_with_chars,
};

verus! {

/// The routes, in the order in which they are tried.
#[derive(Clone, Copy, Debug, PartialEq, Eq, Structural)]
pub enum Route {
    Root,
    Echo,
    UserAgent,
    Files,
    Unmatched,
}

/// What is to be done for a request.
#[derive(Debug)]
pub enum Dispatch {
    /// Send this response.
    Respond(HttpResponse),
    /// Read the named file of the served directory and answer with `file_response`.
    ReadFile(String),
    /// Write these bytes to the named file of the served directory and answer
    /// with `file_written_response`.
    WriteFile(String, Vec<u8>),
}

/// What a dispatch is, as plain values.
pub enum DispatchModel {
    Respond(ResponseModel),
    ReadFile(Seq<char>),
    WriteFile(Seq<char>, Seq<u8>),
}

impl View for Dispatch {
    type V = DispatchModel;

    open spec fn view(&self) -> DispatchModel {
        match self {
            Dispatch::Respond(r) => DispatchModel::Respond(r@),
            Dispatch::ReadFile(n) => DispatchModel::ReadFile(n@),
            Dispatch::WriteFile(n, b) => DispatchModel::WriteFile(n@, b@),
        }
    }
}

/// Why a request could not be answered.
#[derive(Clone, Copy, Debug, PartialEq, Eq, Structural)]
pub enum RouteError {
    /// The gzip encoder failed.
    CompressionFailed,
}

pub open spec fn echo_prefix() -> Seq<char> {
    seq!['/', 'e', 'c', 'h', 'o']
}

pub open spec fn files_prefix() -> Seq<char> {
    seq!['/', 'f', 'i', 'l', 'e', 's']
}

pub open spec fn user_agent_path() -> Seq<char> {
    seq!['/', 'u', 's', 'e', 'r', '-', 'a', 'g', 'e', 'n', 't']
}

pub open spec fn user_agent_name() -> Seq<char> {
    seq!['u', 's', 'e', 'r', '-', 'a', 'g', 'e', 'n', 't']
}

pub open spec fn accept_encoding_name() -> Seq<char> {
    seq!['a', 'c', 'c', 'e', 'p', 't', '-', 'e', 'n', 'c', 'o', 'd', 'i', 'n', 'g']
}

pub open spec fn gzip_token() -> Seq<char> {
    seq!['g', 'z', 'i', 'p']
}

pub open spec fn starts_with(s: Seq<char>, prefix: Seq<char>) -> bool {
    prefix.len() <= s.len() && s.subrange(0, prefix.len() as int) == prefix
}

/// The route that a path selects: the first rule that matches.
pub open spec fn route_of(path: Seq<char>) -> Route {
    if path == seq!['/'] {
        Route::Root
    } else if starts_with(path, echo_prefix()) {
        Route::Echo
    } else if path == user_agent_path() {
        Route::UserAgent
    } else if starts_with(path, files_prefix()) {
        Route::Files
    } else {
        Route::Unmatched
    }
}

/// What follows the last `/` of a path (all of it when there is none).
pub open spec fn last_segment(path: Seq<char>) -> Seq<char> {
    path.subrange(rfind_before(path, '/', path.len() as int) + 1, path.len() as int)
}

/// The position of the first header at or after `i` whose name is `name` up
/// to ASCII case, or the number of headers.
pub open spec fn first_match(hs: Seq<(Seq<char>, Seq<char>)>, name: Seq<char>, i: int) -> int
    decreases hs.len() - i,
{
    if i < 0 || i >= hs.len() {
        hs.len() as int
    } else if eq_ignore_case(hs[i].0, name) {
        i
    } else {
        first_match(hs, name, i + 1)
    }
}

/// The value of the first header named `name`, up to ASCII case.
pub open spec fn header_value(hs: Seq<(Seq<char>, Seq<char>)>, name: Seq<char>) -> Option<
    Seq<char>,
> {
    let k = first_match(hs, name, 0);
    if 0 <= k < hs.len() {
        Some(hs[k].1)
    } else {
        None
    }
}

/// The client accepts gzip: its first Accept-Encoding header mentions it, in any case.
pub open spec fn gzip_requested(hs: Seq<(Seq<char>, Seq<char>)>) -> bool {
    match header_value(hs, accept_encoding_name()) {
        Some(v) => contains_ignore_case(v, gzip_token()),
        None => false,
    }
}

/// An empty 200 response.
pub open spec fn root_model() -> ResponseModel {
    assembled(HttpStatusCode::Okay, None, None, None, seq![])
}

/// An empty 404 response.
pub open spec fn not_found_model() -> ResponseModel {
    assembled(HttpStatusCode::NotFound, None, None, None, seq![])
}

/// A 200 response whose body is the UTF-8 form of `text`.
pub open spec fn text_model(text: Seq<char>) -> ResponseModel {
    assembled(HttpStatusCode::Okay, None, None, None, encode_utf8(text))
}

/// A 200 response whose body is gzip-encoded bytes.
pub open spec fn gzip_model(compressed: Seq<u8>) -> ResponseModel {
    assembled(HttpStatusCode::Okay, None, None, Some("gzip"@), compressed)
}

/// A 200 response carrying a file's bytes.
pub open spec fn file_model(content: Seq<u8>) -> ResponseModel {
    assembled(HttpStatusCode::Okay, None, Some("application/octet-stream"@), None, content)
}

/// An empty 201 response.
pub open spec fn created_model() -> ResponseModel {
    assembled(HttpStatusCode::Created, None, None, None, seq![])
}

/// The answer on the echo route.
pub open spec fn echo_model(req: RequestModel) -> ResponseModel {
    let value = last_segment(req.request_path);
    if gzip_requested(req.headers) {
        gzip_model(gzip_of(encode_utf8(value)))
    } else {
        text_model(value)
    }
}

/// The answer on the user-agent route.
pub open spec fn user_agent_model(req: RequestModel) -> ResponseModel {
    match header_value(req.headers, user_agent_name()) {
        Some(v) => text_model(v),
        None => not_found_model(),
    }
}

/// The bytes of an optional body, empty where there is none.
pub open spec fn body_bytes(body: Option<Seq<char>>) -> Seq<u8> {
    match body {
        Some(b) => encode_utf8(b),
        None => seq![],
    }
}

/// What the files route does.
pub open spec fn files_model(req: RequestModel) -> DispatchModel {
    match req.request_type {
        HttpRequestType::Get => DispatchModel::ReadFile(last_segment(req.request_path)),
        HttpRequestType::Post => DispatchModel::WriteFile(
            last_segment(req.request_path),
            body_bytes(req.body),
        ),
        _ => DispatchModel::Respond(not_found_model()),
    }
}

/// What is to be done for a request.
pub open spec fn dispatch_model(req: RequestModel) -> DispatchModel {
    match route_of(req.request_path) {
        Route::Root => DispatchModel::Respond(root_model()),
        Route::Echo => DispatchModel::Respond(echo_model(req)),
        Route::UserAgent => DispatchModel::Respond(user_agent_model(req)),
        Route::Files => files_model(req),
        Route::Unmatched => DispatchModel::Respond(not_found_model()),
    }
}

proof fn lemma_first_match_bounds(hs: Seq<(Seq<char>, Seq<char>)>, name: Seq<char>, i: int)
    requires
        0 <= i <= hs.len(),
    ensures
        i <= first_match(hs, name, i) <= hs.len(),
    decreases hs.len() - i,
{
    if i < hs.len() && !eq_ignore_case(hs[i].0, name) {
        lemma_first_match_bounds(hs, name, i + 1);
    }
}

/// The position of the first header named `name` up to ASCII case.
pub fn find_header(headers: &Vec<HttpHeader>, name: &Vec<char>) -> (r: Option<usize>)
    ensures
        ({
            let hs = headers@.map_values(|h: HttpHeader| h@);
            let k = first_match(hs, name@, 0);
            &&& r matches Some(i) ==> i == k && i < headers.len()
            &&& r is None ==> k == hs.len()
        }),
{
    let ghost hs = headers@.map_values(|h: HttpHeader| h@);
    let mut i: usize = 0;
    while i < headers.len()
        invariant
            i <= headers.len(),
            hs == headers@.map_values(|h: HttpHeader| h@),
            first_match(hs, name@, 0) == first_match(hs, name@, i as int),
        decreases headers.len() - i,
    {
        let v = chars_of(headers[i].name.as_str());
        let n = v.len();
        assert(v@.subrange(0, n as int) =~= v@);
        if range_eq_ignore_case(&v, 0, n, name) {
            return Some(i);
        }
        i = i + 1;
    }
    None
}

/// The characters after the last `/` of `path`.
fn last_segment_of(path: &str) -> (r: &str)
    ensures
        r@ == last_segment(path@),
{
    let v = chars_of(path);
    let n = v.len();
    proof {
        crate::text::lemma_rfind_before_bounds(v@, '/', n as int);
    }
    match rfind_char(&v, '/', n) {
        Some(k) => path.substring_char(k + 1, n),
        None => path.substring_char(0, n),
    }
}

pub fn gen_root_response() -> (r: HttpResponse)
    ensures
        r@ == root_model(),
{
    match HttpResponseBuilder::new(HttpStatusCode::Okay).build() {
        Ok(r) => r,
        Err(_) => vstd::pervasive::unreached(),
    }
}

/// A 200 response whose body is the UTF-8 form of `text`.
pub fn text_response(text: &str) -> (r: HttpResponse)
    ensures
        r@ == text_model(text@),
{
    match HttpResponseBuilder::new(HttpStatusCode::Okay).body(text.as_bytes_vec()).build() {
        Ok(r) => r,
        Err(_) => vstd::pervasive::unreached(),
    }
}

/// The echo answer for a client that accepts gzip, given the compressed value.
pub fn gzip_echo_response(compressed: Vec<u8>) -> (r: HttpResponse)
    ensures
        r@ == gzip_model(compressed@),
{
    match HttpResponseBuilder::new(HttpStatusCode::Okay).content_encoding("gzip").body(
        compressed,
    ).build() {
        Ok(r) => r,
        Err(_) => vstd::pervasive::unreached(),
    }
}

/// The echo route: the last path segment, gzip-encoded where the client accepts it.
pub fn gen_echo_response(request: &HttpRequest) -> (r: Result<HttpResponse, RouteError>)
    ensures
        r matches Ok(resp) ==> resp@ == echo_model(request@),
        r is Err ==> gzip_requested(request@.headers),
        !gzip_requested(request@.headers) ==> r is Ok,
        gzip_requested(request@.headers) ==> (r is Err <==> gzip_fails(
            encode_utf8(last_segment(request@.request_path)),
        )),
{
    let value = last_segment_of(request.request_path.as_str());
    let accepts_gzip = match find_header(&request.headers, &accept_encoding_chars()) {
        Some(i) => {
            let v = chars_of(request.headers[i].value.as_str());
            let n = v.len();
            assert(v@.subrange(0, n as int) =~= v@);
            range_contains_ignore_case(&v, 0, n, &vec!['g', 'z', 'i', 'p'])
        },
        None => false,
    };
    if accepts_gzip {
        match gzip_string(value) {
            Some(compressed) => Ok(gzip_echo_response(compressed)),
            None => Err(RouteError::CompressionFailed),
        }
    } else {
        Ok(text_response(value))
    }
}

fn accept_encoding_chars() -> (r: Vec<char>)
    ensures
        r@ == accept_encoding_name(),
{
    vec!['a', 'c', 'c', 'e', 'p', 't', '-', 'e', 'n', 'c', 'o', 'd', 'i', 'n', 'g']
}

/// The user-agent route: the value of the first User-Agent header, or 404.
pub fn gen_user_agent_response(request: &HttpRequest) -> (r: HttpResponse)
    ensures
        r@ == user_agent_model(request@),
{
    let name = vec!['u', 's', 'e', 'r', '-', 'a', 'g', 'e', 'n', 't'];
    match find_header(&request.headers, &name) {
        Some(i) => text_response(request.headers[i].value.as_str()),
        None => HttpResponse::not_found(),
    }
}

/// The answer on the files route once the file was read: its bytes, or 404
/// where it could not be read.
pub fn file_response(content: Option<Vec<u8>>) -> (r: HttpResponse)
    ensures
        r@ == match content {
            Some(c) => file_model(c@),
            None => not_found_model(),
        },
{
    match content {
        Some(c) => match HttpResponseBuilder::new(HttpStatusCode::Okay).content_type(
            "application/octet-stream",
        ).body(c).build() {
            Ok(r) => r,
            Err(_) => vstd::pervasive::unreached(),
        },
        None => HttpResponse::not_found(),
    }
}

/// The answer on the files route once the file was written.
pub fn file_written_response() -> (r: HttpResponse)
    ensures
        r@ == created_model(),
{
    match HttpResponseBuilder::new(HttpStatusCode::Created).build() {
        Ok(r) => r,
        Err(_) => vstd::pervasive::unreached(),
    }
}

/// The files route: what is to be read or written, or 404 for other methods.
pub fn gen_files_response(request: &HttpRequest) -> (r: Dispatch)
    ensures
        r@ == files_model(request@),
{
    let name = last_segment_of(request.request_path.as_str());
    match request.request_type {
        HttpRequestType::Get => Dispatch::ReadFile(name.to_owned()),
        HttpRequestType::Post => {
            let contents = match &request.body {
                Some(b) => b.as_str().as_bytes_vec(),
                None => Vec::new(),
            };
            Dispatch::WriteFile(name.to_owned(), contents)
        },
        _ => Dispatch::Respond(HttpResponse::not_found()),
    }
}

/// Picks the route for a request and what is to be done for it.
pub fn generate_response(request: &HttpRequest) -> (r: Result<Dispatch, RouteError>)
    ensures
        r matches Ok(d) ==> d@ == dispatch_model(request@),
        r is Err ==> route_of(request@.request_path) == Route::Echo && gzip_requested(
            request@.headers,
        ),
        !(route_of(request@.request_path) == Route::Echo && gzip_requested(request@.headers))
            ==> r is Ok,
        route_of(request@.request_path) == Route::Echo && gzip_requested(request@.headers) ==> (r is Err
            <==> gzip_fails(encode_utf8(last_segment(request@.request_path)))),
{
    let path = chars_of(request.request_path.as_str());
    let root = vec!['/'];
    assert(root@ =~= seq!['/']);
    if equals_chars(&path, &root) {
        Ok(Dispatch::Respond(gen_root_response()))
    } else if starts_with_chars(&path, &vec!['/', 'e', 'c', 'h', 'o']) {
        match gen_echo_response(request) {
            Ok(resp) => Ok(Dispatch::Respond(resp)),
            Err(e) => Err(e),
        }
    } else if equals_chars(&path, &vec!['/', 'u', 's', 'e', 'r', '-', 'a', 'g', 'e', 'n', 't']) {
        Ok(Dispatch::Respond(gen_user_agent_response(request)))
    } else if starts_with_chars(&path, &vec!['/', 'f', 'i', 'l', 'e', 's']) {
        Ok(gen_files_response(request))
    } else {
        Ok(Dispatch::Respond(HttpResponse::not_found()))
    }
}

} // verus!
