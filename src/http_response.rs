//! Responses, their staged construction, and their wire form.
use vstd::prelude::*;
use vstd::string::StringExecFns;
use vstd::string::StrSliceExecFns;
use vstd::utf8::encode_utf8;

use crate::http_header::{header_line, headers_view, HttpHeader};
use crate::text::{decimal, decimal_string};

verus! {

/// A status code with its fixed reason phrase.
#[derive(Debug)]
pub struct HttpStatus {
    pub code: u16,
    pub description: &'static str,
}

/// The statuses this server answers with.
#[derive(Clone, Copy, Debug, PartialEq, Eq, Structural)]
pub enum HttpStatusCode {
    Okay,
    Created,
    NotFound,
}

/// The numeric code of a status.
pub open spec fn code_of(s: HttpStatusCode) -> u16 {
    match s {
        HttpStatusCode::Okay => 200,
        HttpStatusCode::Created => 201,
        HttpStatusCode::NotFound => 404,
    }
}

/// The reason phrase of a status.
pub open spec fn reason_of(s: HttpStatusCode) -> Seq<char> {
    match s {
        HttpStatusCode::Okay => "OK"@,
        HttpStatusCode::Created => "Created"@,
        HttpStatusCode::NotFound => "Not Found"@,
    }
}

impl HttpStatusCode {
    pub fn status(&self) -> (r: HttpStatus)
        ensures
            r.code == code_of(*self),
            r.description@ == reason_of(*self),
    {
        match self {
            HttpStatusCode::Okay => HttpStatus { code: 200, description: "OK" },
            HttpStatusCode::Created => HttpStatus { code: 201, description: "Created" },
            HttpStatusCode::NotFound => HttpStatus { code: 404, description: "Not Found" },
        }
    }
}

/// Why a builder could not produce a response.
#[derive(Clone, Copy, Debug, PartialEq, Eq, Structural)]
pub enum BuildError {
    MissingStatus,
}

/// What a response is: every part as a plain value.
pub struct ResponseModel {
    pub version: Seq<char>,
    pub code: u16,
    pub reason: Seq<char>,
    pub headers: Seq<(Seq<char>, Seq<char>)>,
    pub body: Seq<u8>,
}

/// A complete response.
#[derive(Debug)]
pub struct HttpResponse {
    pub version: String,
    pub status_code: HttpStatus,
    pub headers: Vec<HttpHeader>,
    pub body: Vec<u8>,
}

impl View for HttpResponse {
    type V = ResponseModel;

    open spec fn view(&self) -> ResponseModel {
        ResponseModel {
            version: self.version@,
            code: self.status_code.code,
            reason: self.status_code.description@,
            headers: headers_view(self.headers@),
            body: self.body@,
        }
    }
}

/// The characters of an optional string.
pub open spec fn opt_chars(o: Option<String>) -> Option<Seq<char>> {
    match o {
        Some(s) => Some(s@),
        None => None,
    }
}

/// The version written when none was given.
pub open spec fn default_version() -> Seq<char> {
    "HTTP/1.1"@
}

/// The content type written when none was given.
pub open spec fn default_content_type() -> Seq<char> {
    "text/plain"@
}

/// The headers that describe a body: none for an empty body; otherwise the
/// encoding, if one was given, then the type and the length in bytes.
pub open spec fn content_headers(
    content_type: Option<Seq<char>>,
    encoding: Option<Seq<char>>,
    body: Seq<u8>,
) -> Seq<(Seq<char>, Seq<char>)> {
    if body.len() == 0 {
        seq![]
    } else {
        let enc: Seq<(Seq<char>, Seq<char>)> = match encoding {
            Some(e) => seq![("Content-Encoding"@, e)],
            None => seq![],
        };
        enc + seq![
            ("Content-Type"@, content_type.unwrap_or(default_content_type())),
            ("Content-Length"@, decimal(body.len())),
        ]
    }
}

/// The response that a builder with these parts produces.
pub open spec fn assembled(
    status: HttpStatusCode,
    version: Option<Seq<char>>,
    content_type: Option<Seq<char>>,
    encoding: Option<Seq<char>>,
    body: Seq<u8>,
) -> ResponseModel {
    ResponseModel {
        version: version.unwrap_or(default_version()),
        code: code_of(status),
        reason: reason_of(status),
        headers: content_headers(content_type, encoding, body),
        body,
    }
}

/// The header block after the status line: each header on a line of its own.
pub open spec fn header_block(hs: Seq<(Seq<char>, Seq<char>)>) -> Seq<char>
    decreases hs.len(),
{
    if hs.len() == 0 {
        seq![]
    } else {
        header_block(hs.drop_last()) + "\r\n"@ + header_line(hs.last())
    }
}

/// The text of a response before its body: the status line, the headers, and the blank line.
pub open spec fn head_text(m: ResponseModel) -> Seq<char> {
    m.version + " "@ + decimal(m.code as nat) + " "@ + m.reason + header_block(m.headers)
        + "\r\n\r\n"@
}

/// The bytes of a response on the wire.
pub open spec fn wire_bytes(m: ResponseModel) -> Seq<u8> {
    encode_utf8(head_text(m)) + m.body
}

impl HttpResponse {
    pub fn not_found() -> (r: HttpResponse)
        ensures
            r@ == assembled(HttpStatusCode::NotFound, None, None, None, seq![]),
    {
        match HttpResponseBuilder::new(HttpStatusCode::NotFound).build() {
            Ok(r) => r,
            Err(_) => vstd::pervasive::unreached(),
        }
    }

    /// The response as bytes to be written to the connection.
    pub fn output(self) -> (r: Vec<u8>)
        ensures
            r@ == wire_bytes(self@),
    {
        let ghost m = self@;
        let mut text = self.version;
        text.append(" ");
        let code = decimal_string(self.status_code.code as usize);
        text.append(code.as_str());
        text.append(" ");
        text.append(self.status_code.description);
        let ghost start = text@;
        let mut i: usize = 0;
        while i < self.headers.len()
            invariant
                i <= self.headers.len(),
                m.headers == headers_view(self.headers@),
                text@ == start + header_block(m.headers.take(i as int)),
            decreases self.headers.len() - i,
        {
            text.append("\r\n");
            text.append(self.headers[i].name.as_str());
            text.append(": ");
            text.append(self.headers[i].value.as_str());
            assert(m.headers.take(i + 1).drop_last() =~= m.headers.take(i as int));
            i = i + 1;
        }
        assert(m.headers.take(i as int) =~= m.headers);
        text.append("\r\n\r\n");
        let mut bytes = text.as_str().as_bytes_vec();
        let mut body = self.body;
        bytes.append(&mut body);
        bytes
    }
}

/// Staged construction of a response: the status is required, the rest optional.
pub struct HttpResponseBuilder {
    pub status_code: Option<HttpStatusCode>,
    pub http_version: Option<String>,
    pub content_type: Option<String>,
    pub content_encoding: Option<String>,
    pub body: Option<Vec<u8>>,
}

/// The body a builder holds, empty where none was given.
pub open spec fn body_or_empty(b: Option<Vec<u8>>) -> Seq<u8> {
    match b {
        Some(v) => v@,
        None => seq![],
    }
}

impl Default for HttpResponseBuilder {
    /// A builder with nothing set, not even the status.
    fn default() -> (r: Self)
        ensures
            r.status_code is None,
            r.http_version is None,
            r.content_type is None,
            r.content_encoding is None,
            r.body is None,
    {
        HttpResponseBuilder {
            status_code: None,
            http_version: None,
            content_type: None,
            content_encoding: None,
            body: None,
        }
    }
}

impl HttpResponseBuilder {
    pub fn new(http_status_code: HttpStatusCode) -> (r: Self)
        ensures
            r.status_code == Some(http_status_code),
            r.http_version is None,
            r.content_type is None,
            r.content_encoding is None,
            r.body is None,
    {
        HttpResponseBuilder {
            status_code: Some(http_status_code),
            http_version: None,
            content_type: None,
            content_encoding: None,
            body: None,
        }
    }

    pub fn status_code(self, status_code: HttpStatusCode) -> (r: Self)
        ensures
            r.status_code == Some(status_code),
            r.http_version == self.http_version,
            r.content_type == self.content_type,
            r.content_encoding == self.content_encoding,
            r.body == self.body,
    {
        HttpResponseBuilder { status_code: Some(status_code), ..self }
    }

    pub fn content_type(self, content_type: &str) -> (r: Self)
        ensures
            opt_chars(r.content_type) == Some(content_type@),
            r.status_code == self.status_code,
            r.http_version == self.http_version,
            r.content_encoding == self.content_encoding,
            r.body == self.body,
    {
        HttpResponseBuilder { content_type: Some(String::from_str(content_type)), ..self }
    }

    pub fn content_encoding(self, content_encoding: &str) -> (r: Self)
        ensures
            opt_chars(r.content_encoding) == Some(content_encoding@),
            r.status_code == self.status_code,
            r.http_version == self.http_version,
            r.content_type == self.content_type,
            r.body == self.body,
    {
        HttpResponseBuilder {
            content_encoding: Some(String::from_str(content_encoding)),
            ..self
        }
    }

    pub fn body(self, body: Vec<u8>) -> (r: Self)
        ensures
            r.body == Some(body),
            r.status_code == self.status_code,
            r.http_version == self.http_version,
            r.content_type == self.content_type,
            r.content_encoding == self.content_encoding,
    {
        HttpResponseBuilder { body: Some(body), ..self }
    }

    /// Freezes the builder. The content headers are decided here, from the body alone.
    pub fn build(self) -> (r: Result<HttpResponse, BuildError>)
        ensures
            self.status_code is None ==> r == Err::<HttpResponse, BuildError>(
                BuildError::MissingStatus,
            ),
            self.status_code matches Some(s) ==> r matches Ok(resp) && resp@ == assembled(
                s,
                opt_chars(self.http_version),
                opt_chars(self.content_type),
                opt_chars(self.content_encoding),
                body_or_empty(self.body),
            ),
    {
        let status = match self.status_code {
            Some(s) => s,
            None => {
                return Err(BuildError::MissingStatus);
            },
        };
        let body = match self.body {
            Some(b) => b,
            None => Vec::new(),
        };
        let mut headers: Vec<HttpHeader> = Vec::new();
        if body.len() > 0 {
            match self.content_encoding {
                Some(e) => {
                    headers.push(HttpHeader::new("Content-Encoding", e.as_str()));
                },
                None => {},
            }
            let content_type = match self.content_type {
                Some(t) => t,
                None => String::from_str("text/plain"),
            };
            headers.push(HttpHeader::new("Content-Type", content_type.as_str()));
            let length = decimal_string(body.len());
            headers.push(HttpHeader::new("Content-Length", length.as_str()));
        }
        let version = match self.http_version {
            Some(v) => v,
            None => String::from_str("HTTP/1.1"),
        };
        let resp = HttpResponse { version, status_code: status.status(), headers, body };
        assert(headers_view(resp.headers@) =~= content_headers(
            opt_chars(self.content_type),
            opt_chars(self.content_encoding),
            body_or_empty(self.body),
        ));
        Ok(resp)
    }
}

} // verus!
