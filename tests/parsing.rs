use http_server_starter_rust::http_request::{HttpRequest, HttpRequestType, ParseError};

fn parse(text: &str) -> HttpRequest {
    match HttpRequest::from_str(text) {
        Ok(r) => r,
        Err(e) => panic!("unexpected parse error {:?}", e),
    }
}

#[test]
fn parses_each_supported_method_and_path() {
    let cases = [
        ("GET", HttpRequestType::Get),
        ("PUT", HttpRequestType::Put),
        ("POST", HttpRequestType::Post),
        ("DELETE", HttpRequestType::Delete),
        ("PATCH", HttpRequestType::Patch),
    ];
    for (token, expected) in cases {
        let text = format!("{} /some/path HTTP/1.1\r\nHost: localhost\r\n\r\nhello", token);
        let req = parse(&text);
        assert_eq!(req.request_type, expected);
        assert_eq!(req.request_path, "/some/path");
    }
}

#[test]
fn method_token_is_case_insensitive() {
    let req = parse("pOsT /x HTTP/1.1\r\n\r\n");
    assert_eq!(req.request_type, HttpRequestType::Post);
    assert_eq!(HttpRequestType::from_str("delete"), Ok(HttpRequestType::Delete));
    assert_eq!(HttpRequestType::from_str("HEAD"), Err(ParseError::UnsupportedMethod));
}

#[test]
fn headers_are_split_on_first_colon_and_trimmed() {
    let req = parse("GET / HTTP/1.1\r\nHost:  localhost:4221 \r\nUser-Agent: curl/7.64.1\r\nNoColon\r\n\r\n");
    assert_eq!(req.headers.len(), 3);
    assert_eq!(req.headers[0].name, "Host");
    assert_eq!(req.headers[0].value, "localhost:4221");
    assert_eq!(req.headers[1].name, "User-Agent");
    assert_eq!(req.headers[1].value, "curl/7.64.1");
    assert_eq!(req.headers[2].name, "NoColon");
    assert_eq!(req.headers[2].value, "NoColon");
}

#[test]
fn body_follows_blank_line_and_is_trimmed() {
    let req = parse("POST /files/a HTTP/1.1\r\nContent-Length: 7\r\n\r\n  payload \r\n");
    assert_eq!(req.body.as_deref(), Some("payload"));
    let empty = parse("GET / HTTP/1.1\r\n\r\n");
    assert_eq!(empty.body.as_deref(), Some(""));
    assert!(empty.headers.is_empty());
}

#[test]
fn missing_separator_is_malformed() {
    assert!(matches!(
        HttpRequest::from_str("GET / HTTP/1.1\r\nHost: x\r\n"),
        Err(ParseError::MalformedRequest)
    ));
    assert!(matches!(HttpRequest::from_str(""), Err(ParseError::MalformedRequest)));
}

#[test]
fn unknown_method_is_unsupported() {
    assert!(matches!(
        HttpRequest::from_str("BREW /pot HTTP/1.1\r\n\r\n"),
        Err(ParseError::UnsupportedMethod)
    ));
}

#[test]
fn missing_path_is_malformed() {
    assert!(matches!(
        HttpRequest::from_str("GET\n\r\n\r\n"),
        Err(ParseError::MalformedRequest)
    ));
    // Without a space the carriage return stays on the method token.
    assert!(matches!(
        HttpRequest::from_str("GET\r\n\r\n"),
        Err(ParseError::UnsupportedMethod)
    ));
}

#[test]
fn non_utf8_bytes_are_malformed() {
    let bytes: Vec<u8> = vec![b'G', b'E', b'T', b' ', b'/', 0xff, b'\r', b'\n', b'\r', b'\n'];
    assert!(matches!(HttpRequest::from_bytes(&bytes), Err(ParseError::MalformedRequest)));
    let ok = HttpRequest::from_bytes(b"GET /echo/hi HTTP/1.1\r\n\r\n");
    match ok {
        Ok(req) => assert_eq!(req.request_path, "/echo/hi"),
        Err(e) => panic!("unexpected parse error {:?}", e),
    }
}
