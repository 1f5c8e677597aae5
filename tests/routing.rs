use std::io::Read;

use http_server_starter_rust::compressor::gzip_string;
use http_server_starter_rust::http_request::HttpRequest;
use http_server_starter_rust::http_response::HttpResponse;
use http_server_starter_rust::router::{
    file_response, file_written_response, gen_echo_response, generate_response, Dispatch,
};

fn request(text: &str) -> HttpRequest {
    HttpRequest::from_str(text).unwrap()
}

fn respond(text: &str) -> HttpResponse {
    match generate_response(&request(text)) {
        Ok(Dispatch::Respond(r)) => r,
        other => panic!("expected a response, got {:?}", other),
    }
}

fn header<'a>(resp: &'a HttpResponse, name: &str) -> Option<&'a str> {
    resp.headers.iter().find(|h| h.name == name).map(|h| h.value.as_str())
}

fn gunzip(bytes: &[u8]) -> Vec<u8> {
    let mut out = Vec::new();
    flate2::read::GzDecoder::new(bytes).read_to_end(&mut out).unwrap();
    out
}

#[test]
fn root_is_empty_200() {
    let resp = respond("GET / HTTP/1.1\r\n\r\n");
    assert_eq!(resp.status_code.code, 200);
    assert!(resp.body.is_empty());
    assert!(resp.headers.is_empty());
    assert_eq!(resp.output(), b"HTTP/1.1 200 OK\r\n\r\n".to_vec());
}

#[test]
fn echo_without_accept_encoding() {
    let resp = respond("GET /echo/xyz HTTP/1.1\r\nHost: localhost\r\n\r\n");
    assert_eq!(resp.status_code.code, 200);
    assert_eq!(resp.body, b"xyz".to_vec());
    assert_eq!(header(&resp, "Content-Length"), Some("3"));
    assert_eq!(header(&resp, "Content-Type"), Some("text/plain"));
    assert_eq!(header(&resp, "Content-Encoding"), None);
}

#[test]
fn echo_with_gzip_round_trips() {
    let resp = respond("GET /echo/xyz HTTP/1.1\r\nAccept-Encoding: gzip\r\n\r\n");
    assert_eq!(resp.status_code.code, 200);
    assert_eq!(header(&resp, "Content-Encoding"), Some("gzip"));
    assert_ne!(resp.body, b"xyz".to_vec());
    assert_eq!(gunzip(&resp.body), b"xyz".to_vec());
    let len = resp.body.len().to_string();
    assert_eq!(header(&resp, "Content-Length"), Some(len.as_str()));
}

#[test]
fn echo_gzip_is_found_among_other_encodings_in_any_case() {
    let resp = respond("GET /echo/abc HTTP/1.1\r\naccept-encoding: deflate, GZIP\r\n\r\n");
    assert_eq!(header(&resp, "Content-Encoding"), Some("gzip"));
    assert_eq!(gunzip(&resp.body), b"abc".to_vec());
    let plain = respond("GET /echo/abc HTTP/1.1\r\nAccept-Encoding: invalid-encoding\r\n\r\n");
    assert_eq!(header(&plain, "Content-Encoding"), None);
    assert_eq!(plain.body, b"abc".to_vec());
}

#[test]
fn gzip_round_trip_on_several_inputs() {
    for input in ["", "a", "hello world", "ünïcödé", &"z".repeat(5000)] {
        let compressed = gzip_string(input).unwrap();
        assert_eq!(&compressed[..2], &[0x1f, 0x8b]);
        assert_eq!(gunzip(&compressed), input.as_bytes().to_vec());
    }
}

#[test]
fn echo_response_function_directly() {
    let resp = gen_echo_response(&request("GET /echo/a/b/last HTTP/1.1\r\n\r\n")).unwrap();
    assert_eq!(resp.body, b"last".to_vec());
}

#[test]
fn user_agent_header_name_case_does_not_matter() {
    let a = respond("GET /user-agent HTTP/1.1\r\nUser-Agent: foo\r\n\r\n");
    let b = respond("GET /user-agent HTTP/1.1\r\nUSER-AGENT: foo\r\n\r\n");
    assert_eq!(a.body, b"foo".to_vec());
    assert_eq!(a.output(), b.output());
}

#[test]
fn user_agent_missing_is_404() {
    let resp = respond("GET /user-agent HTTP/1.1\r\nHost: x\r\n\r\n");
    assert_eq!(resp.status_code.code, 404);
    assert!(resp.body.is_empty());
}

#[test]
fn files_get_reads_last_segment() {
    match generate_response(&request("GET /files/report.txt HTTP/1.1\r\n\r\n")) {
        Ok(Dispatch::ReadFile(name)) => assert_eq!(name, "report.txt"),
        other => panic!("expected a read, got {:?}", other),
    }
    let found = file_response(Some(b"on disk\x00bytes".to_vec()));
    assert_eq!(found.status_code.code, 200);
    assert_eq!(found.body, b"on disk\x00bytes".to_vec());
    assert_eq!(header(&found, "Content-Type"), Some("application/octet-stream"));
    let missing = file_response(None);
    assert_eq!(missing.status_code.code, 404);
    assert!(missing.body.is_empty());
}

#[test]
fn files_post_then_get_round_trip() {
    let post = request("POST /files/new.txt HTTP/1.1\r\nContent-Length: 5\r\n\r\nB-DAT");
    let written = match generate_response(&post) {
        Ok(Dispatch::WriteFile(name, contents)) => {
            assert_eq!(name, "new.txt");
            contents
        }
        other => panic!("expected a write, got {:?}", other),
    };
    assert_eq!(written, b"B-DAT".to_vec());
    let created = file_written_response();
    assert_eq!(created.status_code.code, 201);
    assert!(created.headers.is_empty());
    assert_eq!(created.output(), b"HTTP/1.1 201 Created\r\n\r\n".to_vec());
    match generate_response(&request("GET /files/new.txt HTTP/1.1\r\n\r\n")) {
        Ok(Dispatch::ReadFile(name)) => assert_eq!(name, "new.txt"),
        other => panic!("expected a read, got {:?}", other),
    }
    assert_eq!(file_response(Some(written.clone())).body, written);
}

#[test]
fn files_other_methods_are_404() {
    let resp = respond("DELETE /files/new.txt HTTP/1.1\r\n\r\n");
    assert_eq!(resp.status_code.code, 404);
}

#[test]
fn unmatched_paths_are_empty_404() {
    for path in ["/nothing", "/user-agents", "/ech", "/FILES/x", ""] {
        let text = format!("GET {} HTTP/1.1\r\n\r\n", path);
        let resp = respond(&text);
        assert_eq!(resp.status_code.code, 404);
        assert!(resp.body.is_empty());
        assert!(resp.headers.is_empty());
    }
}
