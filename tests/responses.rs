use http_server_starter_rust::http_header::HttpHeader;
use http_server_starter_rust::http_response::{
    BuildError, HttpResponse, HttpResponseBuilder, HttpStatusCode,
};

fn header_pairs(resp: &HttpResponse) -> Vec<(String, String)> {
    resp.headers.iter().map(|h| (h.name.clone(), h.value.clone())).collect()
}

#[test]
fn builder_without_status_fails() {
    let r = HttpResponseBuilder::default().body(vec![1, 2, 3]).build();
    assert!(matches!(r, Err(BuildError::MissingStatus)));
}

#[test]
fn builder_status_can_be_set_later() {
    let r = HttpResponseBuilder::default().status_code(HttpStatusCode::Created).build();
    match r {
        Ok(resp) => {
            assert_eq!(resp.status_code.code, 201);
            assert_eq!(resp.status_code.description, "Created");
        }
        Err(e) => panic!("unexpected {:?}", e),
    }
}

#[test]
fn empty_body_has_no_content_headers() {
    let resp = HttpResponseBuilder::new(HttpStatusCode::Okay)
        .content_type("text/html")
        .content_encoding("gzip")
        .build()
        .unwrap();
    assert!(resp.headers.is_empty());
    assert!(resp.body.is_empty());
    assert_eq!(resp.version, "HTTP/1.1");
}

#[test]
fn content_headers_in_order() {
    let body: Vec<u8> = vec![b'x'; 1234];
    let resp = HttpResponseBuilder::new(HttpStatusCode::Okay)
        .content_encoding("gzip")
        .body(body)
        .build()
        .unwrap();
    assert_eq!(
        header_pairs(&resp),
        vec![
            ("Content-Encoding".to_string(), "gzip".to_string()),
            ("Content-Type".to_string(), "text/plain".to_string()),
            ("Content-Length".to_string(), "1234".to_string()),
        ]
    );
}

#[test]
fn not_found_is_empty_404() {
    let resp = HttpResponse::not_found();
    assert_eq!(resp.status_code.code, 404);
    assert_eq!(resp.status_code.description, "Not Found");
    assert!(resp.headers.is_empty());
    assert_eq!(resp.output(), b"HTTP/1.1 404 Not Found\r\n\r\n".to_vec());
}

#[test]
fn output_writes_status_headers_and_raw_body() {
    let resp = HttpResponseBuilder::new(HttpStatusCode::Okay)
        .content_type("application/octet-stream")
        .body(vec![0, 159, 146, 150])
        .build()
        .unwrap();
    let mut expected: Vec<u8> =
        b"HTTP/1.1 200 OK\r\nContent-Type: application/octet-stream\r\nContent-Length: 4\r\n\r\n"
            .to_vec();
    expected.extend_from_slice(&[0, 159, 146, 150]);
    assert_eq!(resp.output(), expected);
}

#[test]
fn header_output_joins_name_and_value() {
    let h = HttpHeader::new("Content-Type", "text/plain");
    assert_eq!(h.output(), "Content-Type: text/plain");
}

#[test]
fn status_codes_map_to_reason_phrases() {
    let s = HttpStatusCode::Okay.status();
    assert_eq!((s.code, s.description), (200, "OK"));
    let s = HttpStatusCode::NotFound.status();
    assert_eq!((s.code, s.description), (404, "Not Found"));
}

#[test]
fn content_length_is_decimal_byte_count() {
    for (len, text) in [(1usize, "1"), (9, "9"), (10, "10"), (100, "100"), (4096, "4096")] {
        let resp = HttpResponseBuilder::new(HttpStatusCode::Okay).body(vec![7u8; len]).build().unwrap();
        let pairs = header_pairs(&resp);
        assert_eq!(pairs.last(), Some(&("Content-Length".to_string(), text.to_string())));
    }
}
