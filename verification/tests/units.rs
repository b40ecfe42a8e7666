//! Unit tests for the parser, the handlers, the response builder, and
//! the byte helpers.

use http_server_starter_rust::request::{
    get_header_value, parse_request, Method, ParseResult, MAX_HEADERS,
};
use http_server_starter_rust::response::Response;
use http_server_starter_rust::routes::{
    echo_handler, file_read_response, file_write_response, files_handler, handle_request,
    user_agent_handler, RouteOutcome,
};
use http_server_starter_rust::conn::file_write_reply;
use http_server_starter_rust::wire::{bytes_contains, bytes_eq_nocase, u64_to_dec};

fn parsed(buf: &[u8]) -> (http_server_starter_rust::request::Request, usize) {
    match parse_request(buf) {
        ParseResult::Complete(req, n) => (req, n),
        _ => panic!("expected a complete parse"),
    }
}

#[test]
fn parse_fills_every_field() {
    let raw = b"POST /files/a.txt HTTP/1.1\r\nHost: localhost\r\nContent-Length: 5\r\n\r\nhello";
    let (req, consumed) = parsed(raw);
    assert_eq!(req.method, Method::Post);
    assert_eq!(req.path, b"/files/a.txt".to_vec());
    assert_eq!(req.headers.len(), 2);
    assert_eq!(req.headers[0].name, b"Host".to_vec());
    assert_eq!(req.headers[0].value, b"localhost".to_vec());
    assert_eq!(req.headers[1].name, b"Content-Length".to_vec());
    assert_eq!(req.headers[1].value, b"5".to_vec());
    assert_eq!(req.body, b"hello".to_vec());
    assert_eq!(consumed, raw.len() - 5);
}

#[test]
fn parse_waits_for_terminator() {
    assert!(matches!(parse_request(b""), ParseResult::Incomplete));
    assert!(matches!(parse_request(b"GET / HTTP/1.1\r\n"), ParseResult::Incomplete));
    assert!(matches!(
        parse_request(b"GET / HTTP/1.1\r\nHost: x\r\n"),
        ParseResult::Incomplete
    ));
}

#[test]
fn parse_rejects_bad_request_lines() {
    assert!(matches!(parse_request(b"GET\r\n\r\n"), ParseResult::Malformed));
    assert!(matches!(parse_request(b"GET /\r\n\r\n"), ParseResult::Malformed));
    assert!(matches!(parse_request(b" / HTTP/1.1\r\n\r\n"), ParseResult::Malformed));
    assert!(matches!(parse_request(b"GET  HTTP/1.1\r\n\r\n"), ParseResult::Malformed));
    assert!(matches!(parse_request(b"GET / \r\n\r\n"), ParseResult::Malformed));
}

#[test]
fn parse_rejects_bad_header_lines() {
    assert!(matches!(
        parse_request(b"GET / HTTP/1.1\r\nno-colon-here\r\n\r\n"),
        ParseResult::Malformed
    ));
    assert!(matches!(
        parse_request(b"GET / HTTP/1.1\r\n: empty-name\r\n\r\n"),
        ParseResult::Malformed
    ));
}

#[test]
fn parse_trims_header_value_whitespace() {
    let (req, _) = parsed(b"GET / HTTP/1.1\r\nX-Pad:   spaced value \t \r\n\r\n");
    assert_eq!(req.headers[0].value, b"spaced value".to_vec());
}

#[test]
fn parse_keeps_duplicate_headers_in_order() {
    let (req, _) = parsed(b"GET / HTTP/1.1\r\nX-K: one\r\nX-K: two\r\n\r\n");
    assert_eq!(req.headers[0].value, b"one".to_vec());
    assert_eq!(req.headers[1].value, b"two".to_vec());
    let v = get_header_value(&req.headers, "x-k").expect("header must be found");
    assert_eq!(v, b"one".to_vec());
}

#[test]
fn parse_bounds_the_header_count() {
    let mut ok = b"GET / HTTP/1.1\r\n".to_vec();
    for i in 0..MAX_HEADERS {
        ok.extend_from_slice(format!("H{}: v\r\n", i).as_bytes());
    }
    ok.extend_from_slice(b"\r\n");
    assert!(matches!(parse_request(&ok), ParseResult::Complete(_, _)));

    let mut too_many = b"GET / HTTP/1.1\r\n".to_vec();
    for i in 0..MAX_HEADERS + 1 {
        too_many.extend_from_slice(format!("H{}: v\r\n", i).as_bytes());
    }
    too_many.extend_from_slice(b"\r\n");
    assert!(matches!(parse_request(&too_many), ParseResult::Malformed));
}

#[test]
fn parse_takes_only_buffered_body_bytes() {
    let (req, _) = parsed(b"POST /files/a HTTP/1.1\r\nContent-Length: 10\r\n\r\nabc");
    assert_eq!(req.body, b"abc".to_vec());
}

#[test]
fn parse_unknown_method_is_other() {
    let (req, _) = parsed(b"DELETE / HTTP/1.1\r\n\r\n");
    assert_eq!(req.method, Method::Other);
}

#[test]
fn header_lookup_is_case_insensitive() {
    let (req, _) = parsed(b"GET / HTTP/1.1\r\nUser-Agent: tester\r\n\r\n");
    assert_eq!(get_header_value(&req.headers, "USER-agent"), Some(b"tester".to_vec()));
    assert_eq!(get_header_value(&req.headers, "absent"), None);
}

#[test]
fn echo_handler_plain_body() {
    let (req, _) = parsed(b"GET /echo/xyz HTTP/1.1\r\nHost: x\r\n\r\n");
    let resp = echo_handler(&req.path, &req.headers).expect("echo must succeed");
    let data = resp.as_bytes();
    assert!(data.ends_with(b"Content-Length: 3\r\n\r\nxyz"));
}

#[test]
fn user_agent_handler_reflects_value() {
    let (req, _) = parsed(b"GET /user-agent HTTP/1.1\r\nuser-agent: a/b c\r\n\r\n");
    let data = user_agent_handler(&req.headers).as_bytes();
    assert!(data.ends_with(b"\r\n\r\na/b c"));
}

#[test]
fn files_handler_routes_by_method() {
    let (get, _) = parsed(b"GET /files/f HTTP/1.1\r\n\r\n");
    match files_handler(&get.path, get.method, &get.body) {
        RouteOutcome::FileRead(name) => assert_eq!(name, b"f".to_vec()),
        _ => panic!("expected a file read"),
    }
    let (post, _) = parsed(b"POST /files/f HTTP/1.1\r\n\r\ndata");
    match files_handler(&post.path, post.method, &post.body) {
        RouteOutcome::FileWrite(name, contents) => {
            assert_eq!(name, b"f".to_vec());
            assert_eq!(contents, b"data".to_vec());
        },
        _ => panic!("expected a file write"),
    }
}

#[test]
fn handle_request_first_match_wins() {
    let (req, _) = parsed(b"GET /echoes HTTP/1.1\r\n\r\n");
    match handle_request(&req).expect("routing must succeed") {
        RouteOutcome::Reply(resp) => {
            let data = resp.as_bytes();
            assert!(data.starts_with(b"HTTP/1.1 200 OK\r\n"));
            assert!(data.ends_with(b"Content-Length: 0\r\n\r\n"));
        },
        _ => panic!("expected a reply"),
    }
}

#[test]
fn file_read_response_distinguishes_found() {
    let found = file_read_response(Some(b"xy".to_vec())).as_bytes();
    assert!(found.starts_with(b"HTTP/1.1 200 OK\r\n"));
    assert!(found.ends_with(b"\r\n\r\nxy"));
    let missing = file_read_response(None).as_bytes();
    assert!(missing.starts_with(b"HTTP/1.1 404 Not Found\r\n"));
}

#[test]
fn file_write_response_distinguishes_success() {
    let created = file_write_response(true).as_bytes();
    assert!(created.starts_with(b"HTTP/1.1 201 Created\r\n"));
    assert!(bytes_contains(&created, b"File created"));
    let failed = file_write_response(false).as_bytes();
    assert!(failed.starts_with(b"HTTP/1.1 500 Internal Server Error\r\n"));
    assert!(bytes_contains(&failed, b"Failed to create file"));
}

#[test]
fn file_write_reply_can_close() {
    let data = file_write_reply(true, true);
    assert!(bytes_contains(&data, b"Connection: close\r\n"));
    let open = file_write_reply(false, false);
    assert!(!bytes_contains(&open, b"Connection: close\r\n"));
}

#[test]
fn response_builder_renders_status_and_headers() {
    let data = Response::new(418, "Short And Stout").as_bytes();
    assert_eq!(data, b"HTTP/1.1 418 Short And Stout\r\n\r\n".to_vec());
    let with_headers = Response::ok()
        .with_content_type("text/plain")
        .with_body(b"four".to_vec())
        .as_bytes();
    assert_eq!(
        with_headers,
        b"HTTP/1.1 200 OK\r\nContent-Type: text/plain\r\nContent-Length: 4\r\n\r\nfour".to_vec()
    );
}

#[test]
fn decimal_rendering_is_exact() {
    assert_eq!(u64_to_dec(0), b"0".to_vec());
    assert_eq!(u64_to_dec(7), b"7".to_vec());
    assert_eq!(u64_to_dec(10), b"10".to_vec());
    assert_eq!(u64_to_dec(409), b"409".to_vec());
    assert_eq!(u64_to_dec(18446744073709551615), b"18446744073709551615".to_vec());
}

#[test]
fn byte_helpers_behave() {
    assert!(bytes_eq_nocase(b"Content-Type", b"cOnTeNt-tYpE"));
    assert!(!bytes_eq_nocase(b"a", b"ab"));
    assert!(bytes_contains(b"gzip, deflate", b"gzip"));
    assert!(bytes_contains(b"xgzip", b"gzip"));
    assert!(!bytes_contains(b"gzi", b"gzip"));
    assert!(bytes_contains(b"anything", b""));
}
