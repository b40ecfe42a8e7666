//! End-to-end protocol scenarios driven through the connection machine.

use http_server_starter_rust::conn::{conn_step, file_read_reply, ConnEvent, ConnState, ConnStep};
use http_server_starter_rust::wire::bytes_contains;

fn reply_of(request: &[u8]) -> (Vec<u8>, bool) {
    let mut st = ConnState::new();
    match conn_step(&mut st, ConnEvent::Bytes(request.to_vec())) {
        ConnStep::Reply { data, close_after } => (data, close_after),
        _ => panic!("expected a reply"),
    }
}

fn body_of(response: &[u8]) -> Vec<u8> {
    let pos = response
        .windows(4)
        .position(|w| w == b"\r\n\r\n")
        .expect("no header terminator in response");
    response[pos + 4..].to_vec()
}

#[test]
fn scenario_echo_abc() {
    let (data, close_after) = reply_of(b"GET /echo/abc HTTP/1.1\r\nHost: x\r\n\r\n");
    assert!(!close_after);
    assert!(data.starts_with(b"HTTP/1.1 200 OK\r\n"));
    assert!(bytes_contains(&data, b"Content-Type: text/plain\r\n"));
    assert!(bytes_contains(&data, b"Content-Length: 3\r\n\r\nabc"));
}

#[test]
fn echo_plain_exact_bytes() {
    let (data, _) = reply_of(b"GET /echo/abc HTTP/1.1\r\nHost: x\r\n\r\n");
    assert_eq!(
        data,
        b"HTTP/1.1 200 OK\r\nContent-Type: text/plain\r\nContent-Length: 3\r\n\r\nabc".to_vec()
    );
}

#[test]
fn unknown_path_gets_404_with_body() {
    let (data, _) = reply_of(b"GET /nothing-here HTTP/1.1\r\nHost: x\r\n\r\n");
    assert!(data.starts_with(b"HTTP/1.1 404 Not Found\r\n"));
    assert!(!body_of(&data).is_empty());
}

#[test]
fn root_gets_empty_200() {
    let (data, close_after) = reply_of(b"GET / HTTP/1.1\r\nHost: x\r\n\r\n");
    assert!(!close_after);
    assert_eq!(data, b"HTTP/1.1 200 OK\r\nContent-Length: 0\r\n\r\n".to_vec());
}

#[test]
fn echo_gzip_decompresses_to_payload() {
    let (data, _) =
        reply_of(b"GET /echo/abc HTTP/1.1\r\nHost: x\r\nAccept-Encoding: gzip\r\n\r\n");
    assert!(data.starts_with(b"HTTP/1.1 200 OK\r\n"));
    assert!(bytes_contains(&data, b"Content-Encoding: gzip\r\n"));
    let body = body_of(&data);
    assert_ne!(body, b"abc".to_vec());
    let mut decoder = flate2::read::GzDecoder::new(&body[..]);
    let mut plain: Vec<u8> = Vec::new();
    std::io::Read::read_to_end(&mut decoder, &mut plain).expect("gzip body must decompress");
    assert_eq!(plain, b"abc".to_vec());
}

#[test]
fn echo_gzip_content_length_matches_body() {
    let (data, _) =
        reply_of(b"GET /echo/hello HTTP/1.1\r\nAccept-Encoding: foo, gzip\r\n\r\n");
    let body = body_of(&data);
    let expected = format!("Content-Length: {}\r\n", body.len());
    assert!(bytes_contains(&data, expected.as_bytes()));
}

#[test]
fn files_post_then_get_round_trips() {
    let raw: Vec<u8> = vec![0u8, 255, 254, 7];
    let mut request = b"POST /files/blob HTTP/1.1\r\nContent-Length: 4\r\n\r\n".to_vec();
    request.extend_from_slice(&raw);
    let mut st = ConnState::new();
    let step = conn_step(&mut st, ConnEvent::Bytes(request));
    let (name, contents, close_after) = match step {
        ConnStep::FileWrite { name, contents, close_after } => (name, contents, close_after),
        _ => panic!("expected a file write"),
    };
    assert_eq!(name, b"blob".to_vec());
    assert_eq!(contents, raw);
    assert!(!close_after);
    let read_back = file_read_reply(Some(contents), false);
    assert!(read_back.starts_with(b"HTTP/1.1 200 OK\r\n"));
    assert!(bytes_contains(&read_back, b"Content-Type: application/octet-stream\r\n"));
    assert_eq!(body_of(&read_back), raw);
}

#[test]
fn files_empty_body_round_trips() {
    let mut st = ConnState::new();
    let step = conn_step(
        &mut st,
        ConnEvent::Bytes(b"POST /files/empty HTTP/1.1\r\nContent-Length: 0\r\n\r\n".to_vec()),
    );
    let contents = match step {
        ConnStep::FileWrite { contents, .. } => contents,
        _ => panic!("expected a file write"),
    };
    assert!(contents.is_empty());
    let read_back = file_read_reply(Some(contents), false);
    assert!(read_back.ends_with(b"Content-Length: 0\r\n\r\n"));
}

#[test]
fn files_get_before_post_is_404() {
    let mut st = ConnState::new();
    let step = conn_step(
        &mut st,
        ConnEvent::Bytes(b"GET /files/unseen HTTP/1.1\r\nHost: x\r\n\r\n".to_vec()),
    );
    let name = match step {
        ConnStep::FileRead { name, .. } => name,
        _ => panic!("expected a file read"),
    };
    assert_eq!(name, b"unseen".to_vec());
    let data = file_read_reply(None, false);
    assert!(data.starts_with(b"HTTP/1.1 404 Not Found\r\n"));
    assert!(bytes_contains(&data, b"File not found"));
}

#[test]
fn connection_close_header_closes_and_is_echoed() {
    let mut st = ConnState::new();
    let step = conn_step(
        &mut st,
        ConnEvent::Bytes(b"GET / HTTP/1.1\r\nConnection: close\r\n\r\n".to_vec()),
    );
    match step {
        ConnStep::Reply { data, close_after } => {
            assert!(close_after);
            assert!(bytes_contains(&data, b"Connection: close\r\n"));
        },
        _ => panic!("expected a reply"),
    }
}

#[test]
fn connection_close_is_case_insensitive() {
    let mut st = ConnState::new();
    let step = conn_step(
        &mut st,
        ConnEvent::Bytes(b"GET / HTTP/1.1\r\nCONNECTION: CLOSE\r\n\r\n".to_vec()),
    );
    match step {
        ConnStep::Reply { close_after, .. } => assert!(close_after),
        _ => panic!("expected a reply"),
    }
}

#[test]
fn close_sticks_for_later_requests() {
    let mut st = ConnState::new();
    let first = conn_step(
        &mut st,
        ConnEvent::Bytes(b"GET / HTTP/1.1\r\nConnection: close\r\n\r\n".to_vec()),
    );
    assert!(matches!(first, ConnStep::Reply { close_after: true, .. }));
    let second = conn_step(&mut st, ConnEvent::Bytes(b"GET / HTTP/1.1\r\n\r\n".to_vec()));
    match second {
        ConnStep::Reply { close_after, .. } => assert!(close_after),
        _ => panic!("expected a reply"),
    }
}

#[test]
fn timeout_closes_without_reply() {
    let mut st = ConnState::new();
    let step = conn_step(&mut st, ConnEvent::TimedOut);
    assert!(matches!(step, ConnStep::Close));
    assert!(st.keep_alive);
    assert!(st.buf.is_empty());
}

#[test]
fn read_failure_closes_without_reply() {
    let mut st = ConnState::new();
    let step = conn_step(&mut st, ConnEvent::Failed);
    assert!(matches!(step, ConnStep::Close));
}

#[test]
fn partial_request_keeps_reading_then_replies() {
    let mut st = ConnState::new();
    let first = conn_step(&mut st, ConnEvent::Bytes(b"GET /echo/hi HT".to_vec()));
    assert!(matches!(first, ConnStep::KeepReading));
    let second = conn_step(&mut st, ConnEvent::Bytes(b"TP/1.1\r\nHost: x\r\n\r\n".to_vec()));
    match second {
        ConnStep::Reply { data, .. } => {
            assert!(data.starts_with(b"HTTP/1.1 200 OK\r\n"));
            assert_eq!(body_of(&data), b"hi".to_vec());
        },
        _ => panic!("expected a reply"),
    }
}

#[test]
fn malformed_request_line_gets_400() {
    let mut st = ConnState::new();
    let step = conn_step(&mut st, ConnEvent::Bytes(b"NONSENSE\r\n\r\n".to_vec()));
    match step {
        ConnStep::Reply { data, close_after } => {
            assert!(data.starts_with(b"HTTP/1.1 400 Bad Request\r\n"));
            assert!(!close_after);
        },
        _ => panic!("expected a reply"),
    }
    assert!(st.buf.is_empty());
}

#[test]
fn unsupported_method_on_files_gets_405() {
    let (data, _) = reply_of(b"DELETE /files/x HTTP/1.1\r\nHost: x\r\n\r\n");
    assert!(data.starts_with(b"HTTP/1.1 405 Method Not Allowed\r\n"));
    assert!(data.ends_with(b"Content-Length: 0\r\n\r\n"));
}

#[test]
fn files_empty_name_gets_400() {
    let (data, _) = reply_of(b"GET /files/ HTTP/1.1\r\nHost: x\r\n\r\n");
    assert!(data.starts_with(b"HTTP/1.1 400 Bad Request\r\n"));
    assert!(bytes_contains(&data, b"File name is required"));
}

#[test]
fn user_agent_is_reflected() {
    let (data, _) = reply_of(b"GET /user-agent HTTP/1.1\r\nUser-Agent: curl/8.0\r\n\r\n");
    assert!(data.starts_with(b"HTTP/1.1 200 OK\r\n"));
    assert_eq!(body_of(&data), b"curl/8.0".to_vec());
}

#[test]
fn user_agent_missing_gets_400() {
    let (data, _) = reply_of(b"GET /user-agent HTTP/1.1\r\nHost: x\r\n\r\n");
    assert!(data.starts_with(b"HTTP/1.1 400 Bad Request\r\n"));
    assert!(bytes_contains(&data, b"User-Agent header not found"));
}

#[test]
fn echo_without_slash_echoes_nothing() {
    let (data, _) = reply_of(b"GET /echo HTTP/1.1\r\nHost: x\r\n\r\n");
    assert!(data.starts_with(b"HTTP/1.1 200 OK\r\n"));
    assert!(data.ends_with(b"Content-Length: 0\r\n\r\n"));
}
