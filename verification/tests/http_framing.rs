use tapo_proto::http::{
    content_length, find_subslice, head_end, parse_head, parse_response, request_head, split_host_port,
};
use tapo_proto::TapoError;

#[test]
fn response_without_blank_line_is_invalid() {
    match parse_response(b"HTTP/1.1 200 OK\r\nContent-Length: 0\r\n") {
        Err(TapoError::InvalidPayload) => {}
        other => panic!("unexpected {:?}", other.err()),
    }
}

#[test]
fn response_without_numeric_status_is_invalid() {
    for raw in [&b"HTTP/1.1\r\n\r\n"[..], b"HTTP/1.1 abc OK\r\n\r\n", b"\r\n\r\nbody", b"HTTP/1.1 70000 X\r\n\r\n"] {
        match parse_response(raw) {
            Err(TapoError::InvalidPayload) => {}
            other => panic!("unexpected {:?}", other.err()),
        }
    }
}

#[test]
fn status_is_second_token_and_may_carry_plus() {
    let r = parse_response(b"  HTTP/1.1   +403\tForbidden\r\n\r\n").unwrap();
    assert_eq!(r.status, 403);
    assert!(r.set_cookie.is_none());
    assert!(r.body.is_empty());
}

#[test]
fn last_session_cookie_wins_and_others_are_ignored() {
    let raw = b"HTTP/1.1 200 OK\r\nSet-Cookie: TP_SESSIONID=FIRST\r\nset-cookie:  other=1\r\nSET-COOKIE :  TP_SESSIONID=SECOND ; TIMEOUT=5\r\nX: y\r\n\r\n\r\nrest";
    let r = parse_response(raw).unwrap();
    assert_eq!(r.set_cookie.as_deref(), Some("TP_SESSIONID=SECOND "));
    assert_eq!(r.body, b"\r\nrest");
}

#[test]
fn cookie_on_status_line_is_not_read() {
    let r = parse_response(b"HTTP/1.1 200 Set-Cookie: TP_SESSIONID=A\r\n\r\n").unwrap();
    assert!(r.set_cookie.is_none());
}

#[test]
fn invalid_utf8_head_is_decoded_lossily() {
    let raw = b"HTTP/1.1 200 \xff\xfe\r\nSet-Cookie: TP_SESSIONID=\xffZ\r\n\r\n\xff";
    let r = parse_response(raw).unwrap();
    assert_eq!(r.status, 200);
    assert_eq!(r.set_cookie.as_deref(), Some("TP_SESSIONID=\u{fffd}Z"));
    assert_eq!(r.body, b"\xff");
}

#[test]
fn content_length_first_valid_header_wins() {
    assert_eq!(content_length(b"HTTP/1.1 200 OK\r\nContent-Length: 12"), 12);
    assert_eq!(content_length(b"HTTP/1.1 200 OK\r\ncontent-length: abc\r\nCONTENT-LENGTH: 5\r\nContent-Length: 7"), 5);
    assert_eq!(content_length(b"HTTP/1.1 200 OK\r\nServer: SHIP 2.0"), 0);
    assert_eq!(content_length(b"HTTP/1.1 200 OK\r\nContent-Length: 99999999999999999999999"), 0);
    assert_eq!(content_length(b""), 0);
}

#[test]
fn subslice_search() {
    assert_eq!(find_subslice(b"abcabc", b"ca"), Some(2));
    assert_eq!(find_subslice(b"abc", b"abcd"), None);
    assert_eq!(find_subslice(b"aaa", b"aa"), Some(0));
    assert_eq!(head_end(b"x\r\n\r\n\r\n\r\n"), Some(1));
    assert_eq!(head_end(b"x\r\n\r"), None);
}

#[test]
fn host_port_edge_cases() {
    assert_eq!(split_host_port("dev:abc"), ("dev:abc".into(), 80));
    assert_eq!(split_host_port("dev:70000"), ("dev:70000".into(), 80));
    assert_eq!(split_host_port("dev:+81"), ("dev".into(), 81));
    assert_eq!(split_host_port("a:b:9"), ("a:b".into(), 9));
    assert_eq!(split_host_port("dev:"), ("dev:".into(), 80));
}

#[test]
fn request_head_is_title_case() {
    let h = request_head("POST", "10.0.0.2", "/app/handshake1", "application/octet-stream", 16, Some("TP_SESSIONID=A"));
    assert_eq!(
        h,
        "POST /app/handshake1 HTTP/1.1\r\nHost: 10.0.0.2\r\nAccept: */*\r\nUser-Agent: TapoController/0.1\r\nContent-Type: application/octet-stream\r\nContent-Length: 16\r\nConnection: close\r\nCookie: TP_SESSIONID=A\r\n\r\n"
    );
    let g = request_head("GET", "h", "/", "application/octet-stream", 0, None);
    assert_eq!(
        g,
        "GET / HTTP/1.1\r\nHost: h\r\nAccept: */*\r\nUser-Agent: TapoController/0.1\r\nContent-Type: application/octet-stream\r\nContent-Length: 0\r\nConnection: close\r\n\r\n"
    );
}

#[test]
fn head_text_gives_status_and_cookie() {
    let (status, cookie) =
        parse_head("HTTP/1.1 200 OK\r\nSet-Cookie: TP_SESSIONID=X1;TIMEOUT=86400\r\nSet-Cookie: other=1").unwrap();
    assert_eq!(status, 200);
    assert_eq!(cookie.as_deref(), Some("TP_SESSIONID=X1"));
    let (status, cookie) = parse_head("HTTP/1.1 403 Forbidden").unwrap();
    assert_eq!(status, 403);
    assert_eq!(cookie, None);
    assert!(parse_head("HTTP/1.1 OK").is_none());
    assert!(parse_head("HTTP/1.1 70000 Too Big").is_none());
}
