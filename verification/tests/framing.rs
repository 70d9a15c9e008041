use kzon_httpd::framer::{is_double_crnl, is_request_complete};

#[test]
fn double_crnl_detects_terminator() {
    assert!(is_double_crnl(b"\r\n\r\n"));
    assert!(is_double_crnl(b"\r\n\r\nmore"));
    assert!(!is_double_crnl(b"\r\n\r"));
    assert!(!is_double_crnl(b"ab\r\n"));
    assert!(!is_double_crnl(b""));
}

#[test]
fn incomplete_request_is_not_framed() {
    assert!(!is_request_complete(b""));
    assert!(!is_request_complete(b"GET / HTTP/1.1"));
    assert!(!is_request_complete(b"GET / HTTP/1.1\r\n"));
    assert!(!is_request_complete(b"\r\n\r"));
}

#[test]
fn terminator_anywhere_frames_the_request() {
    assert!(is_request_complete(b"\r\n\r\n"));
    assert!(is_request_complete(b"GET / HTTP/1.1\r\n\r\n"));
    assert!(is_request_complete(b"GET / HTTP/1.1\r\n\r\ntrailing"));
    assert!(is_request_complete(b"a\r\n\r\nb"));
}

#[test]
fn framing_is_stable_under_appends() {
    let mut buf: Vec<u8> = b"GET / HTTP/1.0\r\n\r\n".to_vec();
    assert!(is_request_complete(&buf));
    buf.extend_from_slice(b"GET /next HTTP/1.0");
    assert!(is_request_complete(&buf));
}
