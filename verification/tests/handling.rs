use kzon_httpd::handler::{
    extension_of, file_response, method_allowed, parse_request_line, rejection_response,
    start_request, RequestStart,
};
use kzon_httpd::http::Proto;
use kzon_httpd::resolver::{Resolution, ResolveState};

#[test]
fn request_line_splits_into_tokens() {
    let rl = parse_request_line(b"GET /x.html HTTP/1.1\r\nHost: h\r\n\r\n");
    assert_eq!(rl.method, b"GET");
    assert_eq!(rl.target, b"/x.html");
    assert_eq!(rl.proto, Proto::Http11);
}

#[test]
fn version_token_ends_at_the_line_terminator() {
    let rl = parse_request_line(b"GET / HTTP/1.0\r\n\r\n");
    assert_eq!(rl.proto, Proto::Http10);
    let rl = parse_request_line(b"GET / HTTP/1.1\r\n\r\n");
    assert_eq!(rl.proto, Proto::Http11);
}

#[test]
fn short_request_lines_get_empty_tokens() {
    let rl = parse_request_line(b"GET\r\n\r\n");
    assert_eq!(rl.method, b"GET\r\n\r\n");
    assert_eq!(rl.target, b"");
    assert_eq!(rl.proto, Proto::Http10);
    let rl = parse_request_line(b"GET /x\r\n\r\n");
    assert_eq!(rl.target, b"/x\r\n\r\n");
    assert_eq!(rl.proto, Proto::Http10);
}

#[test]
fn only_get_and_head_are_allowed() {
    assert!(method_allowed(b"GET"));
    assert!(method_allowed(b"HEAD"));
    assert!(!method_allowed(b"POST"));
    assert!(!method_allowed(b"PUT"));
    assert!(!method_allowed(b"get"));
}

#[test]
fn post_is_answered_405_regardless_of_path() {
    for target in ["/exists.html", "/no/such/path"] {
        let req = format!("POST {} HTTP/1.1\r\n\r\n", target).into_bytes();
        match start_request(&req, "/srv/www") {
            RequestStart::Respond(resp) => {
                assert_eq!(resp.proto, Proto::Http11);
                let s = String::from_utf8(resp.data).unwrap();
                assert!(s.starts_with("HTTP/1.1 405 \r\n"));
                assert!(s.ends_with("Content-Length: 0\r\n\r\n"));
            },
            _ => panic!("POST must be answered outright"),
        }
    }
}

#[test]
fn get_starts_a_lookup_under_the_root() {
    match start_request(b"GET /i.html HTTP/1.0\r\n\r\n", "/srv/www") {
        RequestStart::Lookup { resolve, head, proto } => {
            assert!(!head);
            assert_eq!(proto, Proto::Http10);
            match resolve {
                ResolveState::AwaitExists(c) => assert_eq!(c, "/srv/www/i.html"),
                _ => panic!("the lookup must start at the existence probe"),
            }
        },
        _ => panic!("GET must start a lookup"),
    }
}

#[test]
fn head_is_flagged_as_such() {
    match start_request(b"HEAD /i.html HTTP/1.1\r\n\r\n", "/srv/www") {
        RequestStart::Lookup { head, proto, .. } => {
            assert!(head);
            assert_eq!(proto, Proto::Http11);
        },
        _ => panic!("HEAD must start a lookup"),
    }
}

#[test]
fn extensions_follow_the_final_component() {
    assert_eq!(extension_of("/a/b.html"), "html");
    assert_eq!(extension_of("/a/b.tar.gz"), "gz");
    assert_eq!(extension_of("/a/b"), "");
    assert_eq!(extension_of("/a/.bashrc"), "");
    assert_eq!(extension_of("/a.d/b"), "");
    assert_eq!(extension_of("b.css"), "css");
    assert_eq!(extension_of("/a/b."), "");
}

#[test]
fn found_file_is_served_with_its_exact_length() {
    let r = file_response("/srv/www/x.html", Some(b"hello".to_vec()), false, Proto::Http11);
    assert_eq!(r.proto, Proto::Http11);
    let s = String::from_utf8(r.data).unwrap();
    assert!(s.starts_with("HTTP/1.1 200 OK\r\nServer: kzon-httpd\r\nDate: "));
    assert!(s.ends_with(
        "\r\nConnection: keep-alive\r\nContent-Type: text/html\r\nContent-Length: 5\r\n\r\nhello"
    ));
}

#[test]
fn head_of_found_file_has_headers_only() {
    let r = file_response("/srv/www/x.html", Some(b"hello".to_vec()), true, Proto::Http11);
    let s = String::from_utf8(r.data).unwrap();
    assert!(s.starts_with("HTTP/1.1 200 OK\r\n"));
    assert!(s.ends_with(
        "\r\nConnection: keep-alive\r\nContent-Type: text/html\r\nContent-Length: 5\r\n\r\n"
    ));
}

#[test]
fn unreadable_file_is_not_found() {
    let r = file_response("/srv/www/x.html", None, false, Proto::Http10);
    assert_eq!(r.proto, Proto::Http10);
    let s = String::from_utf8(r.data).unwrap();
    assert!(s.starts_with("HTTP/1.1 404 Not found\r\n"));
    assert!(s.contains("\r\nConnection: close\r\n"));
}

#[test]
fn rejections_map_to_404_and_403() {
    let r = rejection_response(&Resolution::NotFound, Proto::Http11);
    assert!(String::from_utf8(r.data).unwrap().starts_with("HTTP/1.1 404 Not found\r\n"));
    let r = rejection_response(&Resolution::Forbidden, Proto::Http10);
    assert!(String::from_utf8(r.data).unwrap().starts_with("HTTP/1.1 403 Forbidden\r\n"));
}
