use kzon_httpd::http::Proto;
use kzon_httpd::session::{Disposition, Interest, Response, Session, TokenAllocator};

#[test]
fn tokens_are_unique_monotone_and_never_zero() {
    let mut a = TokenAllocator::new();
    let mut seen: Vec<usize> = Vec::new();
    for _ in 0..100 {
        let t = a.fresh();
        assert!(t > 0);
        if let Some(last) = seen.last() {
            assert!(t > *last);
        }
        seen.push(t);
    }
    assert_eq!(seen[0], 1);
    assert_eq!(seen[99], 100);
}

#[test]
fn a_fresh_session_reads() {
    let s = Session::new();
    assert_eq!(s.interest, Interest::Reading);
    assert!(s.response.is_none());
    assert!(s.read_buf.is_empty());
}

#[test]
fn reads_accumulate_until_framed() {
    let mut s = Session::new();
    s.append_read(b"GET / HT");
    assert!(!s.request_ready());
    s.append_read(b"TP/1.0\r\n");
    assert!(!s.request_ready());
    s.append_read(b"\r\n");
    assert!(s.request_ready());
    assert_eq!(s.read_buf, b"GET / HTTP/1.0\r\n\r\n");
}

#[test]
fn installing_a_response_turns_the_session_to_writing() {
    let mut s = Session::new();
    s.append_read(b"GET / HTTP/1.0\r\n\r\n");
    s.install_response(Response { data: b"abc".to_vec(), proto: Proto::Http10 });
    assert_eq!(s.interest, Interest::Writing);
    assert!(s.read_buf.is_empty());
    assert_eq!(s.pending_write(), b"abc");
}

#[test]
fn partial_writes_deliver_the_exact_bytes() {
    let payload = b"HTTP/1.0 200 OK\r\n\r\npayload".to_vec();
    let mut s = Session::new();
    s.install_response(Response { data: payload.clone(), proto: Proto::Http10 });

    let mut delivered: Vec<u8> = Vec::new();
    let accepted = [3usize, 1, 7, 0, 5, 100];
    let mut round = 0;
    while !s.write_done() {
        let pending = s.pending_write().to_vec();
        let n = accepted[round].min(pending.len());
        round += 1;
        delivered.extend_from_slice(&pending[..n]);
        s.consume_written(n);
    }
    assert_eq!(delivered, payload);
    assert_eq!(s.finish_response(), Disposition::Close);
}

#[test]
fn http10_closes_after_the_drain() {
    let mut s = Session::new();
    s.install_response(Response { data: b"x".to_vec(), proto: Proto::Http10 });
    s.consume_written(1);
    assert!(s.write_done());
    assert_eq!(s.finish_response(), Disposition::Close);
}

#[test]
fn http11_keeps_the_connection_and_serves_a_second_request() {
    let mut s = Session::new();
    s.append_read(b"GET /a HTTP/1.1\r\n\r\n");
    assert!(s.request_ready());
    s.install_response(Response { data: b"first".to_vec(), proto: Proto::Http11 });
    s.consume_written(5);
    assert!(s.write_done());
    assert_eq!(s.finish_response(), Disposition::KeepAlive);
    assert_eq!(s.interest, Interest::Reading);

    s.append_read(b"GET /b HTTP/1.1\r\n\r\n");
    assert!(s.request_ready());
    s.install_response(Response { data: b"second".to_vec(), proto: Proto::Http11 });
    assert_eq!(s.pending_write(), b"second");
    s.consume_written(6);
    assert_eq!(s.finish_response(), Disposition::KeepAlive);
}

#[test]
fn consume_keeps_the_remainder_in_order() {
    let mut s = Session::new();
    s.install_response(Response { data: b"abcdefgh".to_vec(), proto: Proto::Http11 });
    s.consume_written(3);
    assert_eq!(s.pending_write(), b"defgh");
    s.consume_written(0);
    assert_eq!(s.pending_write(), b"defgh");
    s.consume_written(5);
    assert_eq!(s.pending_write(), b"");
    assert!(s.write_done());
}
