//! Response assembly: the status line, the fixed header set, and the body,
//! concatenated into one byte buffer. The exact bytes are pinned by
//! [`spec_response`]; only the `Date` header value, which comes from the
//! clock, is left open.

use vstd::prelude::*;
use vstd::utf8::encode_utf8;
use crate::text::{bytes_eq, str_eq};

verus! {

/// The two protocol versions a request is classified into.
#[derive(Clone, Copy, PartialEq, Eq, Structural, Debug)]
pub enum Proto {
    Http10,
    Http11,
}

/// Classification of a version token: exactly the literal `HTTP/1.1` selects
/// HTTP/1.1; every other token falls back to HTTP/1.0.
pub open spec fn spec_proto_of(token: Seq<u8>) -> Proto {
    if token == encode_utf8("HTTP/1.1"@) {
        Proto::Http11
    } else {
        Proto::Http10
    }
}

/// Classifies a protocol-version token.
pub fn get_proto(token: &[u8]) -> (p: Proto)
    ensures
        p == spec_proto_of(token@),
{
    if bytes_eq(token, "HTTP/1.1".as_bytes()) {
        Proto::Http11
    } else {
        Proto::Http10
    }
}

/// Decimal digits of `n`, most significant first, as ASCII bytes.
pub open spec fn spec_dec_nat(n: nat) -> Seq<u8>
    decreases n,
{
    if n < 10 {
        seq![(48 + n) as u8]
    } else {
        spec_dec_nat(n / 10).push((48 + n % 10) as u8)
    }
}

/// Decimal rendering of a possibly negative number, as ASCII bytes.
pub open spec fn spec_dec_int(n: int) -> Seq<u8> {
    if n < 0 {
        seq![45u8] + spec_dec_nat((-n) as nat)
    } else {
        spec_dec_nat(n as nat)
    }
}

/// The reason phrase sent with each status code the server produces.
pub open spec fn spec_status_name(status: int) -> Seq<char> {
    if status == 200 {
        "OK"@
    } else if status == 403 {
        "Forbidden"@
    } else if status == 404 {
        "Not found"@
    } else {
        ""@
    }
}

/// The content type served for a file extension.
pub open spec fn spec_content_type(ext: Seq<char>) -> Seq<char> {
    if ext == "html"@ {
        "text/html"@
    } else if ext == "css"@ {
        "text/css"@
    } else if ext == "js"@ {
        "application/javascript"@
    } else if ext == "jpg"@ || ext == "jpeg"@ {
        "image/jpeg"@
    } else if ext == "png"@ {
        "image/png"@
    } else if ext == "gif"@ {
        "image/gif"@
    } else if ext == "swf"@ {
        "application/x-shockwave-flash"@
    } else {
        "text/plain"@
    }
}

/// The Connection header value matching the chosen protocol variant:
/// `keep-alive` for HTTP/1.1, `close` for HTTP/1.0.
pub open spec fn spec_connection_header(proto: Proto) -> Seq<char> {
    if proto == Proto::Http11 {
        "keep-alive"@
    } else {
        "close"@
    }
}

/// The header block of a response: status line, Server, Date, Connection,
/// Content-Type and Content-Length headers, and the blank line that ends it.
/// The Connection header carries the disposition of the chosen protocol
/// variant.
pub open spec fn spec_headers(
    status: int,
    content_len: nat,
    content_type: Seq<char>,
    date: Seq<u8>,
    proto: Proto,
) -> Seq<u8> {
    encode_utf8("HTTP/1.1 "@) + spec_dec_int(status) + encode_utf8(" "@) + encode_utf8(
        spec_status_name(status),
    ) + encode_utf8("\r\nServer: kzon-httpd\r\nDate: "@) + date + encode_utf8(
        "\r\nConnection: "@,
    ) + encode_utf8(spec_connection_header(proto)) + encode_utf8("\r\nContent-Type: "@)
        + encode_utf8(content_type) + encode_utf8("\r\nContent-Length: "@) + spec_dec_nat(
        content_len,
    ) + encode_utf8("\r\n\r\n"@)
}

/// A whole response: the header block followed by the body bytes.
pub open spec fn spec_response(
    status: int,
    body: Seq<u8>,
    content_len: nat,
    content_type: Seq<char>,
    date: Seq<u8>,
    proto: Proto,
) -> Seq<u8> {
    spec_headers(status, content_len, content_type, date, proto) + body
}

/// A HEAD response carries the same header block as the GET response for the
/// same resource: the full response is the bodiless one plus the body bytes.
pub proof fn lemma_head_matches_content(
    status: int,
    body: Seq<u8>,
    content_len: nat,
    content_type: Seq<char>,
    date: Seq<u8>,
    proto: Proto,
)
    ensures
        spec_response(status, body, content_len, content_type, date, proto) == spec_response(
            status,
            Seq::<u8>::empty(),
            content_len,
            content_type,
            date,
            proto,
        ) + body,
{
    assert(spec_response(status, body, content_len, content_type, date, proto) =~= spec_response(
        status,
        Seq::<u8>::empty(),
        content_len,
        content_type,
        date,
        proto,
    ) + body);
}

/// The reason phrase for a status code.
pub fn get_status_name(status: i32) -> (r: &'static str)
    ensures
        r@ == spec_status_name(status as int),
{
    match status {
        200 => "OK",
        403 => "Forbidden",
        404 => "Not found",
        _ => "",
    }
}

/// The content type for a file extension.
pub fn get_content_type(ext: &str) -> (r: &'static str)
    ensures
        r@ == spec_content_type(ext@),
{
    if str_eq(ext, "html") {
        "text/html"
    } else if str_eq(ext, "css") {
        "text/css"
    } else if str_eq(ext, "js") {
        "application/javascript"
    } else if str_eq(ext, "jpg") || str_eq(ext, "jpeg") {
        "image/jpeg"
    } else if str_eq(ext, "png") {
        "image/png"
    } else if str_eq(ext, "gif") {
        "image/gif"
    } else if str_eq(ext, "swf") {
        "application/x-shockwave-flash"
    } else {
        "text/plain"
    }
}

/// Appends the UTF-8 bytes of `s` to `out`.
fn push_str_bytes(out: &mut Vec<u8>, s: &str)
    ensures
        final(out)@ == old(out)@ + encode_utf8(s@),
{
    out.extend_from_slice(s.as_bytes());
}

/// Appends the decimal digits of `n` to `out`.
fn push_dec_u64(out: &mut Vec<u8>, n: u64)
    ensures
        final(out)@ == old(out)@ + spec_dec_nat(n as nat),
    decreases n,
{
    if n >= 10 {
        push_dec_u64(out, n / 10);
    }
    out.push(48 + (n % 10) as u8);
    proof {
        if n >= 10 {
            assert(final(out)@ =~= old(out)@ + spec_dec_nat(n as nat));
        }
    }
}

/// Appends the decimal rendering of `n`, with a leading minus sign if
/// negative, to `out`.
fn push_dec_i32(out: &mut Vec<u8>, n: i32)
    ensures
        final(out)@ == old(out)@ + spec_dec_int(n as int),
{
    if n < 0 {
        out.push(45);
        let m: i64 = -(n as i64);
        push_dec_u64(out, m as u64);
        proof {
            assert(final(out)@ =~= old(out)@ + spec_dec_int(n as int));
        }
    } else {
        push_dec_u64(out, n as u64);
    }
}

/// The Connection header value for the chosen protocol variant.
pub fn connection_header(proto: Proto) -> (r: &'static str)
    ensures
        r@ == spec_connection_header(proto),
{
    match proto {
        Proto::Http11 => "keep-alive",
        Proto::Http10 => "close",
    }
}

/// Builds the full response for the given status, body, content type and
/// protocol variant, carrying the given bytes as the Date header value.
pub fn write_with_date(
    status: i32,
    body: &[u8],
    content_len: usize,
    content_type: &str,
    date: &[u8],
    proto: Proto,
) -> (r: Vec<u8>)
    ensures
        r@ == spec_response(status as int, body@, content_len as nat, content_type@, date@, proto),
{
    let mut out: Vec<u8> = Vec::new();
    push_str_bytes(&mut out, "HTTP/1.1 ");
    push_dec_i32(&mut out, status);
    push_str_bytes(&mut out, " ");
    push_str_bytes(&mut out, get_status_name(status));
    push_str_bytes(&mut out, "\r\nServer: kzon-httpd\r\nDate: ");
    out.extend_from_slice(date);
    push_str_bytes(&mut out, "\r\nConnection: ");
    push_str_bytes(&mut out, connection_header(proto));
    push_str_bytes(&mut out, "\r\nContent-Type: ");
    push_str_bytes(&mut out, content_type);
    push_str_bytes(&mut out, "\r\nContent-Length: ");
    push_dec_u64(&mut out, content_len as u64);
    push_str_bytes(&mut out, "\r\n\r\n");
    out.extend_from_slice(body);
    proof {
        assert(out@ =~= spec_response(
            status as int,
            body@,
            content_len as nat,
            content_type@,
            date@,
            proto,
        ));
    }
    out
}

/// Date header bytes that cannot break the header block: ASCII, with no CR
/// and no LF.
pub open spec fn date_bytes_ok(date: Seq<u8>) -> bool {
    forall|i: int| 0 <= i < date.len() ==> (date[i] < 128 && date[i] != 13 && date[i] != 10)
}

/// Relies on chrono::Utc::now for the current time and on
/// chrono::DateTime::to_rfc2822 for its RFC 2822 rendering, handed back as
/// bytes. The time depends on the clock, so the value is left open; but the
/// rendering emits only ASCII day and month names, digits, spaces, commas,
/// colons and a sign — never a CR or LF — so the Date header cannot break
/// the header block. (`DateTime<Utc>` cannot appear in a signature here, as
/// its `TimeZone` bound has no declaration, so the two calls share this
/// wrapper.)
#[verifier::external_body]
fn now_rfc2822_bytes() -> (r: Vec<u8>)
    ensures
        date_bytes_ok(r@),
{
    chrono::Utc::now().to_rfc2822().into_bytes()
}

/// Builds the full response, with the Date header taken from the clock:
/// the result is the pinned response shape for some well-formed date bytes.
pub fn write(status: i32, body: &[u8], content_len: usize, content_type: &str, proto: Proto) -> (r:
    Vec<u8>)
    ensures
        exists|date: Seq<u8>|
            #[trigger] spec_response(status as int, body@, content_len as nat, content_type@, date, proto)
                == r@ && date_bytes_ok(date),
{
    let date = now_rfc2822_bytes();
    let r = write_with_date(status, body, content_len, content_type, date.as_slice(), proto);
    proof {
        assert(r@ == spec_response(
            status as int,
            body@,
            content_len as nat,
            content_type@,
            date@,
            proto,
        ));
    }
    r
}

/// A response with the given status, no body, and content length zero.
pub fn write_status(status: i32, proto: Proto) -> (r: Vec<u8>)
    ensures
        exists|date: Seq<u8>|
            #[trigger] spec_response(status as int, Seq::<u8>::empty(), 0, "text/plain"@, date, proto)
                == r@ && date_bytes_ok(date),
{
    let empty: Vec<u8> = Vec::new();
    write(status, empty.as_slice(), 0, "text/plain", proto)
}

/// The header block alone, declaring the given content length: what a HEAD
/// request is answered with.
pub fn write_head(status: i32, content_len: usize, content_type: &str, proto: Proto) -> (r: Vec<
    u8,
>)
    ensures
        exists|date: Seq<u8>|
            #[trigger] spec_response(
                status as int,
                Seq::<u8>::empty(),
                content_len as nat,
                content_type@,
                date,
                proto,
            ) == r@ && date_bytes_ok(date),
{
    let empty: Vec<u8> = Vec::new();
    write(status, empty.as_slice(), content_len, content_type, proto)
}

/// A response carrying `content` as its body, with the content length set to
/// its exact byte length.
pub fn write_content(status: i32, content: &[u8], content_type: &str, proto: Proto) -> (r: Vec<u8>)
    ensures
        exists|date: Seq<u8>|
            #[trigger] spec_response(
                status as int,
                content@,
                content@.len(),
                content_type@,
                date,
                proto,
            ) == r@ && date_bytes_ok(date),
{
    write(status, content, content.len(), content_type, proto)
}

} // verus!
