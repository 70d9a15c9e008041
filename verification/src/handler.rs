//! Request handling: splitting the request line into method, target and
//! protocol-version tokens, rejecting methods other than GET and HEAD with a
//! 405 response, starting a resource lookup for the others, and turning the
//! lookup's outcome — together with the file content the caller read — into
//! the response to send.

use vstd::prelude::*;
use vstd::utf8::encode_utf8;
use vstd::slice::slice_to_vec;
use vstd::string::{StrSliceExecFns, StringSliceAdditionalSpecFns};
use crate::text::{find_byte_from, find_byte, find_byte_at, find_last_char, rfind_char, bytes_eq};
use crate::http::{
    Proto, date_bytes_ok, get_proto, spec_proto_of, spec_response, spec_content_type, write_status,
    write_head, write_content, get_content_type,
};
use crate::resolver::{ResolveState, Resolution, begin_resolve, begin_resolve_post, state_wf};
use crate::session::Response;

verus! {

/// A byte that ends the protocol-version token: a space or a line terminator.
pub open spec fn is_token_delim(b: u8) -> bool {
    b == 32 || b == 13 || b == 10
}

/// Index of the first token delimiter in `s` at or after `from`, or `s.len()`.
pub open spec fn token_end_from(s: Seq<u8>, from: int) -> int
    decreases s.len() - from when 0 <= from <= s.len()
{
    if from >= s.len() {
        s.len() as int
    } else if is_token_delim(s[from]) {
        from
    } else {
        token_end_from(s, from + 1)
    }
}

/// The method token: everything up to the first space.
pub open spec fn spec_method(req: Seq<u8>) -> Seq<u8> {
    req.take(find_byte_from(req, 0, 32))
}

/// The target token: between the first and the second space, empty if the
/// request line has no first space.
pub open spec fn spec_target(req: Seq<u8>) -> Seq<u8> {
    let m = find_byte_from(req, 0, 32);
    if m == req.len() {
        Seq::<u8>::empty()
    } else {
        req.subrange(m + 1, find_byte_from(req, m + 1, 32))
    }
}

/// The protocol-version token: after the second space, truncated at the first
/// space or line terminator; empty if the request line has fewer tokens.
pub open spec fn spec_proto_token(req: Seq<u8>) -> Seq<u8> {
    let m = find_byte_from(req, 0, 32);
    if m == req.len() {
        Seq::<u8>::empty()
    } else {
        let t = find_byte_from(req, m + 1, 32);
        if t == req.len() {
            Seq::<u8>::empty()
        } else {
            req.subrange(t + 1, token_end_from(req, t + 1))
        }
    }
}

/// The method is one the server supports.
pub open spec fn spec_method_allowed(m: Seq<u8>) -> bool {
    m == encode_utf8("GET"@) || m == encode_utf8("HEAD"@)
}

/// First token delimiter in `s` at or after `from`, or `s.len()`.
fn token_end_at(s: &[u8], from: usize) -> (r: usize)
    requires
        from <= s@.len(),
    ensures
        r as int == token_end_from(s@, from as int),
        from <= r <= s@.len(),
{
    let n = s.len();
    let mut i: usize = from;
    while i < n
        invariant
            n == s@.len(),
            from <= i <= n,
            token_end_from(s@, from as int) == token_end_from(s@, i as int),
        decreases n - i,
    {
        let b = s[i];
        if b == 32 || b == 13 || b == 10 {
            return i;
        }
        i = i + 1;
    }
    n
}

/// The three tokens read off a framed request.
pub struct RequestLine {
    pub method: Vec<u8>,
    pub target: Vec<u8>,
    pub proto: Proto,
}

/// Splits the request into its method, target and protocol tokens and
/// classifies the protocol version. A request line with missing tokens gets
/// empty ones; it never fails.
pub fn parse_request_line(req: &[u8]) -> (rl: RequestLine)
    ensures
        rl.method@ == spec_method(req@),
        rl.target@ == spec_target(req@),
        rl.proto == spec_proto_of(spec_proto_token(req@)),
{
    let n = req.len();
    let m = find_byte(req, 32);
    let method = slice_to_vec(&req[0..m]);
    proof {
        assert(method@ =~= spec_method(req@));
    }
    if m == n {
        let proto = get_proto(&req[0..0]);
        proof {
            assert(req@.subrange(0, 0) =~= spec_proto_token(req@));
        }
        return RequestLine { method, target: Vec::new(), proto };
    }
    let t = find_byte_at(req, m + 1, 32);
    let target = slice_to_vec(&req[m + 1..t]);
    if t == n {
        let proto = get_proto(&req[0..0]);
        proof {
            assert(req@.subrange(0, 0) =~= spec_proto_token(req@));
        }
        return RequestLine { method, target, proto };
    }
    let e = token_end_at(req, t + 1);
    let proto = get_proto(&req[t + 1..e]);
    RequestLine { method, target, proto }
}

/// Decides whether the method is GET or HEAD.
pub fn method_allowed(m: &[u8]) -> (r: bool)
    ensures
        r == spec_method_allowed(m@),
{
    bytes_eq(m, "GET".as_bytes()) || bytes_eq(m, "HEAD".as_bytes())
}

/// What handling a framed request begins with: an immediate response, or a
/// resource lookup to drive.
pub enum RequestStart {
    Respond(Response),
    Lookup { resolve: ResolveState, head: bool, proto: Proto },
}

/// Handles a framed request up to the filesystem boundary: a method other
/// than GET or HEAD is answered 405 outright; otherwise the target goes to
/// the resolver, and the caller drives the returned lookup.
pub fn start_request(req: &[u8], root: &str) -> (r: RequestStart)
    ensures
        spec_method_allowed(spec_method(req@)) ==> (r matches RequestStart::Lookup {
            resolve,
            head,
            proto,
        } && begin_resolve_post(spec_target(req@), root@, resolve) && state_wf(resolve, root@)
            && head == (spec_method(req@) == encode_utf8("HEAD"@)) && proto == spec_proto_of(
            spec_proto_token(req@),
        )),
        !spec_method_allowed(spec_method(req@)) ==> (r matches RequestStart::Respond(resp)
            && resp.proto == spec_proto_of(spec_proto_token(req@)) && exists|date: Seq<u8>|
            #[trigger] spec_response(
                405,
                Seq::<u8>::empty(),
                0,
                "text/plain"@,
                date,
                spec_proto_of(spec_proto_token(req@)),
            ) == resp.data@ && date_bytes_ok(date)),
{
    let rl = parse_request_line(req);
    if !method_allowed(rl.method.as_slice()) {
        RequestStart::Respond(Response { data: write_status(405, rl.proto), proto: rl.proto })
    } else {
        let head = bytes_eq(rl.method.as_slice(), "HEAD".as_bytes());
        let resolve = begin_resolve(rl.target.as_slice(), root);
        RequestStart::Lookup { resolve, head, proto: rl.proto }
    }
}

/// The extension of the file the path names: the part of the final path
/// component after its last dot, where that dot is not the component's first
/// character; empty otherwise.
pub open spec fn spec_extension(path: Seq<char>) -> Seq<char> {
    let comp = path.skip(find_last_char(path, '/') + 1);
    let ld = find_last_char(comp, '.');
    if ld >= 1 {
        comp.skip(ld + 1)
    } else {
        Seq::<char>::empty()
    }
}

/// The extension of the file the path names.
pub fn extension_of(path: &str) -> (e: &str)
    ensures
        e@ == spec_extension(path@),
{
    let n = path.unicode_len();
    proof {
        crate::text::lemma_find_last_char_bounds(path@, '/');
    }
    let start = match rfind_char(path, '/') {
        Some(i) => i + 1,
        None => 0,
    };
    let comp = path.substring_char(start, n);
    proof {
        assert(comp@ =~= path@.skip(find_last_char(path@, '/') + 1));
    }
    let cn = comp.unicode_len();
    match rfind_char(comp, '.') {
        Some(i) => {
            if i >= 1 {
                let e = comp.substring_char(i + 1, cn);
                proof {
                    assert(e@ =~= comp@.skip(i + 1));
                }
                e
            } else {
                proof {
                    reveal_strlit("");
                    assert(""@ =~= Seq::<char>::empty());
                }
                ""
            }
        },
        None => {
            proof {
                reveal_strlit("");
                assert(""@ =~= Seq::<char>::empty());
            }
            ""
        },
    }
}

/// Builds the response for a resolved file: 404 if the file could not be
/// opened, otherwise 200 with the content type chosen by the file's
/// extension; a HEAD request gets the header block only, with the content
/// length still that of the full content.
pub fn file_response(path: &str, content: Option<Vec<u8>>, head: bool, proto: Proto) -> (r:
    Response)
    ensures
        r.proto == proto,
        content matches Some(c) ==> ((head ==> exists|date: Seq<u8>|
            #[trigger] spec_response(
                200,
                Seq::<u8>::empty(),
                c@.len(),
                spec_content_type(spec_extension(path@)),
                date,
                proto,
            ) == r.data@ && date_bytes_ok(date)) && (!head ==> exists|date: Seq<u8>|
            #[trigger] spec_response(
                200,
                c@,
                c@.len(),
                spec_content_type(spec_extension(path@)),
                date,
                proto,
            ) == r.data@ && date_bytes_ok(date))),
        content is None ==> exists|date: Seq<u8>|
            #[trigger] spec_response(404, Seq::<u8>::empty(), 0, "text/plain"@, date, proto)
                == r.data@ && date_bytes_ok(date),
{
    match content {
        None => Response { data: write_status(404, proto), proto },
        Some(c) => {
            let ext = extension_of(path);
            let ct = get_content_type(ext);
            let data = if head {
                write_head(200, c.len(), ct, proto)
            } else {
                write_content(200, c.as_slice(), ct, proto)
            };
            Response { data, proto }
        },
    }
}

/// Builds the response for a lookup that found no servable file: 404 for a
/// missing or rejected resource, 403 for a directory with no index file.
pub fn rejection_response(res: &Resolution, proto: Proto) -> (r: Response)
    requires
        !(res matches Resolution::Found(_)),
    ensures
        r.proto == proto,
        res matches Resolution::NotFound ==> exists|date: Seq<u8>|
            #[trigger] spec_response(404, Seq::<u8>::empty(), 0, "text/plain"@, date, proto)
                == r.data@ && date_bytes_ok(date),
        res matches Resolution::Forbidden ==> exists|date: Seq<u8>|
            #[trigger] spec_response(403, Seq::<u8>::empty(), 0, "text/plain"@, date, proto)
                == r.data@ && date_bytes_ok(date),
{
    match res {
        Resolution::Forbidden => Response { data: write_status(403, proto), proto },
        _ => Response { data: write_status(404, proto), proto },
    }
}

} // verus!
