//! Resource resolution: turning a raw request target into a filesystem path
//! that is guaranteed to lie inside the document root, or rejecting it.
//!
//! The filesystem itself can only be probed outside the verified library, so
//! resolution is a small state machine: [`begin_resolve`] strips the query
//! string, percent-decodes the target and prefixes the document root;
//! [`resolve_step`] consumes the answer to one filesystem probe (existence,
//! canonicalization, directory test, index-file test) and says which probe
//! comes next or how the lookup ends. Every transition is pinned by
//! [`resolve_step_post`], and the containment invariant — a resolved path
//! always has the document root as a prefix component — is carried by
//! [`state_wf`] and restated in the `ensures` of [`resolve_step`].

use vstd::prelude::*;
use vstd::utf8::is_ascii_chars;
use crate::text::{find_byte_from, find_byte};
use vstd::string::{StrSliceExecFns, StringExecFns, StringExecFnsIsAscii};

verus! {

/// How a lookup ends: a servable file path, a missing resource, or a
/// directory with no index file.
pub enum Resolution {
    Found(String),
    NotFound,
    Forbidden,
}

/// The resolver's position between filesystem probes. The `Await` states name
/// the probe whose answer is expected next and carry the path it concerns.
pub enum ResolveState {
    AwaitExists(String),
    AwaitCanonical(String),
    AwaitIsDir(String),
    AwaitIndexExists(String),
    Done(Resolution),
}

/// The answer to one filesystem probe.
pub enum ResolveEvent {
    Exists(bool),
    Canonical(Option<String>),
    IsDir(bool),
    IndexExists(bool),
}

/// `c` is an ASCII hexadecimal digit.
pub open spec fn is_hex_digit(c: char) -> bool {
    (48 <= c as int <= 57) || (97 <= c as int <= 102) || (65 <= c as int <= 70)
}

/// The value of a hexadecimal digit.
pub open spec fn hex_val(c: char) -> int {
    if 48 <= c as int <= 57 {
        c as int - 48
    } else if 97 <= c as int <= 102 {
        c as int - 87
    } else {
        c as int - 55
    }
}

/// The target is well-formed for percent-decoding: every `%` is followed by
/// two hexadecimal digits, which the decoder then consumes.
pub open spec fn spec_decodable(s: Seq<char>) -> bool
    decreases s.len(),
{
    if s.len() == 0 {
        true
    } else if s[0] == '%' {
        s.len() >= 3 && is_hex_digit(s[1]) && is_hex_digit(s[2]) && spec_decodable(s.skip(3))
    } else {
        spec_decodable(s.skip(1))
    }
}

/// Percent-decoding: each `%` and the two hexadecimal digits after it become
/// the character whose code is the byte they name; every other character is
/// kept.
pub open spec fn spec_url_decode(s: Seq<char>) -> Seq<char>
    decreases s.len(),
{
    if s.len() == 0 {
        Seq::<char>::empty()
    } else if s[0] == '%' && s.len() >= 3 {
        seq![(((16 * hex_val(s[1]) + hex_val(s[2])) as u8) as char)] + spec_url_decode(s.skip(3))
    } else {
        seq![s[0]] + spec_url_decode(s.skip(1))
    }
}

/// Every byte is ASCII.
pub open spec fn ascii_bytes(s: Seq<u8>) -> bool {
    forall|i: int| 0 <= i < s.len() ==> s[i] < 128
}

/// What String::from_utf8_lossy reads from a byte sequence; a function of the
/// bytes alone.
pub uninterp spec fn lossy_utf8(bytes: Seq<u8>) -> Seq<char>;

/// The target with everything from the first `?` on stripped: the query
/// string takes no part in the file lookup.
pub open spec fn spec_stripped(target: Seq<u8>) -> Seq<u8> {
    target.take(find_byte_from(target, 0, 63))
}

/// `path` has `root` as a prefix component: `root` is a character prefix and
/// ends a path component there (the paths are equal, a separator follows, or
/// the root itself ends with a separator).
pub open spec fn is_path_within(path: Seq<char>, root: Seq<char>) -> bool {
    &&& root.len() <= path.len()
    &&& path.take(root.len() as int) == root
    &&& (path.len() == root.len() || path[root.len() as int] == '/' || (root.len() > 0 && root[
        root.len() - 1
    ] == '/'))
}

/// Containment invariant of the resolver: once a path has passed the
/// canonicalization check, every state carrying it — including a final
/// `Found` — keeps it inside the document root.
pub open spec fn state_wf(s: ResolveState, root: Seq<char>) -> bool {
    match s {
        ResolveState::AwaitIsDir(p) => is_path_within(p@, root),
        ResolveState::AwaitIndexExists(p) => is_path_within(p@, root),
        ResolveState::Done(Resolution::Found(p)) => is_path_within(p@, root),
        _ => true,
    }
}

/// What `begin_resolve` hands back: for a target whose stripped form decodes,
/// the candidate path `root + decoded target` awaiting the existence probe;
/// for one that cannot be decoded, an immediate "not found".
pub open spec fn begin_resolve_post(target: Seq<u8>, root: Seq<char>, s: ResolveState) -> bool {
    let ts = lossy_utf8(spec_stripped(target));
    if is_ascii_chars(ts) && spec_decodable(ts) {
        s matches ResolveState::AwaitExists(c) && c@ == root + spec_url_decode(ts)
    } else {
        s matches ResolveState::Done(Resolution::NotFound)
    }
}

/// Every transition of the resolver, pinned: which state and probe answer
/// lead to which next state. A probe answer that does not belong to the
/// current state aborts the lookup as "not found".
pub open spec fn resolve_step_post(
    state: ResolveState,
    event: ResolveEvent,
    root: Seq<char>,
    next: ResolveState,
) -> bool {
    match (state, event) {
        (ResolveState::AwaitExists(c), ResolveEvent::Exists(yes)) => if yes {
            next matches ResolveState::AwaitCanonical(c2) && c2@ == c@
        } else {
            next matches ResolveState::Done(Resolution::NotFound)
        },
        (ResolveState::AwaitCanonical(c), ResolveEvent::Canonical(opt)) => match opt {
            Some(p) => if is_path_within(p@, root) {
                next matches ResolveState::AwaitIsDir(q) && q@ == p@
            } else {
                next matches ResolveState::Done(Resolution::NotFound)
            },
            None => next matches ResolveState::Done(Resolution::NotFound),
        },
        (ResolveState::AwaitIsDir(p), ResolveEvent::IsDir(yes)) => if yes {
            next matches ResolveState::AwaitIndexExists(ix) && ix@ == p@ + "/index.html"@
        } else {
            next matches ResolveState::Done(Resolution::Found(q)) && q@ == p@
        },
        (ResolveState::AwaitIndexExists(ix), ResolveEvent::IndexExists(yes)) => if yes {
            next matches ResolveState::Done(Resolution::Found(q)) && q@ == ix@
        } else {
            next matches ResolveState::Done(Resolution::Forbidden)
        },
        _ => next matches ResolveState::Done(Resolution::NotFound),
    }
}

/// Decides whether `c` is an ASCII hexadecimal digit.
pub fn hex_digit(c: char) -> (r: bool)
    ensures
        r == is_hex_digit(c),
{
    let v = c as u32;
    (48 <= v && v <= 57) || (97 <= v && v <= 102) || (65 <= v && v <= 70)
}

/// Decides whether the target is well-formed for percent-decoding.
pub fn is_decodable(s: &str) -> (r: bool)
    ensures
        r == spec_decodable(s@),
{
    let n = s.unicode_len();
    let mut i: usize = 0;
    proof {
        assert(s@.skip(0) =~= s@);
    }
    while i < n
        invariant
            n == s@.len(),
            0 <= i <= n,
            spec_decodable(s@) == spec_decodable(s@.skip(i as int)),
        decreases n - i,
    {
        let c = s.get_char(i);
        if c == '%' {
            proof {
                assert(s@.skip(i as int)[0] == s@[i as int]);
            }
            if n - i < 3 {
                return false;
            }
            let c1 = s.get_char(i + 1);
            let c2 = s.get_char(i + 2);
            proof {
                assert(s@.skip(i as int)[1] == s@[i as int + 1]);
                assert(s@.skip(i as int)[2] == s@[i as int + 2]);
            }
            if !(hex_digit(c1) && hex_digit(c2)) {
                return false;
            }
            proof {
                assert(s@.skip(i as int).skip(3) =~= s@.skip(i as int + 3));
            }
            i = i + 3;
        } else {
            proof {
                assert(s@.skip(i as int)[0] == s@[i as int]);
                assert(s@.skip(i as int).skip(1) =~= s@.skip(i as int + 1));
            }
            i = i + 1;
        }
    }
    true
}

/// Relies on String::from_utf8_lossy: the characters read from the bytes,
/// with invalid sequences replaced by the replacement character; valid UTF-8
/// — in particular ASCII — is carried over unchanged, as its documentation
/// states.
#[verifier::external_body]
fn bytes_to_string(bytes: &[u8]) -> (r: String)
    ensures
        r@ == lossy_utf8(bytes@),
        ascii_bytes(bytes@) ==> r@ == bytes@.map_values(|b: u8| b as char),
{
    String::from_utf8_lossy(bytes).into_owned()
}

/// Relies on urldecode::decode: percent-decoding, replacing each `%` and the
/// two hexadecimal digits after it by the character they name. The input must
/// be ASCII and well-formed, as the crate indexes characters by byte position
/// and does not return on a malformed escape.
#[verifier::external_body]
fn decode_url(s: String) -> (r: String)
    requires
        is_ascii_chars(s@),
        spec_decodable(s@),
    ensures
        r@ == spec_url_decode(s@),
{
    urldecode::decode(s)
}

/// Decides prefix-component containment of `path` under `root`.
pub fn is_within_root(path: &str, root: &str) -> (r: bool)
    ensures
        r == is_path_within(path@, root@),
{
    let np = path.unicode_len();
    let nr = root.unicode_len();
    if nr > np {
        return false;
    }
    let mut i: usize = 0;
    while i < nr
        invariant
            np == path@.len(),
            nr == root@.len(),
            nr <= np,
            0 <= i <= nr,
            forall|j: int| 0 <= j < i ==> path@[j] == root@[j],
        decreases nr - i,
    {
        if path.get_char(i) != root.get_char(i) {
            proof {
                assert(path@.take(nr as int)[i as int] != root@[i as int]);
            }
            return false;
        }
        i = i + 1;
    }
    proof {
        assert(path@.take(nr as int) =~= root@);
    }
    if np == nr {
        return true;
    }
    if path.get_char(nr) == '/' {
        return true;
    }
    if nr > 0 && root.get_char(nr - 1) == '/' {
        return true;
    }
    false
}

/// Appending `/index.html` to a path keeps it inside the root.
proof fn lemma_within_append_index(p: Seq<char>, root: Seq<char>)
    requires
        is_path_within(p, root),
    ensures
        is_path_within(p + "/index.html"@, root),
{
    reveal_strlit("/index.html");
    let q = p + "/index.html"@;
    assert(q.take(root.len() as int) =~= p.take(root.len() as int));
    if p.len() == root.len() {
        assert(q[root.len() as int] == '/');
    }
}

/// Starts a lookup: strips the query string, percent-decodes the remaining
/// target and prefixes the document root. A target that is not ASCII or whose
/// escapes are malformed is rejected outright as "not found".
pub fn begin_resolve(target: &[u8], root: &str) -> (s: ResolveState)
    ensures
        begin_resolve_post(target@, root@, s),
        state_wf(s, root@),
{
    let q = find_byte(target, 63);
    let stripped = &target[0..q];
    let ts = bytes_to_string(stripped);
    if !ts.is_ascii() {
        return ResolveState::Done(Resolution::NotFound);
    }
    if !is_decodable(ts.as_str()) {
        return ResolveState::Done(Resolution::NotFound);
    }
    let decoded = decode_url(ts);
    let candidate = String::from_str(root).concat(decoded.as_str());
    ResolveState::AwaitExists(candidate)
}

/// Consumes one probe answer. The canonicalized path is admitted only if the
/// document root is a prefix component of it — the sole defense against path
/// traversal, checked after canonicalization — so a lookup can only end in
/// `Found` with a path inside the root.
pub fn resolve_step(state: ResolveState, event: ResolveEvent, root: &str) -> (next: ResolveState)
    requires
        state_wf(state, root@),
    ensures
        resolve_step_post(state, event, root@, next),
        state_wf(next, root@),
        next matches ResolveState::Done(Resolution::Found(p)) ==> is_path_within(p@, root@),
{
    match (state, event) {
        (ResolveState::AwaitExists(c), ResolveEvent::Exists(yes)) => {
            if yes {
                ResolveState::AwaitCanonical(c)
            } else {
                ResolveState::Done(Resolution::NotFound)
            }
        },
        (ResolveState::AwaitCanonical(_), ResolveEvent::Canonical(opt)) => {
            match opt {
                Some(p) => {
                    if is_within_root(p.as_str(), root) {
                        ResolveState::AwaitIsDir(p)
                    } else {
                        ResolveState::Done(Resolution::NotFound)
                    }
                },
                None => ResolveState::Done(Resolution::NotFound),
            }
        },
        (ResolveState::AwaitIsDir(p), ResolveEvent::IsDir(yes)) => {
            if yes {
                proof {
                    lemma_within_append_index(p@, root@);
                }
                let ix = p.concat("/index.html");
                ResolveState::AwaitIndexExists(ix)
            } else {
                ResolveState::Done(Resolution::Found(p))
            }
        },
        (ResolveState::AwaitIndexExists(ix), ResolveEvent::IndexExists(yes)) => {
            if yes {
                ResolveState::Done(Resolution::Found(ix))
            } else {
                ResolveState::Done(Resolution::Forbidden)
            }
        },
        (_, _) => ResolveState::Done(Resolution::NotFound),
    }
}

} // verus!
