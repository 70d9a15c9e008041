use kzon_httpd::resolver::{
    begin_resolve, is_decodable, is_within_root, resolve_step, Resolution, ResolveEvent,
    ResolveState,
};

fn candidate_of(s: ResolveState) -> String {
    match s {
        ResolveState::AwaitExists(c) => c,
        _ => panic!("expected a candidate awaiting the existence probe"),
    }
}

#[test]
fn query_string_is_stripped_and_target_decoded() {
    let s = begin_resolve(b"/a%20b?x=1&y=2", "/srv/www");
    assert_eq!(candidate_of(s), "/srv/www/a b");
}

#[test]
fn plain_target_is_prefixed_with_the_root() {
    let s = begin_resolve(b"/dir/file.html", "/srv/www");
    assert_eq!(candidate_of(s), "/srv/www/dir/file.html");
}

#[test]
fn malformed_escape_is_rejected_outright() {
    match begin_resolve(b"/a%zz", "/srv/www") {
        ResolveState::Done(Resolution::NotFound) => {},
        _ => panic!("a malformed escape must end the lookup as not found"),
    }
    match begin_resolve(b"/a%2", "/srv/www") {
        ResolveState::Done(Resolution::NotFound) => {},
        _ => panic!("a truncated escape must end the lookup as not found"),
    }
}

#[test]
fn non_ascii_target_is_not_found() {
    // the decoder indexes characters by byte position, so a non-ASCII target
    // is rejected before it is handed over
    match begin_resolve(b"/caf\xc3\xa9", "/srv/www") {
        ResolveState::Done(Resolution::NotFound) => {},
        _ => panic!("a non-ASCII target must end the lookup as not found"),
    }
}

#[test]
fn empty_target_yields_the_bare_root() {
    let s = begin_resolve(b"", "/srv/www");
    assert_eq!(candidate_of(s), "/srv/www");
}

#[test]
fn decodability_is_decided_exactly() {
    assert!(is_decodable("/plain"));
    assert!(is_decodable("/a%20b%4F"));
    assert!(is_decodable(""));
    assert!(!is_decodable("/a%"));
    assert!(!is_decodable("/a%2"));
    assert!(!is_decodable("/a%g0"));
}

#[test]
fn missing_resource_is_not_found() {
    let s = ResolveState::AwaitExists(String::from("/srv/www/x"));
    match resolve_step(s, ResolveEvent::Exists(false), "/srv/www") {
        ResolveState::Done(Resolution::NotFound) => {},
        _ => panic!("a missing candidate must end as not found"),
    }
}

#[test]
fn traversal_outside_the_root_is_not_found() {
    let s = ResolveState::AwaitCanonical(String::from("/srv/www/../../etc/passwd"));
    let ev = ResolveEvent::Canonical(Some(String::from("/etc/passwd")));
    match resolve_step(s, ev, "/srv/www") {
        ResolveState::Done(Resolution::NotFound) => {},
        _ => panic!("a canonical path outside the root must end as not found"),
    }
}

#[test]
fn canonical_path_inside_the_root_goes_on() {
    let s = ResolveState::AwaitCanonical(String::from("/srv/www/./x.html"));
    let ev = ResolveEvent::Canonical(Some(String::from("/srv/www/x.html")));
    match resolve_step(s, ev, "/srv/www") {
        ResolveState::AwaitIsDir(p) => assert_eq!(p, "/srv/www/x.html"),
        _ => panic!("a canonical path inside the root must go to the directory probe"),
    }
}

#[test]
fn plain_file_is_found() {
    let s = ResolveState::AwaitIsDir(String::from("/srv/www/x.html"));
    match resolve_step(s, ResolveEvent::IsDir(false), "/srv/www") {
        ResolveState::Done(Resolution::Found(p)) => assert_eq!(p, "/srv/www/x.html"),
        _ => panic!("a plain file must be found"),
    }
}

#[test]
fn directory_with_index_serves_the_index() {
    let s = ResolveState::AwaitIsDir(String::from("/srv/www/d"));
    let s = match resolve_step(s, ResolveEvent::IsDir(true), "/srv/www") {
        ResolveState::AwaitIndexExists(ix) => {
            assert_eq!(ix, "/srv/www/d/index.html");
            ResolveState::AwaitIndexExists(ix)
        },
        _ => panic!("a directory must go to the index probe"),
    };
    match resolve_step(s, ResolveEvent::IndexExists(true), "/srv/www") {
        ResolveState::Done(Resolution::Found(p)) => assert_eq!(p, "/srv/www/d/index.html"),
        _ => panic!("an existing index must be found"),
    }
}

#[test]
fn directory_without_index_is_forbidden() {
    let s = ResolveState::AwaitIndexExists(String::from("/srv/www/d/index.html"));
    match resolve_step(s, ResolveEvent::IndexExists(false), "/srv/www") {
        ResolveState::Done(Resolution::Forbidden) => {},
        _ => panic!("a directory without index must be forbidden"),
    }
}

#[test]
fn containment_is_component_wise() {
    assert!(is_within_root("/srv/www/a", "/srv/www"));
    assert!(is_within_root("/srv/www", "/srv/www"));
    assert!(is_within_root("/etc", "/"));
    assert!(!is_within_root("/srv/wwwx", "/srv/www"));
    assert!(!is_within_root("/etc/passwd", "/srv/www"));
    assert!(!is_within_root("/srv", "/srv/www"));
}
