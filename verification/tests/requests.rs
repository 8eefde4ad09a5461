use lambda::message::ApiRequest;
use lambda::requests::{InvocationErrRequest, InvocationRequest, NextEventRequest};
use lambda::uri::{PathAndQuery, Uri};

fn assert_relative(uri: &Uri, path: &str) {
    assert_eq!(uri.scheme, None);
    assert_eq!(uri.authority, None);
    assert_eq!(uri.path_and_query.as_deref(), Some(path));
}

fn assert_post(req: &ApiRequest<Vec<u8>>, path: &str, body: &[u8]) {
    assert_eq!(req.method, "POST");
    assert_relative(&req.uri, path);
    assert_eq!(req.body, body);
}

#[test]
fn next_event_is_asked_for_with_get() {
    let req = NextEventRequest::new().try_into().unwrap();
    assert_eq!(req.method, "GET");
    assert_relative(&req.uri, "/2018-06-01/runtime/invocation/next");
    assert_eq!(req.body, ());
}

#[test]
fn next_event_request_can_be_cloned() {
    assert_eq!(NextEventRequest::new().clone(), NextEventRequest::new());
}

#[test]
fn response_is_posted_under_its_identifier() {
    let req = InvocationRequest::from_components("123".to_string(), b"bye!".to_vec()).unwrap();
    let req = req.try_into().unwrap();
    assert_post(&req, "2018-06-01/runtime/invocation/123/response", b"bye!");
}

#[test]
fn error_is_posted_under_its_identifier() {
    let req = InvocationErrRequest::from_components("123".to_string(), b"bye!".to_vec()).unwrap();
    let req = req.try_into().unwrap();
    assert_post(&req, "2018-06-01/runtime/invocation/123/error", b"bye!");
}

#[test]
fn identifier_that_a_path_cannot_hold_is_refused() {
    for id in ["a b", "<", "\u{e9}", "{}", "`", "\"", "a?b c", "\n"] {
        let e = InvocationRequest::from_components(id.to_string(), vec![]).unwrap_err();
        assert_eq!(e.message, "invalid uri character");
        let e = InvocationErrRequest::from_components(id.to_string(), vec![]).unwrap_err();
        assert_eq!(e.message, "invalid uri character");
    }
}

#[test]
fn every_path_character_is_accepted() {
    for c in '\0'..='\u{ff}' {
        let path_char = c == '!'
            || ('$'..=';').contains(&c)
            || c == '='
            || ('@'..='_').contains(&c)
            || ('a'..='z').contains(&c)
            || c == '|'
            || c == '~'
            || c == '?'
            || c == '#';
        let made = InvocationRequest::from_components(c.to_string(), vec![]);
        assert_eq!(made.is_ok(), path_char, "{:?}", c);
    }
}

#[test]
fn every_query_character_is_accepted() {
    for c in '\0'..='\u{ff}' {
        let query_char = c == '!'
            || ('$'..=';').contains(&c)
            || c == '='
            || ('?'..='~').contains(&c)
            || c == '#';
        let made = InvocationRequest::from_components(format!("?{}", c), vec![]);
        assert_eq!(made.is_ok(), query_char, "{:?}", c);
    }
}

#[test]
fn fragment_is_left_out() {
    let req = InvocationRequest::from_components("a#b c".to_string(), vec![7]).unwrap();
    assert_post(&req.try_into().unwrap(), "2018-06-01/runtime/invocation/a", &[7]);
    let req = InvocationRequest::from_components("a?b#c".to_string(), vec![7]).unwrap();
    assert_post(&req.try_into().unwrap(), "2018-06-01/runtime/invocation/a?b", &[7]);
}

#[test]
fn empty_path_is_the_root() {
    assert_eq!(PathAndQuery::from_shared(String::new()).unwrap().as_str(), "/");
    assert_eq!(PathAndQuery::from_shared("#x".to_string()).unwrap().as_str(), "/");
    assert_eq!(PathAndQuery::from_shared("?x".to_string()).unwrap().as_str(), "?x");
}

#[test]
fn query_at_the_reserved_position_is_taken_as_it_is() {
    let before = "2018-06-01/runtime/invocation/".len();
    for at in [65534usize, 65536] {
        let id = format!("{}? \u{e9}#", "a".repeat(at - before));
        assert!(InvocationRequest::from_components(id, vec![]).is_err());
    }
    for at in [65535usize, 65535 + 65536] {
        let id = format!("{}? \u{e9}#", "a".repeat(at - before));
        let req = InvocationRequest::from_components(id.clone(), vec![]).unwrap();
        let path = format!("2018-06-01/runtime/invocation/{}/response", id);
        assert_post(&req.try_into().unwrap(), &path, &[]);
    }
}

#[test]
fn different_identifiers_have_different_paths() {
    let a = InvocationRequest::from_components("a".to_string(), vec![]).unwrap();
    let b = InvocationRequest::from_components("b".to_string(), vec![]).unwrap();
    let e = InvocationErrRequest::from_components("a".to_string(), vec![]).unwrap();
    let a = a.try_into().unwrap();
    assert_ne!(a.uri.path_and_query, b.try_into().unwrap().uri.path_and_query);
    assert_ne!(a.uri.path_and_query, e.try_into().unwrap().uri.path_and_query);
}

#[test]
fn path_reads_back_as_itself() {
    for path in ["/hello?world", "2018-06-01/x", "*", "/a?b?c", "/a#b"] {
        let once = PathAndQuery::from_shared(path.to_string()).unwrap();
        let twice = PathAndQuery::from_shared(once.as_str().to_string()).unwrap();
        assert_eq!(once, twice);
    }
    assert_eq!(PathAndQuery::from_static("/a?b#c").as_str(), "/a?b");
}

#[test]
fn both_answers_take_the_same_identifiers() {
    let before = "2018-06-01/runtime/invocation/".len();
    let reserved = "a".repeat(65535 - before);
    let ids = [
        "", "a", "a b", "?", "#", "?a b", "?a#b c", "a#b c", "?{", "{", "?`", "\u{e9}", "?\u{e9}",
        "a?b?c", &format!("{}?", reserved), &format!("{}? ", reserved), &format!("a{}? ", reserved),
    ];
    for id in ids {
        let response = InvocationRequest::from_components(id.to_string(), vec![]);
        let error = InvocationErrRequest::from_components(id.to_string(), vec![]);
        assert_eq!(response.is_ok(), error.is_ok(), "{:?}", id);
    }
}
