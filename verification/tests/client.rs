use futures::task::noop_waker_ref;
use lambda::client::{Client, ConnectError, EventClient, EventStream, Poll};
use lambda::message::{ApiRequest, ApiResponse, HttpError};
use lambda::requests::{InvocationRequest, NextEventRequest};
use lambda::runtime::run_config;
use lambda::uri::{parse_authority, parse_scheme, InvalidUri, PathAndQuery, Uri};
use std::future::Future;
use std::pin::Pin;
use std::sync::Mutex;
use std::task::Context;

fn empty() -> ApiResponse {
    ApiResponse { status: 200, headers: vec![], body: vec![] }
}

/// A client whose responses are pending once, and tell how many requests came before.
struct Counting {
    paths: Mutex<Vec<String>>,
}

struct Later {
    polled: bool,
    body: u8,
}

impl Future for Later {
    type Output = Result<ApiResponse, String>;

    fn poll(mut self: Pin<&mut Self>, _: &mut Context<'_>) -> std::task::Poll<Self::Output> {
        if self.polled {
            let mut res = empty();
            res.body.push(self.body);
            std::task::Poll::Ready(if self.body == 1 { Err("lost".to_string()) } else { Ok(res) })
        } else {
            self.polled = true;
            std::task::Poll::Pending
        }
    }
}

impl<'a> EventClient<'a> for Counting {
    type Err = String;
    type Fut = Later;

    fn get(&self, req: ApiRequest<()>) -> Later {
        assert_eq!(req.method, "GET");
        let mut paths = self.paths.lock().unwrap();
        paths.push(req.uri.path_and_query.unwrap());
        Later { polled: false, body: paths.len() as u8 - 1 }
    }

    fn post(&self, _: ApiRequest<Vec<u8>>) -> Later {
        Later { polled: true, body: 0 }
    }
}

#[test]
fn endpoint_of_a_run_is_an_origin() {
    let client = Client::connect(&run_config().endpoint).unwrap();
    let uri = client.add_origin(PathAndQuery::from_static("/a?b"));
    assert_eq!(uri.scheme.as_deref(), Some("http"));
    assert_eq!(uri.authority.as_deref(), Some("localhost:8000"));
    assert_eq!(uri.path_and_query.as_deref(), Some("/a?b"));
}

#[test]
fn origin_is_added_to_the_next_event_path() {
    let client = Client::connect("https://user@[::1]:80/ignored?x").unwrap();
    let path = PathAndQuery::from_static("/2018-06-01/runtime/invocation/next");
    let uri = client.add_origin(path);
    assert_eq!(uri.scheme.unwrap(), "https");
    assert_eq!(uri.authority.unwrap(), "user@[::1]:80");
    assert_eq!(uri.path_and_query.unwrap(), "/2018-06-01/runtime/invocation/next");
}

#[test]
fn endpoint_without_a_scheme_is_refused() {
    for endpoint in ["localhost:8000", "/path", "*"] {
        let e = Client::connect(endpoint).unwrap_err();
        assert_eq!(e, ConnectError::SchemeNotFound);
        assert_eq!(e.message(), "scheme not found");
    }
}

#[test]
fn endpoint_without_an_authority_is_refused() {
    let uri = Uri {
        scheme: Some("http".to_string()),
        authority: None,
        path_and_query: Some("/".to_string()),
    };
    let e = Client::from_endpoint(Ok(uri)).unwrap_err();
    assert_eq!(e, ConnectError::AuthorityNotFound);
    assert_eq!(e.message(), "authority not found");
}

#[test]
fn endpoint_that_is_no_uri_is_refused() {
    let cases = [
        ("", "empty string"),
        ("http://", "invalid format"),
        ("http://a:b:c", "invalid authority"),
        ("http://a/ ", "invalid uri character"),
    ];
    for (endpoint, message) in cases {
        let e = Client::connect(endpoint).unwrap_err();
        assert_eq!(e, ConnectError::InvalidUri(InvalidUri { message: message.to_string() }));
        assert_eq!(e.message(), message);
    }
}

#[test]
fn scheme_of_any_origin_is_kept() {
    for scheme in ["http", "https", "a+b-c.d~1", "X"] {
        let client = Client::connect(&format!("{}://host", scheme)).unwrap();
        let uri = client.add_origin(PathAndQuery::from_static("/"));
        assert_eq!(uri.scheme.unwrap(), scheme);
        assert_eq!(uri.authority.unwrap(), "host");
    }
    let client = Client::connect("HTTP://host").unwrap();
    let uri = client.add_origin(PathAndQuery::from_static("/"));
    assert_eq!(uri.scheme.unwrap(), "http");
}

#[test]
fn origin_is_read_from_its_parts() {
    let client = Client::at("http", "localhost:8000").unwrap();
    assert_eq!(client, Client::connect("http://localhost:8000").unwrap());
    let uri = client.add_origin(PathAndQuery::from_static("/a"));
    assert_eq!(uri.scheme.as_deref(), Some("http"));
    assert_eq!(uri.authority.as_deref(), Some("localhost:8000"));
    let cases = [
        ("a b", "host", "invalid scheme"),
        ("a:", "host", "invalid scheme"),
        ("\u{e9}", "a:b:c", "invalid scheme"),
        (&*"a".repeat(65), "host", "scheme too long"),
        (&*"\u{e9}".repeat(33), "host", "scheme too long"),
        ("http", "", "empty string"),
        ("http", "a:b:c", "invalid authority"),
        ("http", "a/b", "invalid authority"),
        ("http", "a b", "invalid uri character"),
    ];
    for (scheme, authority, message) in cases {
        assert_eq!(Client::at(scheme, authority).unwrap_err().message, message);
    }
    assert!(Client::at(&"a".repeat(64), "host").is_ok());
    assert_eq!(parse_scheme("X+1").unwrap(), "X+1");
    assert_eq!(parse_authority("user@[::1]:80").unwrap(), "user@[::1]:80");
}

#[test]
fn clients_at_the_same_origin_are_equal() {
    let texts = ["http", "https", "HTTP", "Https", "X", "x", "y"];
    let hosts = ["localhost:8000", "LOCALHOST:8000", "localhost:8001", "host"];
    for (a, b) in texts.iter().flat_map(|a| texts.iter().map(move |b| (*a, *b))) {
        for (h, k) in hosts.iter().flat_map(|h| hosts.iter().map(move |k| (*h, *k))) {
            let client = Client::new(a.to_string(), h.to_string());
            let other = Client::new(b.to_string(), k.to_string());
            let schemes = (a.parse::<http::uri::Scheme>(), b.parse::<http::uri::Scheme>());
            let same = schemes.0.unwrap() == schemes.1.unwrap() && h.eq_ignore_ascii_case(k);
            assert_eq!(client == other, same, "{}://{} and {}://{}", a, h, b, k);
        }
    }
    assert_eq!(Client::connect("HTTP://LOCALHOST").unwrap(), Client::connect("http://localhost").unwrap());
    assert_ne!(Client::connect("http://a").unwrap(), Client::connect("https://a").unwrap());
}

#[test]
fn client_responds_at_once_with_nothing() {
    let client = Client::connect("http://localhost:8000").unwrap();
    let mut got = client.get(NextEventRequest::new().try_into().unwrap());
    let mut cx = Context::from_waker(noop_waker_ref());
    assert_eq!(Pin::new(&mut got).poll(&mut cx), std::task::Poll::Ready(Ok(empty())));
    let req = InvocationRequest::from_components("1".to_string(), vec![1]).unwrap();
    let mut posted = client.post(req.try_into().unwrap());
    assert_eq!(Pin::new(&mut posted).poll(&mut cx), std::task::Poll::Ready(Ok(empty())));
}

#[test]
fn response_carries_its_body() {
    let res = ApiResponse::with_body(vec![1, 2, 3]).unwrap();
    assert_eq!(res, ApiResponse { status: 200, headers: vec![], body: vec![1, 2, 3] });
}

#[test]
fn lib_get_next() {
    let client = Client::connect("http://localhost:8000").unwrap();
    let mut stream = EventStream::new(&client);
    let mut cx = Context::from_waker(noop_waker_ref());
    for _ in 0..3 {
        let event: Poll<Option<Result<ApiResponse, HttpError>>> = stream.poll_next(&mut cx);
        assert_eq!(event, Poll::Ready(Some(Ok(empty()))));
    }
}

#[test]
fn stream_asks_for_one_event_at_a_time() {
    let client = Counting { paths: Mutex::new(vec![]) };
    let mut stream = EventStream::new(&client);
    let mut cx = Context::from_waker(noop_waker_ref());
    assert_eq!(client.paths.lock().unwrap().len(), 0);
    for n in 0..4u8 {
        assert_eq!(stream.poll_next(&mut cx), Poll::Pending);
        assert_eq!(client.paths.lock().unwrap().len(), n as usize + 1);
        let item = match stream.poll_next(&mut cx) {
            Poll::Ready(item) => item.unwrap(),
            Poll::Pending => panic!("the event is there"),
        };
        match item {
            Ok(res) => assert_eq!(res.body, vec![n]),
            Err(e) => {
                assert_eq!(n, 1);
                assert_eq!(e, "lost");
            }
        }
        assert_eq!(client.paths.lock().unwrap().len(), n as usize + 2);
    }
    for path in client.paths.lock().unwrap().iter() {
        assert_eq!(path, "/2018-06-01/runtime/invocation/next");
    }
}

#[test]
fn stream_moves_on_by_what_polling_gave() {
    let client = Counting { paths: Mutex::new(vec![]) };
    let mut stream = EventStream::new(&client);
    assert_eq!(stream.advance(Poll::Pending), Poll::Pending);
    assert_eq!(client.paths.lock().unwrap().len(), 0);
    assert_eq!(stream.advance(Poll::Ready(Ok(empty()))), Poll::Ready(Some(Ok(empty()))));
    assert_eq!(client.paths.lock().unwrap().len(), 1);
}

/// A client whose responses must not be moved once they were polled.
struct Fixed;

struct Unmoved {
    place: Option<usize>,
    _pinned: std::marker::PhantomPinned,
}

impl Future for Unmoved {
    type Output = Result<ApiResponse, String>;

    fn poll(self: Pin<&mut Self>, cx: &mut Context<'_>) -> std::task::Poll<Self::Output> {
        let _ = cx;
        match self.place {
            Some(n) => std::task::Poll::Ready(Err(n.to_string())),
            None => std::task::Poll::Pending,
        }
    }
}

impl<'a> EventClient<'a> for Fixed {
    type Err = String;
    type Fut = Unmoved;

    fn get(&self, _: ApiRequest<()>) -> Unmoved {
        Unmoved { place: Some(4), _pinned: std::marker::PhantomPinned }
    }

    fn post(&self, _: ApiRequest<Vec<u8>>) -> Unmoved {
        Unmoved { place: None, _pinned: std::marker::PhantomPinned }
    }
}

#[test]
fn responses_need_not_be_movable() {
    let mut stream = EventStream::new(&Fixed);
    let mut cx = Context::from_waker(noop_waker_ref());
    for _ in 0..2 {
        assert_eq!(stream.poll_next(&mut cx), Poll::Ready(Some(Err("4".to_string()))));
    }
}
