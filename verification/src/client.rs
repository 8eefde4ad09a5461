//! The client of the runtime API, and the stream of events that it fetches.
use vstd::prelude::*;
use vstd::future::FutureAdditionalSpecFns;
use vstd::std_specs::cmp::PartialEqSpec;
use core::future::Future;
use core::pin::Pin;
use crate::asking::Requests;
use crate::message::{ApiRequest, ApiResponse, HttpError, RequestView, ResponseView};
use crate::requests::{get_request, next_event_path};
use crate::uri::{
    authority_text, http_authority, http_uri, parse_authority, parse_scheme, read_uri, scheme_fault,
    scheme_text, InvalidUri, PathAndQuery, Uri, UriView,
};

verus! {

/// A client of the runtime API at one origin.
#[derive(Debug)]
pub struct Client {
    base: (String, String),
}

/// Why no client can be made from an endpoint.
#[derive(Debug, PartialEq)]
pub enum ConnectError {
    /// The endpoint is not a URI.
    InvalidUri(InvalidUri),
    /// The endpoint has no scheme.
    SchemeNotFound,
    /// The endpoint has no authority.
    AuthorityNotFound,
}

/// Why no client can be made from an endpoint.
pub enum ConnectErrorView {
    InvalidUri(Seq<char>),
    SchemeNotFound,
    AuthorityNotFound,
}

impl View for ConnectError {
    type V = ConnectErrorView;

    open spec fn view(&self) -> ConnectErrorView {
        match *self {
            ConnectError::InvalidUri(e) => ConnectErrorView::InvalidUri(e@),
            ConnectError::SchemeNotFound => ConnectErrorView::SchemeNotFound,
            ConnectError::AuthorityNotFound => ConnectErrorView::AuthorityNotFound,
        }
    }
}

/// What a connection error says.
pub open spec fn connect_message(e: ConnectErrorView) -> Seq<char> {
    match e {
        ConnectErrorView::InvalidUri(message) => message,
        ConnectErrorView::SchemeNotFound => "scheme not found"@,
        ConnectErrorView::AuthorityNotFound => "authority not found"@,
    }
}

impl ConnectError {
    /// What the error says.
    pub fn message(&self) -> (message: String)
        ensures
            message@ == connect_message(self@),
    {
        match self {
            ConnectError::InvalidUri(e) => e.message.clone(),
            ConnectError::SchemeNotFound => "scheme not found".to_owned(),
            ConnectError::AuthorityNotFound => "authority not found".to_owned(),
        }
    }
}

/// The origin that an endpoint denotes, once it is read as a URI: its scheme and authority.
pub open spec fn origin_of(endpoint: Result<UriView, Seq<char>>) -> Result<
    (Seq<char>, Seq<char>),
    ConnectErrorView,
> {
    match endpoint {
        Err(message) => Err(ConnectErrorView::InvalidUri(message)),
        Ok(uri) => match (uri.scheme, uri.authority) {
            (None, _) => Err(ConnectErrorView::SchemeNotFound),
            (_, None) => Err(ConnectErrorView::AuthorityNotFound),
            (Some(scheme), Some(authority)) => Ok((scheme, authority)),
        },
    }
}

/// The origin of a client, or why there is none.
pub open spec fn connected(client: Result<Client, ConnectError>) -> Result<
    (Seq<char>, Seq<char>),
    ConnectErrorView,
> {
    match client {
        Ok(client) => Ok(client@),
        Err(e) => Err(e@),
    }
}

impl View for Client {
    type V = (Seq<char>, Seq<char>);

    closed spec fn view(&self) -> (Seq<char>, Seq<char>) {
        (self.base.0@, self.base.1@)
    }
}

impl Client {
    /// The origin has a scheme and an authority.
    #[verifier::type_invariant]
    spec fn well_formed(self) -> bool {
        scheme_text(self.base.0@) && authority_text(self.base.1@)
    }

    /// A client of the runtime API at an origin.
    pub fn new(scheme: String, authority: String) -> (client: Client)
        requires
            scheme_text(scheme@),
            authority_text(authority@),
        ensures
            client@ == (scheme@, authority@),
    {
        Client { base: (scheme, authority) }
    }

    /// A client of the runtime API at an origin, of which the texts are read first: the scheme,
    /// then the authority.
    pub fn at(scheme: &str, authority: &str) -> (client: Result<Client, InvalidUri>)
        ensures
            match client {
                Ok(client) => scheme_text(scheme@) && authority_text(authority@) && client@ == (
                    scheme@,
                    authority@,
                ),
                Err(e) => if scheme_text(scheme@) {
                    http_authority(authority@) == Err::<Seq<char>, _>(e@)
                } else {
                    e@ == scheme_fault(scheme@)
                },
            },
    {
        let scheme = match parse_scheme(scheme) {
            Ok(scheme) => scheme,
            Err(e) => return Err(e),
        };
        match parse_authority(authority) {
            Ok(authority) => Ok(Client::new(scheme, authority)),
            Err(e) => Err(e),
        }
    }

    /// A client of the runtime API at the origin of a URI.
    pub fn from_endpoint(endpoint: Result<Uri, InvalidUri>) -> (client: Result<
        Client,
        ConnectError,
    >)
        requires
            endpoint matches Ok(uri) ==> (uri@.scheme matches Some(s) ==> scheme_text(s)),
            endpoint matches Ok(uri) ==> (uri@.authority matches Some(a) ==> authority_text(a)),
        ensures
            connected(client) == origin_of(read_uri(endpoint)),
    {
        let uri = match endpoint {
            Ok(uri) => uri,
            Err(e) => return Err(ConnectError::InvalidUri(e)),
        };
        let scheme = match uri.scheme {
            Some(scheme) => scheme,
            None => return Err(ConnectError::SchemeNotFound),
        };
        let authority = match uri.authority {
            Some(authority) => authority,
            None => return Err(ConnectError::AuthorityNotFound),
        };
        Ok(Client::new(scheme, authority))
    }

    /// A client of the runtime API at an endpoint, such as `http://localhost:8000`.
    pub fn connect(endpoint: &str) -> (client: Result<Client, ConnectError>)
        ensures
            connected(client) == origin_of(http_uri(endpoint@)),
    {
        Client::from_endpoint(Uri::parse(endpoint))
    }

    /// The URI of a path and query at the client's origin.
    pub fn add_origin(&self, query: PathAndQuery) -> (uri: Uri)
        ensures
            uri@ == UriView::absolute(self@.0, self@.1, query@),
            uri@.scheme == Some(self@.0),
            uri@.authority == Some(self@.1),
            uri@.path_and_query == Some(query@),
    {
        proof {
            use_type_invariant(self);
        }
        Uri::absolute(self.base.0.as_str(), self.base.1.as_str(), &query)
    }
}

/// `c` in lower case, where it is an ASCII letter.
pub open spec fn ascii_lowercase(c: char) -> char {
    if 'A' <= c <= 'Z' {
        (c as u32 + 32) as char
    } else {
        c
    }
}

/// `a` and `b` differ at most in the case of ASCII letters.
pub open spec fn same_but_for_case(a: Seq<char>, b: Seq<char>) -> bool {
    &&& a.len() == b.len()
    &&& forall|i: int|
        0 <= i < a.len() ==> ascii_lowercase(#[trigger] a[i]) == ascii_lowercase(b[i])
}

/// A scheme that is known by its exact text.
pub open spec fn standard_scheme(scheme: Seq<char>) -> bool {
    scheme == "http"@ || scheme == "https"@
}

/// Two schemes are the same. The case of letters makes a difference only to those that are known
/// by their exact text.
pub open spec fn same_scheme(a: Seq<char>, b: Seq<char>) -> bool {
    if standard_scheme(a) || standard_scheme(b) {
        a == b
    } else {
        same_but_for_case(a, b)
    }
}

/// `str::eq_ignore_ascii_case` compares two texts as if both were put in ASCII lower case.
pub assume_specification[ str::eq_ignore_ascii_case ](s: &str, other: &str) -> (same: bool)
    ensures
        same == same_but_for_case(s@, other@),
;

impl PartialEq for Client {
    fn eq(&self, other: &Client) -> (same: bool) {
        let standard = self.base.0.eq(&"http".to_owned()) || self.base.0.eq(&"https".to_owned())
            || other.base.0.eq(&"http".to_owned()) || other.base.0.eq(&"https".to_owned());
        let scheme = if standard {
            self.base.0.eq(&other.base.0)
        } else {
            self.base.0.as_str().eq_ignore_ascii_case(other.base.0.as_str())
        };
        scheme && self.base.1.as_str().eq_ignore_ascii_case(other.base.1.as_str())
    }
}

impl vstd::std_specs::cmp::PartialEqSpecImpl for Client {
    open spec fn obeys_eq_spec() -> bool {
        true
    }

    /// Two clients are equal if their origins are the same.
    open spec fn eq_spec(&self, other: &Client) -> bool {
        same_scheme(self@.0, other@.0) && same_but_for_case(self@.1, other@.1)
    }
}

/// A client responsible for interacting with the
/// [Lambda Runtime API](https://docs.aws.amazon.com/lambda/latest/dg/runtimes-api.html).
pub trait EventClient<'a>: Send + Sync {
    /// Why a request fails.
    type Err;

    /// The response to come.
    type Fut: Future<Output = Result<ApiResponse, Self::Err>> + Send + 'a;

    /// `res` may come of a request that was sent with `get`.
    open spec fn got(&self, req: RequestView<()>, res: Result<ApiResponse, Self::Err>) -> bool {
        true
    }

    /// `res` may come of a request that was sent with `post`.
    open spec fn posted(
        &self,
        req: RequestView<Seq<u8>>,
        res: Result<ApiResponse, Self::Err>,
    ) -> bool {
        true
    }

    /// Sends a request that has no body.
    fn get(&self, req: ApiRequest<()>) -> (fut: Self::Fut)
        ensures
            self.got(req@, fut@),
    ;

    /// Sends a request that has a body.
    fn post(&self, req: ApiRequest<Vec<u8>>) -> (fut: Self::Fut)
        ensures
            self.posted(req@, fut@),
    ;
}

/// The response that says nothing.
pub open spec fn empty_response() -> ResponseView {
    ResponseView { status: 200, headers: seq![], body: seq![] }
}

/// `core::future::Ready`, a future that holds its value.
#[verifier::external_type_specification]
#[verifier::external_body]
#[verifier::reject_recursive_types(T)]
pub struct ExReady<T>(core::future::Ready<T>);

/// `core::future::ready` gives a future that is immediately ready with the value it was given.
pub assume_specification<T>[ core::future::ready::<T> ](t: T) -> (fut: core::future::Ready<T>)
    ensures
        fut@ == t,
;

impl<'a> EventClient<'a> for Client {
    type Err = HttpError;

    type Fut = core::future::Ready<Result<ApiResponse, HttpError>>;

    /// Every request is answered with the response that says nothing.
    open spec fn got(&self, req: RequestView<()>, res: Result<ApiResponse, HttpError>) -> bool {
        res matches Ok(res) && res@ == empty_response()
    }

    /// Every request is answered with the response that says nothing.
    open spec fn posted(
        &self,
        req: RequestView<Seq<u8>>,
        res: Result<ApiResponse, HttpError>,
    ) -> bool {
        res matches Ok(res) && res@ == empty_response()
    }

    fn get(&self, req: ApiRequest<()>) -> (fut: Self::Fut)
        ensures
            fut@ matches Ok(res) && res@ == empty_response(),
            fut@ matches Ok(res) && res@.status == 200 && res@.headers.len() == 0
                && res@.body.len() == 0,
    {
        core::future::ready(ApiResponse::with_body(Vec::new()))
    }

    fn post(&self, req: ApiRequest<Vec<u8>>) -> (fut: Self::Fut)
        ensures
            fut@ matches Ok(res) && res@ == empty_response(),
            fut@ matches Ok(res) && res@.status == 200 && res@.headers.len() == 0
                && res@.body.len() == 0,
    {
        core::future::ready(ApiResponse::with_body(Vec::new()))
    }
}

/// Whether a value is there yet.
#[derive(Debug, PartialEq)]
pub enum Poll<T> {
    /// The value is there.
    Ready(T),
    /// The value is not there yet.
    Pending,
}

/// `core::task::Context`, which a poll hands on to what it polls.
#[verifier::external_type_specification]
#[verifier::external_body]
pub struct ExContext<'a>(core::task::Context<'a>);

/// `core::pin::Pin`, which keeps what a pointer points to in its place.
#[verifier::external_type_specification]
#[verifier::external_body]
#[verifier::reject_recursive_types(Ptr)]
pub struct ExPin<Ptr>(core::pin::Pin<Ptr>);

/// `Box::pin` moves a future to the heap. It is to give the same value there.
#[verifier::external_body]
pub(crate) fn pin_future<F: Future>(fut: F) -> (pinned: Pin<Box<F>>)
    ensures
        pinned@ == fut@,
{
    Box::pin(fut)
}

/// An `EventStream` converts a future that contains the next event from the Lambda runtime into
/// a continuous stream of events. While this stream will continue to produce events
/// indefinitely, AWS Lambda will only run the function attached to this runtime if and only if
/// there is an event available for it to process. For functions that receive a "warm wakeup",
/// where the function is readily available in the Lambda service's cache, this runtime is able
/// to immediately fetch the next event.
pub struct EventStream<'a, T: EventClient<'a>> {
    current: Option<Pin<Box<T::Fut>>>,
    requests: Requests<'a, T>,
    yielded: Ghost<Seq<Box<Result<ApiResponse, T::Err>>>>,
}

impl<'a, T: EventClient<'a>> EventStream<'a, T> {
    /// The event to come, where it was asked for.
    pub closed spec fn current(&self) -> Option<Pin<Box<T::Fut>>> {
        self.current
    }

    /// The client that events are asked for with.
    pub closed spec fn client(&self) -> T {
        self.requests.client()
    }

    /// What is to come of each request for an event, in the order of the requests.
    pub closed spec fn sent(&self) -> Seq<Pin<Box<T::Fut>>> {
        self.requests.sent()
    }

    /// The events that were handed out, in order.
    pub closed spec fn yielded(&self) -> Seq<Result<ApiResponse, T::Err>> {
        self.yielded@.map_values(|event: Box<Result<ApiResponse, T::Err>>| *event)
    }

    /// `event` may come of a request for the next event.
    pub open spec fn asked(&self, event: Result<ApiResponse, T::Err>) -> bool {
        self.client().got(get_request(next_event_path()), event)
    }

    /// A stream of the events that a client fetches.
    pub fn new(inner: &'a T) -> (stream: Self)
        ensures
            stream.current() is None,
            stream.client() == *inner,
            stream.sent().len() == 0,
            stream.yielded().len() == 0,
    {
        EventStream {
            current: None,
            requests: Requests::new(inner),
            yielded: Ghost(Seq::empty()),
        }
    }

    /// Asks for the next event.
    pub fn next_event(&mut self) -> (fut: Pin<Box<T::Fut>>)
        ensures
            old(self).asked(fut@),
            final(self).asked(fut@),
            final(self).client() == old(self).client(),
            final(self).current() == old(self).current(),
            final(self).sent() == old(self).sent().push(fut),
            final(self).yielded() == old(self).yielded(),
    {
        self.requests.ask()
    }

    /// Calls `core::future::Future::poll`. A future that is ready gives the value that awaiting
    /// it gives, and is gone, so that it is not polled again; one that is not ready is handed
    /// back, and is still to give this value. When a future gets ready is not stated.
    #[verifier::external_body]
    fn poll_event(fut: Pin<Box<T::Fut>>, cx: &mut core::task::Context<'_>) -> (polled: Result<
        Result<ApiResponse, T::Err>,
        Pin<Box<T::Fut>>,
    >)
        ensures
            match polled {
                Ok(event) => event == fut@,
                Err(rest) => rest@ == fut@,
            },
    {
        let mut fut = fut;
        match fut.as_mut().poll(cx) {
            core::task::Poll::Ready(event) => Ok(event),
            core::task::Poll::Pending => Err(fut),
        }
    }

    /// Moves the stream on by what polling the event to come gave: an event that is there is
    /// handed out, and the next one is asked for; otherwise nothing changes.
    pub fn advance(&mut self, polled: Poll<Result<ApiResponse, T::Err>>) -> (item: Poll<
        Option<Result<ApiResponse, T::Err>>,
    >)
        ensures
            final(self).client() == old(self).client(),
            match polled {
                Poll::Ready(event) => item == Poll::Ready(Some(event)) && (
                final(self).current() matches Some(fut) && final(self).asked(fut@)
                    && final(self).sent() == old(self).sent().push(fut)) && final(self).yielded()
                    == old(self).yielded().push(event),
                Poll::Pending => item is Pending && final(self).current() == old(self).current()
                    && final(self).sent() == old(self).sent() && final(self).yielded() == old(
                    self,
                ).yielded(),
            },
    {
        match polled {
            Poll::Ready(event) => {
                let fut = self.next_event();
                self.current = Some(fut);
                proof {
                    self.yielded@ = self.yielded@.push(Box::new(event));
                    assert(self.yielded() =~= old(self).yielded().push(event));
                }
                Poll::Ready(Some(event))
            },
            Poll::Pending => Poll::Pending,
        }
    }

    /// Polls the event to come, which is asked for first where it was not.
    ///
    /// The stream never ends, and an event to come is always asked for when this returns. One
    /// request is sent per event, and each event that a request gave is handed out, in the order
    /// of the requests.
    pub fn poll_next(&mut self, cx: &mut core::task::Context<'_>) -> (item: Poll<
        Option<Result<ApiResponse, T::Err>>,
    >)
        ensures
            final(self).client() == old(self).client(),
            match item {
                Poll::Ready(item) => {
                    &&& item is Some
                    &&& final(self).current() matches Some(fut) && final(self).asked(fut@)
                    &&& match old(self).current() {
                        Some(fut) => item == Some(fut@),
                        None => old(self).asked(item->0),
                    }
                },
                Poll::Pending => {
                    &&& final(self).current() is Some
                    &&& match old(self).current() {
                        Some(fut) => final(self).current()->0@ == fut@,
                        None => old(self).asked(final(self).current()->0@),
                    }
                },
            },
            match item {
                Poll::Ready(item) => {
                    &&& item matches Some(event) && final(self).yielded() == old(
                        self,
                    ).yielded().push(event)
                    &&& final(self).current() matches Some(next) && match old(self).current() {
                        Some(_) => final(self).sent() == old(self).sent().push(next),
                        None => {
                            &&& final(self).sent().len() == old(self).sent().len() + 2
                            &&& final(self).sent() == old(self).sent().push(
                                final(self).sent()[old(self).sent().len() as int],
                            ).push(next)
                            &&& item == Some(final(self).sent()[old(self).sent().len() as int]@)
                        },
                    }
                },
                Poll::Pending => {
                    &&& final(self).yielded() == old(self).yielded()
                    &&& match old(self).current() {
                        Some(_) => final(self).sent() == old(self).sent(),
                        None => {
                            &&& final(self).sent().len() == old(self).sent().len() + 1
                            &&& final(self).sent().drop_last() == old(self).sent()
                            &&& final(self).current()->0@ == final(self).sent().last()@
                        },
                    }
                },
            },
            ({
                &&& old(self).sent().len() == old(self).yielded().len() + (if old(
                    self,
                ).current() is Some {
                    1int
                } else {
                    0int
                })
                &&& old(self).current() matches Some(fut) ==> fut@ == old(self).sent().last()@
                &&& forall|n: int|
                    0 <= n < old(self).yielded().len() ==> #[trigger] old(self).yielded()[n]
                        == old(self).sent()[n]@
            }) ==> ({
                &&& final(self).sent().len() == final(self).yielded().len() + 1
                &&& final(self).current() matches Some(fut) && fut@ == final(self).sent().last()@
                &&& forall|n: int|
                    0 <= n < final(self).yielded().len() ==> #[trigger] final(self).yielded()[n]
                        == final(self).sent()[n]@
            }),
    {
        let fut = match self.current.take() {
            Some(fut) => fut,
            None => self.next_event(),
        };
        match Self::poll_event(fut, cx) {
            Ok(event) => self.advance(Poll::Ready(event)),
            Err(fut) => {
                self.current = Some(fut);
                self.advance(Poll::Pending)
            },
        }
    }
}

/// The items of a stream are the responses to its requests, in order and without a gap: where the
/// first events were the responses to the first requests, the next item is the response to the
/// very next request, no request is sent but one for the event to come, and no event is lost.
pub proof fn law_items_follow_requests<'a, 'b, 'c, 'd, T: EventClient<'a>>(
    stream: &'b mut EventStream<'a, T>,
    cx: &'c mut core::task::Context<'d>,
    polled: Poll<Option<Result<ApiResponse, T::Err>>>,
)
    requires
        call_ensures(EventStream::<'a, T>::poll_next, (stream, cx), polled),
        old(stream).sent().len() == old(stream).yielded().len() + (if old(stream).current() is Some {
            1int
        } else {
            0int
        }),
        old(stream).current() matches Some(fut) ==> fut@ == old(stream).sent().last()@,
        forall|n: int|
            0 <= n < old(stream).yielded().len() ==> #[trigger] old(stream).yielded()[n] == old(
                stream,
            ).sent()[n]@,
    ensures
        match polled {
            Poll::Ready(None) => false,
            Poll::Ready(Some(event)) => {
                &&& event == final(stream).sent()[old(stream).yielded().len() as int]@
                &&& final(stream).yielded() == old(stream).yielded().push(event)
            },
            Poll::Pending => final(stream).yielded() == old(stream).yielded(),
        },
        final(stream).sent().len() == final(stream).yielded().len() + 1,
        forall|n: int|
            0 <= n < old(stream).sent().len() ==> #[trigger] final(stream).sent()[n] == old(
                stream,
            ).sent()[n],
        final(stream).current() matches Some(fut) && fut@ == final(stream).sent().last()@,
        forall|n: int|
            0 <= n < final(stream).yielded().len() ==> #[trigger] final(stream).yielded()[n]
                == final(stream).sent()[n]@,
{
    if polled is Pending && old(stream).current() is None {
        let sent = final(stream).sent();
        assert(sent.drop_last() == old(stream).sent());
        assert forall|n: int| 0 <= n < old(stream).sent().len() implies #[trigger] sent[n] == old(
            stream,
        ).sent()[n] by {
            assert(sent.drop_last()[n] == sent[n]);
        }
    }
}

/// Polled from its start, a stream sends one request before its first item, and the item is what
/// came of that request.
pub proof fn law_first_item_is_the_first_response<'a, 'b, 'c, 'd, T: EventClient<'a>>(
    client: &'a T,
    stream: &'b mut EventStream<'a, T>,
    cx: &'c mut core::task::Context<'d>,
    event: Result<ApiResponse, T::Err>,
)
    requires
        call_ensures(EventStream::<'a, T>::new, (client,), *old(stream)),
        call_ensures(EventStream::<'a, T>::poll_next, (stream, cx), Poll::Ready(Some(event))),
    ensures
        event == final(stream).sent()[0]@,
        final(stream).sent().len() == 2,
        final(stream).yielded() == seq![event],
        client.got(
            (RequestView {
                method: "GET"@,
                uri: (UriView {
                    scheme: None,
                    authority: None,
                    path_and_query: Some("/2018-06-01/runtime/invocation/next"@),
                }),
                body: (),
            }),
            event,
        ),
{
}

/// A client is made from an endpoint that has both a scheme and an authority, and is at this very
/// origin. Otherwise the error says what is missing: the scheme before the authority.
pub proof fn law_client_is_at_its_endpoint(
    endpoint: Result<Uri, InvalidUri>,
    client: Result<Client, ConnectError>,
)
    requires
        call_ensures(Client::from_endpoint, (endpoint,), client),
    ensures
        match endpoint {
            Err(e) => client matches Err(ConnectError::InvalidUri(f)) && f.message@ == e.message@,
            Ok(uri) => match (uri.scheme, uri.authority) {
                (None, _) => client matches Err(ConnectError::SchemeNotFound),
                (Some(_), None) => client matches Err(ConnectError::AuthorityNotFound),
                (Some(scheme), Some(authority)) => client matches Ok(c) && c@ == (
                    scheme@,
                    authority@,
                ),
            },
        },
{
}

/// What an endpoint is read as decides about the client: its scheme and its authority are those of
/// the client.
pub proof fn law_connection_is_to_the_endpoint(
    endpoint: &str,
    client: Result<Client, ConnectError>,
)
    requires
        call_ensures(Client::connect, (endpoint,), client),
    ensures
        match http_uri(endpoint@) {
            Err(message) => client matches Err(ConnectError::InvalidUri(e)) && e.message@ == message,
            Ok(uri) => match (uri.scheme, uri.authority) {
                (None, _) => client matches Err(ConnectError::SchemeNotFound),
                (Some(_), None) => client matches Err(ConnectError::AuthorityNotFound),
                (Some(scheme), Some(authority)) => client matches Ok(c) && c@ == (
                    scheme,
                    authority,
                ),
            },
        },
{
}

/// Adding the origin to a path keeps the path, and takes scheme and authority from the client.
pub proof fn law_origin_is_added(client: &Client, query: PathAndQuery, uri: Uri)
    requires
        call_ensures(Client::add_origin, (client, query), uri),
    ensures
        uri.scheme matches Some(s) && s@ == client@.0,
        uri.authority matches Some(a) && a@ == client@.1,
        uri.path_and_query matches Some(p) && p@ == query@,
{
}

/// What a connection error says: the message of the URI error, or which part is missing.
pub proof fn law_connection_error_says_what_is_missing(e: &ConnectError, message: String)
    requires
        call_ensures(ConnectError::message, (e,), message),
    ensures
        match *e {
            ConnectError::InvalidUri(f) => message@ == f.message@,
            ConnectError::SchemeNotFound => message@ == "scheme not found"@,
            ConnectError::AuthorityNotFound => message@ == "authority not found"@,
        },
{
}

/// Every request of the client without a server is answered with status 200 and nothing else.
pub proof fn law_client_answers_with_nothing(
    client: &Client,
    got: ApiRequest<()>,
    posted: ApiRequest<Vec<u8>>,
    res: Result<ApiResponse, HttpError>,
)
    ensures
        client.got(got@, res) || client.posted(posted@, res) ==> (res matches Ok(r) && r.status
            == 200 && r.headers@.len() == 0 && r.body@.len() == 0),
{
    if client.got(got@, res) || client.posted(posted@, res) {
        let r = res->Ok_0;
        assert(r@.headers.len() == r.headers@.len());
    }
}

/// Equality of clients is that of their origins: it is an equivalence, holds of the same origin,
/// and takes the same number of characters, each the same but for its case.
pub proof fn law_clients_are_equal_by_origin(a: Client, b: Client, c: Client)
    ensures
        a.eq_spec(&a),
        a@ == b@ ==> a.eq_spec(&b),
        a.eq_spec(&b) ==> b.eq_spec(&a),
        a.eq_spec(&b) && b.eq_spec(&c) ==> a.eq_spec(&c),
        a.eq_spec(&b) ==> a@.0.len() == b@.0.len() && a@.1.len() == b@.1.len(),
        a.eq_spec(&b) && (a@.0 == "http"@ || a@.0 == "https"@) ==> a@.0 == b@.0,
        forall|i: int|
            a.eq_spec(&b) && 0 <= i < a@.1.len() && !('A' <= #[trigger] a@.1[i] <= 'Z') && !('a'
                <= a@.1[i] <= 'z') ==> a@.1[i] == b@.1[i],
        a@.0 == b@.0 && a@.1.len() == b@.1.len() && (forall|i: int|
            0 <= i < a@.1.len() ==> (#[trigger] a@.1[i] == b@.1[i] || ('a' <= a@.1[i] <= 'z'
                && b@.1[i] as int == a@.1[i] as int - 32))) ==> a.eq_spec(&b),
{
}

} // verus!
